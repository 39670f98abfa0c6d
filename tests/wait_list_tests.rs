use stylus_sdk::alloy_primitives::{Address as AlloyAddress, B256};
use stylus_sdk::storage::StorageKey;
use wait_list::hash::{function_selector, mapping_slot};
use wait_list::router::{decode_address, decode_call, encode_word, CallError, Operation, SelectorTable};
use wait_list::store::AddressMap;
use wait_list::wait_list::WaitList;
use wait_list::word::{Address, U256};

fn addr(b: u8) -> Address {
    Address::new([b; 20])
}

fn word_of(v: u8) -> U256 {
    let mut bytes = [0u8; 32];
    bytes[31] = v;
    U256 { bytes }
}

fn call_data(selector: [u8; 4], a: &Address) -> Vec<u8> {
    let mut data = selector.to_vec();
    data.extend_from_slice(&[0u8; 12]);
    data.extend_from_slice(&a.bytes);
    data
}

#[test]
fn scenario_read_set_read_delete_read() {
    let mut w = WaitList::new();
    let a = addr(0xAA);
    assert_eq!(w.inclusion(a), Ok(U256::zero()));
    assert_eq!(w.set_include(a), Ok(()));
    assert_eq!(w.inclusion(a), Ok(U256::one()));
    assert_eq!(w.delete(a), Ok(()));
    assert_eq!(w.inclusion(a), Ok(U256::zero()));
}

#[test]
fn scenario_through_dispatch() {
    let t = SelectorTable::standard();
    let mut w = WaitList::new();
    let a = addr(0xAA);
    assert_eq!(w.dispatch(&t, &call_data(t.query, &a)), Ok(vec![0u8; 32]));
    assert_eq!(w.dispatch(&t, &call_data(t.set_include, &a)), Ok(vec![]));
    let mut one = vec![0u8; 32];
    one[31] = 1;
    assert_eq!(w.dispatch(&t, &call_data(t.query, &a)), Ok(one));
    assert_eq!(w.dispatch(&t, &call_data(t.delete, &a)), Ok(vec![]));
    assert_eq!(w.dispatch(&t, &call_data(t.query, &a)), Ok(vec![0u8; 32]));
}

#[test]
fn unwritten_addresses_read_zero() {
    let mut w = WaitList::new();
    for b in [0u8, 1, 0x7F, 0xFF] {
        assert_eq!(w.inclusion(addr(b)), Ok(U256::zero()));
    }
    w.set_include(addr(1)).unwrap();
    assert_eq!(w.inclusion(addr(2)), Ok(U256::zero()));
}

#[test]
fn set_include_reads_one_from_any_state() {
    let mut w = WaitList::new();
    let a = addr(3);
    w.set_include(a).unwrap();
    assert_eq!(w.inclusion(a), Ok(U256::one()));
    w.delete(a).unwrap();
    w.set_include(a).unwrap();
    assert_eq!(w.inclusion(a), Ok(U256::one()));
}

#[test]
fn delete_reads_zero_from_any_state() {
    let mut w = WaitList::new();
    let a = addr(4);
    w.delete(a).unwrap();
    assert_eq!(w.inclusion(a), Ok(U256::zero()));
    w.set_include(a).unwrap();
    w.delete(a).unwrap();
    assert_eq!(w.inclusion(a), Ok(U256::zero()));
}

#[test]
fn writes_are_idempotent() {
    let a = addr(5);
    let mut once = WaitList::new();
    let mut twice = WaitList::new();
    assert_eq!(once.set_include(a), Ok(()));
    assert_eq!(twice.set_include(a), Ok(()));
    assert_eq!(twice.set_include(a), Ok(()));
    assert_eq!(once.inclusion(a), twice.inclusion(a));
    assert_eq!(once.delete(a), Ok(()));
    assert_eq!(twice.delete(a), Ok(()));
    assert_eq!(twice.delete(a), Ok(()));
    assert_eq!(once.inclusion(a), twice.inclusion(a));
    assert_eq!(twice.inclusion(a), Ok(U256::zero()));
}

#[test]
fn writes_leave_other_addresses_alone() {
    let mut w = WaitList::new();
    let a = addr(6);
    let b = addr(7);
    w.set_include(b).unwrap();
    w.set_include(a).unwrap();
    assert_eq!(w.inclusion(b), Ok(U256::one()));
    assert_eq!(w.inclusion(addr(8)), Ok(U256::zero()));
    w.delete(a).unwrap();
    assert_eq!(w.inclusion(b), Ok(U256::one()));
    let mut near = a;
    near.bytes[19] ^= 1;
    assert_eq!(w.inclusion(near), Ok(U256::zero()));
}

#[test]
fn set_then_delete_then_read() {
    let mut w = WaitList::new();
    let a = addr(9);
    w.set_include(a).unwrap();
    w.delete(a).unwrap();
    assert_eq!(w.inclusion(a), Ok(U256::zero()));
    w.set_include(a).unwrap();
    assert_eq!(w.inclusion(a), Ok(U256::one()));
}

#[test]
fn unknown_selector_is_refused_and_changes_nothing() {
    let t = SelectorTable::standard();
    let mut w = WaitList::new();
    let a = addr(0xAA);
    w.set_include(a).unwrap();
    let data = call_data([0xde, 0xad, 0xbe, 0xef], &a);
    assert_eq!(w.dispatch(&t, &data), Err(CallError::UnknownOperation));
    assert_eq!(w.inclusion(a), Ok(U256::one()));
    assert_eq!(w.dispatch(&t, &[0xde, 0xad, 0xbe, 0xef]), Err(CallError::UnknownOperation));
}

#[test]
fn short_call_data_is_a_decoding_error() {
    let t = SelectorTable::standard();
    let mut w = WaitList::new();
    assert_eq!(w.dispatch(&t, &[]), Err(CallError::DecodingError));
    assert_eq!(w.dispatch(&t, &t.query[..3]), Err(CallError::DecodingError));
}

#[test]
fn malformed_arguments_are_decoding_errors() {
    let t = SelectorTable::standard();
    let mut w = WaitList::new();
    let a = addr(0x11);
    let good = call_data(t.set_include, &a);

    let short = &good[..good.len() - 1];
    assert_eq!(w.dispatch(&t, short), Err(CallError::DecodingError));

    let mut long = good.clone();
    long.push(0);
    assert_eq!(w.dispatch(&t, &long), Err(CallError::DecodingError));

    let mut dirty = good.clone();
    dirty[4] = 1;
    assert_eq!(w.dispatch(&t, &dirty), Err(CallError::DecodingError));

    assert_eq!(w.inclusion(a), Ok(U256::zero()));
    assert_eq!(w.dispatch(&t, &good), Ok(vec![]));
    assert_eq!(w.inclusion(a), Ok(U256::one()));
}

#[test]
fn decode_address_takes_the_low_twenty_bytes() {
    let mut args = vec![0u8; 12];
    args.extend((1u8..=20).collect::<Vec<u8>>());
    let expected: Vec<u8> = (1u8..=20).collect();
    assert_eq!(decode_address(&args).unwrap().bytes.to_vec(), expected);
    args[11] = 5;
    assert_eq!(decode_address(&args), Err(CallError::DecodingError));
    assert_eq!(decode_address(&[0u8; 20]), Err(CallError::DecodingError));
}

#[test]
fn decode_call_names_the_operation() {
    let t = SelectorTable { query: [1, 2, 3, 4], set_include: [5, 6, 7, 8], delete: [9, 10, 11, 12] };
    let a = addr(0x42);
    let c = decode_call(&t, &call_data([5, 6, 7, 8], &a)).unwrap();
    assert_eq!(c.op, Operation::SetInclude);
    assert_eq!(c.from, a);
    assert_eq!(decode_call(&t, &call_data([9, 10, 11, 12], &a)).unwrap().op, Operation::Delete);
    assert_eq!(decode_call(&t, &call_data([1, 2, 3, 4], &a)).unwrap().op, Operation::Query);
    assert_eq!(t.lookup(&[1, 2, 3, 5]), None);
}

#[test]
fn selectors_are_keccak_prefixes() {
    assert_eq!(function_selector(b"transfer(address,uint256)"), [0xa9, 0x05, 0x9c, 0xbb]);
    assert_eq!(function_selector(b"foo(address)"), [0xfd, 0xf8, 0x0b, 0xda]);
}

#[test]
fn standard_table_uses_the_interface_signatures() {
    let t = SelectorTable::standard();
    assert_eq!(t.query, function_selector(b"include(address)"));
    assert_eq!(t.set_include, function_selector(b"set_include(address)"));
    assert_eq!(t.delete, function_selector(b"delete(address)"));
    assert_ne!(t.query, t.set_include);
    assert_ne!(t.query, t.delete);
    assert_ne!(t.set_include, t.delete);
    let c = SelectorTable::from_signatures("include(address)", "setInclude(address)", "delete(address)");
    assert_eq!(c.query, t.query);
    assert_ne!(c.set_include, t.set_include);
}

#[test]
fn mapping_slot_matches_solidity_layout() {
    for b in [0u8, 0x01, 0xAA] {
        let a = addr(b);
        let root = word_of(0);
        let expected = AlloyAddress::from([b; 20]).to_slot(B256::ZERO).to_be_bytes::<32>();
        assert_eq!(mapping_slot(&a, &root).bytes, expected);
        let other_root = word_of(3);
        let mut root_bytes = [0u8; 32];
        root_bytes[31] = 3;
        let expected = AlloyAddress::from([b; 20]).to_slot(B256::from(root_bytes)).to_be_bytes::<32>();
        assert_eq!(mapping_slot(&a, &other_root).bytes, expected);
    }
    assert_ne!(mapping_slot(&addr(1), &word_of(0)), mapping_slot(&addr(2), &word_of(0)));
    assert_ne!(mapping_slot(&addr(1), &word_of(0)).bytes, [0u8; 32]);
}

#[test]
fn storage_slot_is_rooted_at_zero() {
    let a = addr(0x33);
    assert_eq!(WaitList::storage_slot(&a), mapping_slot(&a, &U256::zero()));
}

#[test]
fn encode_word_is_big_endian_bytes() {
    let w = word_of(7);
    let out = encode_word(&w);
    assert_eq!(out.len(), 32);
    assert_eq!(out[31], 7);
    assert!(out[..31].iter().all(|b| *b == 0));
}

#[test]
fn address_map_overwrites_without_removing() {
    let mut m = AddressMap::new();
    let a = addr(0x50);
    assert_eq!(m.get(&a), U256::zero());
    m.set(&a, word_of(42));
    assert_eq!(m.get(&a), word_of(42));
    m.set(&a, word_of(0));
    assert_eq!(m.get(&a), U256::zero());
    m.set(&addr(0x51), word_of(9));
    assert_eq!(m.get(&a), U256::zero());
    assert_eq!(m.get(&addr(0x51)), word_of(9));
}

#[test]
fn same_as_compares_every_byte() {
    let a = addr(1);
    let mut b = a;
    assert!(a.same_as(&b));
    b.bytes[0] = 2;
    assert!(!a.same_as(&b));
}
