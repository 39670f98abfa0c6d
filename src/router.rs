use vstd::prelude::*;

use vstd::string::StringSliceAdditionalSpecFns;

use crate::hash::{function_selector, selector_of};
use crate::store::value_at;
use crate::wait_list::{after_delete, after_set_include, WaitList};
use crate::word::{Address, U256};

verus! {

/// The three operations of the list.
#[derive(Clone, Copy, Debug, PartialEq, Eq)]
pub enum Operation {
    /// Read the flag of an address.
    Query,
    /// Write 1 for an address.
    SetInclude,
    /// Write 0 for an address.
    Delete,
}

/// A decoded call: an operation and its one address argument.
#[derive(Clone, Copy, Debug, PartialEq, Eq)]
pub struct Call {
    pub op: Operation,
    pub from: Address,
}

/// Why a call failed.
#[derive(Debug, PartialEq, Eq)]
pub enum CallError {
    /// The call data is too short for a selector, or its arguments are not
    /// exactly one ABI-encoded address.
    DecodingError,
    /// No operation has the call's selector.
    UnknownOperation,
    /// The storage layer failed; its payload is passed on unchanged.
    StorageFailure(Vec<u8>),
}

/// The selector of each operation.
#[derive(Clone, Copy, Debug, PartialEq, Eq)]
pub struct SelectorTable {
    pub query: [u8; 4],
    pub set_include: [u8; 4],
    pub delete: [u8; 4],
}

impl SelectorTable {
    /// The operation that `selector` names; the first match wins.
    pub open spec fn lookup_spec(&self, selector: Seq<u8>) -> Option<Operation> {
        if selector == self.query@ {
            Some(Operation::Query)
        } else if selector == self.set_include@ {
            Some(Operation::SetInclude)
        } else if selector == self.delete@ {
            Some(Operation::Delete)
        } else {
            None
        }
    }

    /// Selectors derived from the signatures of the three operations, one argument
    /// of type `address` each.
    pub fn from_signatures(query: &str, set_include: &str, delete: &str) -> (r: SelectorTable)
        ensures
            r.query@ == selector_of(query.spec_bytes()),
            r.set_include@ == selector_of(set_include.spec_bytes()),
            r.delete@ == selector_of(delete.spec_bytes()),
    {
        SelectorTable {
            query: function_selector(query.as_bytes()),
            set_include: function_selector(set_include.as_bytes()),
            delete: function_selector(delete.as_bytes()),
        }
    }

    /// The selectors of `include(address)`, `set_include(address)` and
    /// `delete(address)`.
    pub fn standard() -> (r: SelectorTable)
        ensures
            r.query@ == selector_of("include(address)".spec_bytes()),
            r.set_include@ == selector_of("set_include(address)".spec_bytes()),
            r.delete@ == selector_of("delete(address)".spec_bytes()),
    {
        Self::from_signatures("include(address)", "set_include(address)", "delete(address)")
    }

    /// The operation whose selector opens `data`, which holds at least four bytes.
    pub fn lookup(&self, data: &[u8]) -> (r: Option<Operation>)
        requires
            data@.len() >= 4,
        ensures
            r == self.lookup_spec(data@.subrange(0, 4)),
    {
        if opens_with(data, &self.query) {
            Some(Operation::Query)
        } else if opens_with(data, &self.set_include) {
            Some(Operation::SetInclude)
        } else if opens_with(data, &self.delete) {
            Some(Operation::Delete)
        } else {
            None
        }
    }
}

/// Whether the first four bytes of `data` are `selector`.
fn opens_with(data: &[u8], selector: &[u8; 4]) -> (r: bool)
    requires
        data@.len() >= 4,
    ensures
        r == (data@.subrange(0, 4) == selector@),
{
    let mut i: usize = 0;
    while i < 4
        invariant
            0 <= i <= 4,
            data@.len() >= 4,
            selector@.len() == 4,
            forall|j: int| 0 <= j < i ==> data@[j] == selector@[j],
        decreases 4 - i,
    {
        if data[i] != selector[i] {
            assert(data@.subrange(0, 4)[i as int] != selector@[i as int]);
            return false;
        }
        i = i + 1;
    }
    assert(data@.subrange(0, 4) =~= selector@);
    true
}

/// Whether `args` is exactly one ABI-encoded address: a 32-byte word whose
/// first twelve bytes are zero.
pub open spec fn is_address_word(args: Seq<u8>) -> bool {
    &&& args.len() == 32
    &&& forall|i: int| 0 <= i < 12 ==> args[i] == 0
}

/// What call data decodes to: the operation and the address bytes, or the error.
pub open spec fn decoded(table: SelectorTable, data: Seq<u8>) -> Result<
    (Operation, Seq<u8>),
    CallError,
> {
    if data.len() < 4 {
        Err(CallError::DecodingError)
    } else {
        match table.lookup_spec(data.subrange(0, 4)) {
            None => Err(CallError::UnknownOperation),
            Some(op) => {
                let args = data.subrange(4, data.len() as int);
                if is_address_word(args) {
                    Ok((op, args.subrange(12, 32)))
                } else {
                    Err(CallError::DecodingError)
                }
            },
        }
    }
}

/// Decodes the address argument of a call, given the bytes after the selector.
pub fn decode_address(args: &[u8]) -> (r: Result<Address, CallError>)
    ensures
        is_address_word(args@) ==> (r matches Ok(a) && a@ == args@.subrange(12, 32)),
        !is_address_word(args@) ==> r == Err::<Address, CallError>(CallError::DecodingError),
{
    if args.len() != 32 {
        return Err(CallError::DecodingError);
    }
    let mut i: usize = 0;
    while i < 12
        invariant
            0 <= i <= 12,
            args@.len() == 32,
            forall|j: int| 0 <= j < i ==> args@[j] == 0,
        decreases 12 - i,
    {
        if args[i] != 0 {
            return Err(CallError::DecodingError);
        }
        i = i + 1;
    }
    let mut bytes = [0u8; 20];
    let mut i: usize = 0;
    while i < 20
        invariant
            0 <= i <= 20,
            args@.len() == 32,
            bytes@.len() == 20,
            forall|j: int| 0 <= j < i ==> bytes@[j] == args@[12 + j],
        decreases 20 - i,
    {
        bytes[i] = args[12 + i];
        i = i + 1;
    }
    let a = Address { bytes };
    assert(a@ =~= args@.subrange(12, 32));
    Ok(a)
}

/// Decodes call data: a four-byte selector, then one ABI-encoded address.
pub fn decode_call(table: &SelectorTable, data: &[u8]) -> (r: Result<Call, CallError>)
    ensures
        match decoded(*table, data@) {
            Ok((op, a)) => r matches Ok(c) && c.op == op && c.from@ == a,
            Err(e) => r == Err::<Call, CallError>(e),
        },
{
    if data.len() < 4 {
        return Err(CallError::DecodingError);
    }
    match table.lookup(data) {
        None => Err(CallError::UnknownOperation),
        Some(op) => {
            let args = slice_from(data, 4);
            match decode_address(args) {
                Ok(from) => Ok(Call { op, from }),
                Err(e) => Err(e),
            }
        },
    }
}

/// The bytes of `data` from `start` on.
fn slice_from(data: &[u8], start: usize) -> (r: &[u8])
    requires
        start <= data@.len(),
    ensures
        r@ == data@.subrange(start as int, data@.len() as int),
{
    vstd::slice::slice_subrange(data, start, data.len())
}

/// The ABI encoding of a `uint256` result: its 32 big-endian bytes.
pub fn encode_word(v: &U256) -> (r: Vec<u8>)
    ensures
        r@ == v@,
{
    let mut out: Vec<u8> = Vec::new();
    let mut i: usize = 0;
    while i < 32
        invariant
            0 <= i <= 32,
            v@.len() == 32,
            out@ == v@.subrange(0, i as int),
        decreases 32 - i,
    {
        out.push(v.bytes[i]);
        i = i + 1;
        assert(out@ =~= v@.subrange(0, i as int));
    }
    assert(v@.subrange(0, 32) =~= v@);
    out
}

impl WaitList {
    /// Runs one call: decodes it, applies its operation, and encodes the result.
    /// A call that fails changes nothing.
    pub fn dispatch(&mut self, table: &SelectorTable, data: &[u8]) -> (r: Result<Vec<u8>, CallError>)
        requires
            old(self).wf(),
        ensures
            final(self).wf(),
            match decoded(*table, data@) {
                Err(e) => r == Err::<Vec<u8>, CallError>(e) && final(self)@ == old(self)@,
                Ok((Operation::Query, a)) => r matches Ok(out) && out@ == value_at(old(self)@, a)
                    && final(self)@ == old(self)@,
                Ok((Operation::SetInclude, a)) => r matches Ok(out) && out@ == Seq::<u8>::empty()
                    && final(self)@ == after_set_include(old(self)@, a),
                Ok((Operation::Delete, a)) => r matches Ok(out) && out@ == Seq::<u8>::empty()
                    && final(self)@ == after_delete(old(self)@, a),
            },
    {
        let call = match decode_call(table, data) {
            Ok(c) => c,
            Err(e) => return Err(e),
        };
        match call.op {
            Operation::Query => match self.inclusion(call.from) {
                Ok(v) => Ok(encode_word(&v)),
                Err(payload) => Err(CallError::StorageFailure(payload)),
            },
            Operation::SetInclude => match self.set_include(call.from) {
                Ok(()) => Ok(Vec::new()),
                Err(payload) => Err(CallError::StorageFailure(payload)),
            },
            Operation::Delete => match self.delete(call.from) {
                Ok(()) => Ok(Vec::new()),
                Err(payload) => Err(CallError::StorageFailure(payload)),
            },
        }
    }
}

/// A selector that names no operation is refused as unknown, never run and
/// never taken for a decoding error, when an address follows it.
pub proof fn lemma_unknown_selector_refused(table: SelectorTable, data: Seq<u8>)
    requires
        data.len() >= 4,
        table.lookup_spec(data.subrange(0, 4)) is None,
        is_address_word(data.subrange(4, data.len() as int)),
    ensures
        decoded(table, data) == Err::<(Operation, Seq<u8>), CallError>(CallError::UnknownOperation),
{
}

} // verus!
