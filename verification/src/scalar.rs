//! The scalar values a store node can hold under a name.

use vstd::prelude::*;

verus! {

/// The mathematical model of a scalar: views of the heap-backed variants,
/// plain values for the rest.
pub enum ScalarV {
    Bool(bool),
    U32(u32),
    U64(u64),
    I32(i32),
    I64(i64),
    Sz(Seq<char>),
    Bytes(Seq<u8>),
}

/// A primitive (non-container) datum written under a name inside a node:
/// the closed union of value shapes the store natively supports.
#[derive(Debug, PartialEq, Eq)]
pub enum ScalarValue {
    Bool(bool),
    U32(u32),
    U64(u64),
    I32(i32),
    I64(i64),
    Sz(String),
    Bytes(Vec<u8>),
}

impl View for ScalarValue {
    type V = ScalarV;

    open spec fn view(&self) -> ScalarV {
        match self {
            ScalarValue::Bool(b) => ScalarV::Bool(*b),
            ScalarValue::U32(n) => ScalarV::U32(*n),
            ScalarValue::U64(n) => ScalarV::U64(*n),
            ScalarValue::I32(n) => ScalarV::I32(*n),
            ScalarValue::I64(n) => ScalarV::I64(*n),
            ScalarValue::Sz(s) => ScalarV::Sz(s@),
            ScalarValue::Bytes(b) => ScalarV::Bytes(b@),
        }
    }
}

impl ScalarValue {
    /// Whether this scalar is string-typed; only such a scalar can serve as
    /// a field or map-key name.
    pub open spec fn is_string(&self) -> bool {
        self@ is Sz
    }
}

fn clone_bytes(v: &Vec<u8>) -> (r: Vec<u8>)
    ensures
        r@ == v@,
{
    let mut r: Vec<u8> = Vec::new();
    let mut i: usize = 0;
    while i < v.len()
        invariant
            i <= v.len(),
            r@ == v@.subrange(0, i as int),
        decreases v.len() - i,
    {
        r.push(v[i]);
        i = i + 1;
        proof {
            assert(v@.subrange(0, i as int) =~= v@.subrange(0, i - 1).push(v@[i - 1]));
        }
    }
    proof {
        assert(v@.subrange(0, v@.len() as int) =~= v@);
    }
    r
}

impl Clone for ScalarValue {
    fn clone(&self) -> (res: Self)
        ensures
            res@ == self@,
    {
        match self {
            ScalarValue::Bool(b) => ScalarValue::Bool(*b),
            ScalarValue::U32(n) => ScalarValue::U32(*n),
            ScalarValue::U64(n) => ScalarValue::U64(*n),
            ScalarValue::I32(n) => ScalarValue::I32(*n),
            ScalarValue::I64(n) => ScalarValue::I64(*n),
            ScalarValue::Sz(s) => ScalarValue::Sz(s.clone()),
            ScalarValue::Bytes(b) => ScalarValue::Bytes(clone_bytes(b)),
        }
    }
}

} // verus!
