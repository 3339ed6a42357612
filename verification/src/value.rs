//! The dynamic wire value: the untyped, self-describing representation that
//! the RPC transport exchanges, before and after typed conversion.

use vstd::prelude::*;

verus! {

broadcast use vstd::std_specs::vec::group_vec_axioms;

/// A wire integer. The wire format stores integers either as signed or as
/// unsigned 64-bit values, so a value above `i64::MAX` is representable but
/// does not fit a signed 64-bit integer.
#[derive(Clone, Copy, Debug, PartialEq, Eq, Structural)]
pub enum WireInt {
    Signed(i64),
    Unsigned(u64),
}

impl WireInt {
    /// The signed 64-bit value of this wire integer, if it fits.
    pub open spec fn spec_as_i64(self) -> Option<i64> {
        match self {
            WireInt::Signed(i) => Some(i),
            WireInt::Unsigned(u) => if u <= i64::MAX as u64 {
                Some(u as i64)
            } else {
                None
            },
        }
    }

    /// Returns the signed 64-bit value of this wire integer, or `None` when
    /// it does not fit.
    pub fn as_i64(self) -> (r: Option<i64>)
        ensures
            r == self.spec_as_i64(),
    {
        match self {
            WireInt::Signed(i) => Some(i),
            WireInt::Unsigned(u) => if u <= i64::MAX as u64 {
                Some(u as i64)
            } else {
                None
            },
        }
    }
}

/// The dynamic wire value: a tagged union over the primitive container
/// shapes of the wire format. Floating-point payloads are carried as their
/// 64-bit bit pattern; the bits pass through this layer untouched.
#[derive(Debug, Eq, PartialEq)]
pub enum Value {
    Nil,
    Boolean(bool),
    Integer(WireInt),
    Float(u64),
    Text(String),
    Array(Vec<Value>),
    Dict(Vec<(Value, Value)>),
    Binary(Vec<u8>),
}

/// The mathematical model of a wire value: the same tree with sequences in
/// place of vectors and character sequences in place of strings.
pub enum ValModel {
    Nil,
    Boolean(bool),
    Integer(WireInt),
    Float(u64),
    Text(Seq<char>),
    Array(Seq<ValModel>),
    Dict(Seq<(ValModel, ValModel)>),
    Binary(Seq<u8>),
}

impl Value {
    /// The model of this wire value.
    pub open spec fn model(self) -> ValModel
        decreases self,
    {
        match self {
            Value::Nil => ValModel::Nil,
            Value::Boolean(b) => ValModel::Boolean(b),
            Value::Integer(w) => ValModel::Integer(w),
            Value::Float(bits) => ValModel::Float(bits),
            Value::Text(s) => ValModel::Text(s@),
            Value::Array(vs) => ValModel::Array(vals_model(vs@)),
            Value::Dict(ps) => ValModel::Dict(pairs_model(ps@)),
            Value::Binary(bs) => ValModel::Binary(bs@),
        }
    }
}

/// The models of a sequence of wire values, in order.
pub open spec fn vals_model(vs: Seq<Value>) -> Seq<ValModel>
    decreases vs,
{
    Seq::new(
        vs.len(),
        |i: int|
            if 0 <= i < vs.len() {
                vs[i].model()
            } else {
                ValModel::Nil
            },
    )
}

/// The models of a sequence of wire value pairs, in order.
pub open spec fn pairs_model(ps: Seq<(Value, Value)>) -> Seq<(ValModel, ValModel)>
    decreases ps,
{
    Seq::new(
        ps.len(),
        |i: int|
            if 0 <= i < ps.len() {
                (ps[i].0.model(), ps[i].1.model())
            } else {
                (ValModel::Nil, ValModel::Nil)
            },
    )
}

} // verus!
