//! The value marshaller: bidirectional conversion between the dynamic wire
//! value and native typed values, recursive over containers. Decoding
//! checks the wire tag against the target type and fails fast with the
//! offending value; encoding is total.

use crate::types::ApiType;
use crate::value::{pairs_model, vals_model, ValModel, Value, WireInt};
use vstd::prelude::*;

verus! {

broadcast use vstd::std_specs::vec::group_vec_axioms;

/// An ordered association list of wire value pairs: the native
/// representation of the wire format's map shape. Pairs stay dynamic; no
/// per-pair type checking is applied.
#[derive(Debug, PartialEq)]
pub struct Dict {
    vec: Vec<(Value, Value)>,
}

impl Dict {
    /// The model of this association list.
    pub closed spec fn model(self) -> Seq<(ValModel, ValModel)> {
        pairs_model(self.vec@)
    }

    /// Wraps a list of wire value pairs, kept in order.
    pub fn new(vec: Vec<(Value, Value)>) -> (r: Dict)
        ensures
            r.model() == pairs_model(vec@),
    {
        Dict { vec }
    }

    /// The pairs, in order.
    pub fn as_slice(&self) -> (r: &[(Value, Value)])
        ensures
            pairs_model(r@) == self.model(),
    {
        self.vec.as_slice()
    }

    /// The wire value holding these pairs.
    pub fn into_value(self) -> (r: Value)
        ensures
            r.model() == ValModel::Dict(self.model()),
    {
        Value::Dict(self.vec)
    }
}

/// Which handle type an opaque remote object reference belongs to.
#[derive(Clone, Copy, Debug, Eq, PartialEq, Structural)]
pub enum HandleKind {
    Buffer,
    Window,
    Tabpage,
}

/// A native typed value: what a wire value decodes to against an API type,
/// and what encoding starts from. Handles carry the opaque wire value that
/// identifies the remote object.
#[derive(Debug, PartialEq)]
pub enum TypedValue {
    Unit,
    Bool(bool),
    Int(i64),
    FloatBits(u64),
    Text(String),
    List(Vec<TypedValue>),
    Pairs(Dict),
    Dyn(Value),
    Handle(HandleKind, Value),
}

/// The mathematical model of a typed value.
pub enum TypedModel {
    Unit,
    Bool(bool),
    Int(i64),
    FloatBits(u64),
    Text(Seq<char>),
    List(Seq<TypedModel>),
    Pairs(Seq<(ValModel, ValModel)>),
    Dyn(ValModel),
    Handle(HandleKind, ValModel),
}

impl TypedValue {
    /// The model of this typed value.
    pub open spec fn model(self) -> TypedModel
        decreases self,
    {
        match self {
            TypedValue::Unit => TypedModel::Unit,
            TypedValue::Bool(b) => TypedModel::Bool(b),
            TypedValue::Int(i) => TypedModel::Int(i),
            TypedValue::FloatBits(bits) => TypedModel::FloatBits(bits),
            TypedValue::Text(s) => TypedModel::Text(s@),
            TypedValue::List(ts) => TypedModel::List(typed_models(ts@)),
            TypedValue::Pairs(d) => TypedModel::Pairs(d.model()),
            TypedValue::Dyn(v) => TypedModel::Dyn(v.model()),
            TypedValue::Handle(k, v) => TypedModel::Handle(k, v.model()),
        }
    }
}

/// The models of a sequence of typed values, in order.
pub open spec fn typed_models(ts: Seq<TypedValue>) -> Seq<TypedModel>
    decreases ts,
{
    Seq::new(
        ts.len(),
        |i: int|
            if 0 <= i < ts.len() {
                ts[i].model()
            } else {
                TypedModel::Unit
            },
    )
}

/// A decode failure: the wire value's tag did not match the target type.
/// It carries the offending wire value — for a container, the first
/// element that failed.
#[derive(Debug, PartialEq)]
pub enum DecodeError {
    TypeMismatch(Value),
}

impl DecodeError {
    /// The model of the offending wire value.
    pub open spec fn offending(self) -> ValModel {
        match self {
            DecodeError::TypeMismatch(v) => v.model(),
        }
    }
}

/// What decoding `v` against target type `ty` yields: the typed value, or
/// the model of the offending wire value.
pub open spec fn spec_decode(v: ValModel, ty: ApiType) -> Result<TypedModel, ValModel>
    decreases v,
{
    match ty {
        ApiType::Nil => match v {
            ValModel::Nil => Ok(TypedModel::Unit),
            _ => Err(v),
        },
        ApiType::Boolean => match v {
            ValModel::Boolean(b) => Ok(TypedModel::Bool(b)),
            _ => Err(v),
        },
        ApiType::Integer => match v {
            ValModel::Integer(w) => match w.spec_as_i64() {
                Some(i) => Ok(TypedModel::Int(i)),
                None => Err(v),
            },
            _ => Err(v),
        },
        ApiType::Float => match v {
            ValModel::Float(bits) => Ok(TypedModel::FloatBits(bits)),
            _ => Err(v),
        },
        ApiType::String => match v {
            ValModel::Text(s) => Ok(TypedModel::Text(s)),
            _ => Err(v),
        },
        ApiType::Array => match v {
            ValModel::Array(s) => Ok(
                TypedModel::List(
                    Seq::new(
                        s.len(),
                        |i: int|
                            TypedModel::Dyn(
                                if 0 <= i < s.len() {
                                    s[i]
                                } else {
                                    ValModel::Nil
                                },
                            ),
                    ),
                ),
            ),
            _ => Err(v),
        },
        ApiType::ArrayOf(t) => match v {
            ValModel::Array(s) => match spec_decode_seq(s, *t) {
                Ok(ts) => Ok(TypedModel::List(ts)),
                Err(e) => Err(e),
            },
            _ => Err(v),
        },
        ApiType::ArrayOfLength(t, n) => match v {
            ValModel::Array(s) => if s.len() == n as nat {
                match spec_decode_seq(s, *t) {
                    Ok(ts) => Ok(TypedModel::List(ts)),
                    Err(e) => Err(e),
                }
            } else {
                Err(v)
            },
            _ => Err(v),
        },
        ApiType::Dictionary => match v {
            ValModel::Dict(ps) => Ok(TypedModel::Pairs(ps)),
            _ => Err(v),
        },
        ApiType::Object => Ok(TypedModel::Dyn(v)),
        ApiType::Buffer => Ok(TypedModel::Handle(HandleKind::Buffer, v)),
        ApiType::Window => Ok(TypedModel::Handle(HandleKind::Window, v)),
        ApiType::Tabpage => Ok(TypedModel::Handle(HandleKind::Tabpage, v)),
    }
}

/// What decoding each element of `s` against `ty` yields: all typed
/// elements in order, or the first failure from the front.
pub open spec fn spec_decode_seq(s: Seq<ValModel>, ty: ApiType) -> Result<Seq<TypedModel>, ValModel>
    decreases s,
{
    if s.len() == 0 {
        Ok(Seq::empty())
    } else {
        match spec_decode(s[0], ty) {
            Err(e) => Err(e),
            Ok(t) => match spec_decode_seq(s.drop_first(), ty) {
                Err(e) => Err(e),
                Ok(ts) => Ok(seq![t] + ts),
            },
        }
    }
}

/// What encoding a typed value yields. Encoding is total: every typed
/// value has a wire value.
pub open spec fn spec_encode(t: TypedModel) -> ValModel
    decreases t,
{
    match t {
        TypedModel::Unit => ValModel::Nil,
        TypedModel::Bool(b) => ValModel::Boolean(b),
        TypedModel::Int(i) => ValModel::Integer(WireInt::Signed(i)),
        TypedModel::FloatBits(bits) => ValModel::Float(bits),
        TypedModel::Text(s) => ValModel::Text(s),
        TypedModel::List(ts) => ValModel::Array(encode_each(ts)),
        TypedModel::Pairs(ps) => ValModel::Dict(ps),
        TypedModel::Dyn(v) => v,
        TypedModel::Handle(_, v) => v,
    }
}

/// The encodings of a sequence of typed values, in order.
pub open spec fn encode_each(ts: Seq<TypedModel>) -> Seq<ValModel>
    decreases ts,
{
    Seq::new(
        ts.len(),
        |i: int|
            if 0 <= i < ts.len() {
                spec_encode(ts[i])
            } else {
                ValModel::Nil
            },
    )
}

impl TypedValue {
    /// Decodes a wire value against a target type: an exact tag match for
    /// scalars, passthrough for the dynamic-value target and for handles,
    /// per-element decoding for sequences (failing fast on the first
    /// element failure), an exact arity check for fixed-length sequences,
    /// and an unchecked pair copy for the association-list target.
    #[verifier::loop_isolation(false)]
    pub fn from_value(v: Value, ty: &ApiType) -> (r: Result<TypedValue, DecodeError>)
        ensures
            match r {
                Ok(t) => spec_decode(v.model(), *ty) == Ok::<TypedModel, ValModel>(t.model()),
                Err(e) => spec_decode(v.model(), *ty) == Err::<TypedModel, ValModel>(e.offending()),
            },
        decreases v,
    {
        match ty {
            ApiType::Nil => match v {
                Value::Nil => Ok(TypedValue::Unit),
                _ => Err(DecodeError::TypeMismatch(v)),
            },
            ApiType::Boolean => match v {
                Value::Boolean(b) => Ok(TypedValue::Bool(b)),
                _ => Err(DecodeError::TypeMismatch(v)),
            },
            ApiType::Integer => match v {
                Value::Integer(w) => match w.as_i64() {
                    Some(i) => Ok(TypedValue::Int(i)),
                    None => Err(DecodeError::TypeMismatch(Value::Integer(w))),
                },
                _ => Err(DecodeError::TypeMismatch(v)),
            },
            ApiType::Float => match v {
                Value::Float(bits) => Ok(TypedValue::FloatBits(bits)),
                _ => Err(DecodeError::TypeMismatch(v)),
            },
            ApiType::String => match v {
                Value::Text(s) => Ok(TypedValue::Text(s)),
                _ => Err(DecodeError::TypeMismatch(v)),
            },
            ApiType::Array => match v {
                Value::Array(a) => {
                    let ghost gv = v;
                    let ghost orig = a@;
                    let mut rest = a;
                    let mut out: Vec<TypedValue> = Vec::new();
                    while rest.len() > 0
                        invariant
                            out@.len() + rest@.len() == orig.len(),
                            rest@ == orig.skip(out@.len() as int),
                            forall|k: int|
                                0 <= k < out@.len() ==> out@[k] == TypedValue::Dyn(orig[k]),
                        decreases rest@.len(),
                    {
                        let x = rest.remove(0);
                        proof {
                            assert(orig.skip(out@.len() as int).drop_first() =~= orig.skip(
                                out@.len() as int + 1,
                            ));
                        }
                        out.push(TypedValue::Dyn(x));
                    }
                    proof {
                        let s = vals_model(orig);
                        assert(typed_models(out@) =~= Seq::new(
                            s.len(),
                            |i: int|
                                TypedModel::Dyn(
                                    if 0 <= i < s.len() {
                                        s[i]
                                    } else {
                                        ValModel::Nil
                                    },
                                ),
                        ));
                    }
                    Ok(TypedValue::List(out))
                },
                _ => Err(DecodeError::TypeMismatch(v)),
            },
            ApiType::ArrayOf(t) => match v {
                Value::Array(a) => match Self::decode_elems(a, t) {
                    Ok(ts) => Ok(TypedValue::List(ts)),
                    Err(e) => Err(e),
                },
                _ => Err(DecodeError::TypeMismatch(v)),
            },
            ApiType::ArrayOfLength(t, n) => match v {
                Value::Array(a) => {
                    if a.len() as u64 != *n {
                        return Err(DecodeError::TypeMismatch(Value::Array(a)));
                    }
                    match Self::decode_elems(a, t) {
                        Ok(ts) => Ok(TypedValue::List(ts)),
                        Err(e) => Err(e),
                    }
                },
                _ => Err(DecodeError::TypeMismatch(v)),
            },
            ApiType::Dictionary => match v {
                Value::Dict(ps) => Ok(TypedValue::Pairs(Dict::new(ps))),
                _ => Err(DecodeError::TypeMismatch(v)),
            },
            ApiType::Object => Ok(TypedValue::Dyn(v)),
            ApiType::Buffer => Ok(TypedValue::Handle(HandleKind::Buffer, v)),
            ApiType::Window => Ok(TypedValue::Handle(HandleKind::Window, v)),
            ApiType::Tabpage => Ok(TypedValue::Handle(HandleKind::Tabpage, v)),
        }
    }

    /// Decodes each element of `a` against `ty` in order, failing fast on
    /// the first element failure and propagating that element's error.
    #[verifier::loop_isolation(false)]
    fn decode_elems(a: Vec<Value>, ty: &ApiType) -> (r: Result<Vec<TypedValue>, DecodeError>)
        ensures
            match r {
                Ok(ts) => spec_decode_seq(vals_model(a@), *ty) == Ok::<Seq<TypedModel>, ValModel>(
                    typed_models(ts@),
                ),
                Err(e) => spec_decode_seq(vals_model(a@), *ty) == Err::<Seq<TypedModel>, ValModel>(
                    e.offending(),
                ),
            },
        decreases a,
    {
        let ghost a0 = a;
        let ghost orig = a@;
        let mut rest = a;
        let mut out: Vec<TypedValue> = Vec::new();
        while rest.len() > 0
            invariant
                a0@ == orig,
                out@.len() + rest@.len() == orig.len(),
                rest@ == orig.skip(out@.len() as int),
                spec_decode_seq(vals_model(orig), *ty) == match spec_decode_seq(
                    vals_model(rest@),
                    *ty,
                ) {
                    Ok(ts) => Ok::<Seq<TypedModel>, ValModel>(typed_models(out@) + ts),
                    Err(e) => Err::<Seq<TypedModel>, ValModel>(e),
                },
            decreases rest@.len(),
        {
            let ghost pre = rest@;
            let ghost i = out@.len() as int;
            let x = rest.remove(0);
            proof {
                assert(decreases_to!(a0 => a0@));
                assert(decreases_to!(a0@ => a0@[i]));
                assert(a0@[i] == x);
                assert(decreases_to!(a0 => x));
                assert(pre.drop_first() =~= orig.skip(out@.len() as int + 1));
                assert(vals_model(pre).drop_first() =~= vals_model(pre.drop_first()));
                assert(vals_model(pre)[0] == x.model());
            }
            match Self::from_value(x, ty) {
                Ok(t) => {
                    proof {
                        let old_out = out@;
                        assert(typed_models(old_out.push(t)) =~= typed_models(old_out) + seq![
                            t.model(),
                        ]);
                        match spec_decode_seq(vals_model(pre.drop_first()), *ty) {
                            Ok(ts3) => {
                                assert((typed_models(old_out) + seq![t.model()]) + ts3
                                    =~= typed_models(old_out) + (seq![t.model()] + ts3));
                            },
                            Err(_) => {},
                        }
                    }
                    out.push(t);
                },
                Err(e) => {
                    return Err(e);
                },
            }
        }
        proof {
            assert(vals_model(rest@) =~= Seq::<ValModel>::empty());
        }
        Ok(out)
    }

    /// Encodes a typed value into its wire value: the structural inverse
    /// of decoding, recursing per element in order.
    #[verifier::loop_isolation(false)]
    pub fn into_value(self) -> (r: Value)
        ensures
            r.model() == spec_encode(self.model()),
        decreases self,
    {
        match self {
            TypedValue::Unit => Value::Nil,
            TypedValue::Bool(b) => Value::Boolean(b),
            TypedValue::Int(i) => Value::Integer(WireInt::Signed(i)),
            TypedValue::FloatBits(bits) => Value::Float(bits),
            TypedValue::Text(s) => Value::Text(s),
            TypedValue::List(ts) => {
                let ghost gts = ts;
                let ghost orig = ts@;
                let mut rest = ts;
                let mut out: Vec<Value> = Vec::new();
                while rest.len() > 0
                    invariant
                        gts@ == orig,
                        out@.len() + rest@.len() == orig.len(),
                        rest@ == orig.skip(out@.len() as int),
                        forall|k: int|
                            0 <= k < out@.len() ==> (#[trigger] out@[k]).model() == spec_encode(
                                orig[k].model(),
                            ),
                    decreases rest@.len(),
                {
                    let ghost i = out@.len() as int;
                    let x = rest.remove(0);
                    proof {
                        assert(decreases_to!(self => gts));
                        assert(decreases_to!(gts => gts@));
                        assert(decreases_to!(gts@ => gts@[i]));
                        assert(gts@[i] == x);
                        assert(decreases_to!(self => x));
                        assert(orig.skip(out@.len() as int).drop_first() =~= orig.skip(
                            out@.len() as int + 1,
                        ));
                    }
                    let encoded = x.into_value();
                    out.push(encoded);
                }
                proof {
                    assert(vals_model(out@) =~= encode_each(typed_models(orig)));
                }
                Value::Array(out)
            },
            TypedValue::Pairs(d) => d.into_value(),
            TypedValue::Dyn(v) => v,
            TypedValue::Handle(_, v) => v,
        }
    }
}

/// A typed value conforms to an API type when it has the shape that
/// decoding against that type produces: the matching scalar for scalar
/// types, a list of dynamic values for the plain sequence type, a list of
/// conforming elements for element-typed sequences (with the exact arity
/// for fixed-length ones), pairs for the association-list type, a dynamic
/// value for the passthrough type, and the matching handle for handle
/// types.
pub open spec fn conforms(t: TypedModel, ty: ApiType) -> bool
    decreases t,
{
    match ty {
        ApiType::Nil => t is Unit,
        ApiType::Boolean => t is Bool,
        ApiType::Integer => t is Int,
        ApiType::Float => t is FloatBits,
        ApiType::String => t is Text,
        ApiType::Array => match t {
            TypedModel::List(ts) => forall|i: int| 0 <= i < ts.len() ==> ts[i] is Dyn,
            _ => false,
        },
        ApiType::ArrayOf(et) => match t {
            TypedModel::List(ts) => conforms_seq(ts, *et),
            _ => false,
        },
        ApiType::ArrayOfLength(et, n) => match t {
            TypedModel::List(ts) => ts.len() == n as nat && conforms_seq(ts, *et),
            _ => false,
        },
        ApiType::Dictionary => t is Pairs,
        ApiType::Object => t is Dyn,
        ApiType::Buffer => t matches TypedModel::Handle(HandleKind::Buffer, _),
        ApiType::Window => t matches TypedModel::Handle(HandleKind::Window, _),
        ApiType::Tabpage => t matches TypedModel::Handle(HandleKind::Tabpage, _),
    }
}

/// Every element of `ts` conforms to `ty`.
pub open spec fn conforms_seq(ts: Seq<TypedModel>, ty: ApiType) -> bool
    decreases ts,
{
    if ts.len() == 0 {
        true
    } else {
        conforms(ts[0], ty) && conforms_seq(ts.drop_first(), ty)
    }
}

/// Round-trip law: decoding the encoding of any typed value, against any
/// type the value conforms to, succeeds and returns the value unchanged.
pub proof fn lemma_round_trip(t: TypedModel, ty: ApiType)
    requires
        conforms(t, ty),
    ensures
        spec_decode(spec_encode(t), ty) == Ok::<TypedModel, ValModel>(t),
    decreases t,
{
    match ty {
        ApiType::Array => match t {
            TypedModel::List(ts) => {
                let encs = encode_each(ts);
                assert forall|i: int| 0 <= i < encs.len() implies TypedModel::Dyn(encs[i])
                    == ts[i] by {
                    assert(ts[i] is Dyn);
                }
                assert(Seq::new(
                    encs.len(),
                    |i: int|
                        TypedModel::Dyn(
                            if 0 <= i < encs.len() {
                                encs[i]
                            } else {
                                ValModel::Nil
                            },
                        ),
                ) =~= ts);
            },
            _ => {},
        },
        ApiType::ArrayOf(et) => match t {
            TypedModel::List(ts) => {
                lemma_round_trip_seq(ts, *et);
            },
            _ => {},
        },
        ApiType::ArrayOfLength(et, n) => match t {
            TypedModel::List(ts) => {
                lemma_round_trip_seq(ts, *et);
            },
            _ => {},
        },
        _ => {},
    }
}

/// Round-trip law for element sequences: decoding the encodings of
/// conforming elements succeeds and returns the elements in order.
pub proof fn lemma_round_trip_seq(ts: Seq<TypedModel>, ty: ApiType)
    requires
        conforms_seq(ts, ty),
    ensures
        spec_decode_seq(encode_each(ts), ty) == Ok::<Seq<TypedModel>, ValModel>(ts),
    decreases ts,
{
    if ts.len() == 0 {
        assert(encode_each(ts) =~= Seq::<ValModel>::empty());
        assert(ts =~= Seq::<TypedModel>::empty());
    } else {
        lemma_round_trip(ts[0], ty);
        lemma_round_trip_seq(ts.drop_first(), ty);
        let encs = encode_each(ts);
        assert(encs[0] == spec_encode(ts[0]));
        assert(encs.drop_first() =~= encode_each(ts.drop_first()));
        assert(seq![ts[0]] + ts.drop_first() =~= ts);
    }
}

} // verus!
