//! The typed invoker's shared behavior: encode the arguments, and classify
//! the single response of a call — a severed connection, an application
//! error value returned by the remote side, a success value that fails to
//! decode against the expected return type, or the decoded typed value.
//! The transport that carries the request and wakes the response is
//! external; it hands this layer the outcome as a plain event.

use crate::marshal::{
    encode_each, spec_decode, spec_encode, typed_models, DecodeError, TypedModel, TypedValue,
};
use crate::types::ApiType;
use crate::value::{vals_model, ValModel, Value};
use vstd::prelude::*;

verus! {

broadcast use vstd::std_specs::vec::group_vec_axioms;

/// A failed call: the remote side returned an application error value, the
/// success value did not decode against the expected return type, or the
/// connection was severed before a response arrived. No call is retried by
/// this layer.
#[derive(Debug, PartialEq)]
pub enum Error {
    NvimReturnedError(Value),
    UnexpectedReturnType(Value),
    ConnectionClosed,
}

/// The model of a failed call.
pub enum ErrorModel {
    NvimReturnedError(ValModel),
    UnexpectedReturnType(ValModel),
    ConnectionClosed,
}

impl Error {
    /// The model of this failure.
    pub open spec fn model(self) -> ErrorModel {
        match self {
            Error::NvimReturnedError(v) => ErrorModel::NvimReturnedError(v.model()),
            Error::UnexpectedReturnType(v) => ErrorModel::UnexpectedReturnType(v.model()),
            Error::ConnectionClosed => ErrorModel::ConnectionClosed,
        }
    }
}

/// The model of a raw response: a success value or an application error
/// value.
pub open spec fn response_model(nr: Result<Value, Value>) -> Result<ValModel, ValModel> {
    match nr {
        Ok(v) => Ok(v.model()),
        Err(v) => Err(v.model()),
    }
}

/// What classifying a raw response yields: an application error value is
/// wrapped verbatim; a success value is decoded against the expected
/// return type, and a decode failure wraps the offending raw value.
pub open spec fn spec_convert_ret(nr: Result<ValModel, ValModel>, ty: ApiType) -> Result<
    TypedModel,
    ErrorModel,
> {
    match nr {
        Ok(v) => match spec_decode(v, ty) {
            Ok(t) => Ok(t),
            Err(off) => Err(ErrorModel::UnexpectedReturnType(off)),
        },
        Err(e) => Err(ErrorModel::NvimReturnedError(e)),
    }
}

/// What classifying a call's outcome yields: no response at all means the
/// connection was severed.
pub open spec fn spec_classify(nr: Option<Result<ValModel, ValModel>>, ty: ApiType) -> Result<
    TypedModel,
    ErrorModel,
> {
    match nr {
        None => Err(ErrorModel::ConnectionClosed),
        Some(r) => spec_convert_ret(r, ty),
    }
}

/// Classifies a raw response: an application error value yields
/// `NvimReturnedError` wrapping that exact value; a success value is
/// decoded against `ret_ty`, and a decode failure yields
/// `UnexpectedReturnType` wrapping the offending raw value.
pub fn convert_ret(nvim_ret: Result<Value, Value>, ret_ty: &ApiType) -> (r: Result<
    TypedValue,
    Error,
>)
    ensures
        match r {
            Ok(t) => spec_convert_ret(response_model(nvim_ret), *ret_ty) == Ok::<
                TypedModel,
                ErrorModel,
            >(t.model()),
            Err(e) => spec_convert_ret(response_model(nvim_ret), *ret_ty) == Err::<
                TypedModel,
                ErrorModel,
            >(e.model()),
        },
{
    match nvim_ret {
        Ok(v) => match TypedValue::from_value(v, ret_ty) {
            Ok(t) => Ok(t),
            Err(DecodeError::TypeMismatch(off)) => Err(Error::UnexpectedReturnType(off)),
        },
        Err(v) => Err(Error::NvimReturnedError(v)),
    }
}

/// Classifies a call's outcome. A call whose connection was severed before
/// a response arrived has no response and yields `ConnectionClosed`.
pub fn classify_response(resp: Option<Result<Value, Value>>, ret_ty: &ApiType) -> (r: Result<
    TypedValue,
    Error,
>)
    ensures
        match r {
            Ok(t) => spec_classify(
                match resp {
                    None => None,
                    Some(nr) => Some(response_model(nr)),
                },
                *ret_ty,
            ) == Ok::<TypedModel, ErrorModel>(t.model()),
            Err(e) => spec_classify(
                match resp {
                    None => None,
                    Some(nr) => Some(response_model(nr)),
                },
                *ret_ty,
            ) == Err::<TypedModel, ErrorModel>(e.model()),
        },
{
    match resp {
        None => Err(Error::ConnectionClosed),
        Some(nr) => convert_ret(nr, ret_ty),
    }
}

/// Encodes a call's argument list: the receiver's wire value first for a
/// method-style stub, then each typed argument's encoding, in argument
/// order.
#[verifier::loop_isolation(false)]
pub fn encode_args(receiver: Option<Value>, args: Vec<TypedValue>) -> (r: Vec<Value>)
    ensures
        vals_model(r@) == (match receiver {
            Some(v) => seq![v.model()],
            None => Seq::<ValModel>::empty(),
        }) + encode_each(typed_models(args@)),
{
    let ghost orig = args@;
    let mut out: Vec<Value> = Vec::new();
    let ghost lead: Seq<ValModel> = match &receiver {
        Some(v) => seq![v.model()],
        None => Seq::empty(),
    };
    match receiver {
        Some(v) => {
            out.push(v);
        },
        None => {},
    }
    let mut rest = args;
    while rest.len() > 0
        invariant
            out@.len() == lead.len() + (orig.len() - rest@.len()),
            rest@ == orig.skip((orig.len() - rest@.len()) as int),
            vals_model(out@) =~= lead + encode_each(
                typed_models(orig.take((orig.len() - rest@.len()) as int)),
            ),
        decreases rest@.len(),
    {
        let ghost done = (orig.len() - rest@.len()) as int;
        let x = rest.remove(0);
        proof {
            assert(orig.skip(done).drop_first() =~= orig.skip(done + 1));
            assert(orig.skip(done)[0] == orig[done]);
        }
        let encoded = x.into_value();
        let ghost prev = out@;
        out.push(encoded);
        proof {
            assert(done + 1 <= orig.len());
            assert(vals_model(out@) =~= vals_model(prev) + seq![encoded.model()]);
            assert(typed_models(orig.take(done + 1)) =~= typed_models(orig.take(done)).push(
                orig[done].model(),
            ));
            assert(encode_each(typed_models(orig.take(done)).push(orig[done].model()))
                =~= encode_each(typed_models(orig.take(done))) + seq![
                spec_encode(orig[done].model()),
            ]);
            assert(encoded.model() == spec_encode(orig[done].model()));
            assert((lead + encode_each(typed_models(orig.take(done)))) + seq![
                spec_encode(orig[done].model()),
            ] =~= lead + encode_each(typed_models(orig.take(done + 1))));
            assert(vals_model(out@) =~= lead + encode_each(typed_models(orig.take(done + 1))));
        }
    }
    proof {
        assert(orig.take(orig.len() as int) =~= orig);
    }
    out
}

} // verus!
