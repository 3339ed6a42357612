//! Tests for the runtime half: value marshalling and the classification of
//! call outcomes.

use nvim_api::invoke::{classify_response, convert_ret, encode_args, Error};
use nvim_api::marshal::{Dict, DecodeError, HandleKind, TypedValue};
use nvim_api::types::ApiType;
use nvim_api::value::{Value, WireInt};

fn sint(i: i64) -> Value {
    Value::Integer(WireInt::Signed(i))
}

#[test]
fn scalar_round_trips() {
    let cases: Vec<(TypedValue, ApiType)> = vec![
        (TypedValue::Unit, ApiType::Nil),
        (TypedValue::Bool(true), ApiType::Boolean),
        (TypedValue::Int(-7), ApiType::Integer),
        (TypedValue::FloatBits(0x3FF0000000000000), ApiType::Float),
        (TypedValue::Text("hello".to_owned()), ApiType::String),
        (TypedValue::Dyn(Value::Boolean(false)), ApiType::Object),
        (
            TypedValue::Handle(HandleKind::Buffer, sint(3)),
            ApiType::Buffer,
        ),
        (
            TypedValue::Handle(HandleKind::Window, sint(4)),
            ApiType::Window,
        ),
        (
            TypedValue::Handle(HandleKind::Tabpage, sint(5)),
            ApiType::Tabpage,
        ),
    ];
    for (t, ty) in cases {
        let expected = format!("{:?}", t);
        let encoded = t.into_value();
        let decoded = TypedValue::from_value(encoded, &ty).unwrap();
        assert_eq!(format!("{:?}", decoded), expected);
    }
}

#[test]
fn composite_round_trips() {
    let t = TypedValue::List(vec![
        TypedValue::Int(1),
        TypedValue::Int(2),
        TypedValue::Int(3),
    ]);
    let ty = ApiType::ArrayOf(Box::new(ApiType::Integer));
    let decoded = TypedValue::from_value(t.into_value(), &ty).unwrap();
    assert_eq!(
        decoded,
        TypedValue::List(vec![
            TypedValue::Int(1),
            TypedValue::Int(2),
            TypedValue::Int(3),
        ])
    );

    let pair = TypedValue::List(vec![TypedValue::Bool(true), TypedValue::Bool(false)]);
    let pair_ty = ApiType::ArrayOfLength(Box::new(ApiType::Boolean), 2);
    let decoded = TypedValue::from_value(pair.into_value(), &pair_ty).unwrap();
    assert_eq!(
        decoded,
        TypedValue::List(vec![TypedValue::Bool(true), TypedValue::Bool(false)])
    );

    let d = TypedValue::Pairs(Dict::new(vec![(
        Value::Text("k".to_owned()),
        sint(1),
    )]));
    let decoded = TypedValue::from_value(d.into_value(), &ApiType::Dictionary).unwrap();
    assert_eq!(
        decoded,
        TypedValue::Pairs(Dict::new(vec![(Value::Text("k".to_owned()), sint(1))]))
    );
}

#[test]
fn scalar_decode_requires_an_exact_tag_match() {
    assert_eq!(
        TypedValue::from_value(Value::Boolean(true), &ApiType::Integer),
        Err(DecodeError::TypeMismatch(Value::Boolean(true)))
    );
    assert_eq!(
        TypedValue::from_value(sint(0), &ApiType::Nil),
        Err(DecodeError::TypeMismatch(sint(0)))
    );
    assert_eq!(
        TypedValue::from_value(Value::Nil, &ApiType::String),
        Err(DecodeError::TypeMismatch(Value::Nil))
    );
}

#[test]
fn integer_decode_accepts_only_values_that_fit() {
    assert_eq!(
        TypedValue::from_value(Value::Integer(WireInt::Unsigned(5)), &ApiType::Integer),
        Ok(TypedValue::Int(5))
    );
    assert_eq!(
        TypedValue::from_value(
            Value::Integer(WireInt::Unsigned(u64::MAX)),
            &ApiType::Integer
        ),
        Err(DecodeError::TypeMismatch(Value::Integer(WireInt::Unsigned(
            u64::MAX
        ))))
    );
}

#[test]
fn arity_two_rejects_a_three_element_array() {
    let three = Value::Array(vec![sint(1), sint(2), sint(3)]);
    let pair_ty = ApiType::ArrayOfLength(Box::new(ApiType::Integer), 2);
    assert_eq!(
        TypedValue::from_value(three, &pair_ty),
        Err(DecodeError::TypeMismatch(Value::Array(vec![
            sint(1),
            sint(2),
            sint(3)
        ])))
    );
}

#[test]
fn variable_length_accepts_a_three_element_array_in_order() {
    let three = Value::Array(vec![sint(1), sint(2), sint(3)]);
    let seq_ty = ApiType::ArrayOf(Box::new(ApiType::Integer));
    assert_eq!(
        TypedValue::from_value(three, &seq_ty),
        Ok(TypedValue::List(vec![
            TypedValue::Int(1),
            TypedValue::Int(2),
            TypedValue::Int(3),
        ]))
    );
}

#[test]
fn sequence_decode_fails_fast_with_the_offending_element() {
    let mixed = Value::Array(vec![sint(1), Value::Nil, Value::Boolean(true)]);
    let seq_ty = ApiType::ArrayOf(Box::new(ApiType::Integer));
    assert_eq!(
        TypedValue::from_value(mixed, &seq_ty),
        Err(DecodeError::TypeMismatch(Value::Nil))
    );
}

#[test]
fn dynamic_array_decode_keeps_elements_dynamic() {
    let v = Value::Array(vec![sint(1), Value::Nil]);
    assert_eq!(
        TypedValue::from_value(v, &ApiType::Array),
        Ok(TypedValue::List(vec![
            TypedValue::Dyn(sint(1)),
            TypedValue::Dyn(Value::Nil),
        ]))
    );
}

#[test]
fn dictionary_decode_copies_pairs_without_checking() {
    let v = Value::Dict(vec![(Value::Nil, Value::Boolean(true))]);
    let decoded = TypedValue::from_value(v, &ApiType::Dictionary).unwrap();
    match decoded {
        TypedValue::Pairs(d) => {
            assert_eq!(d.as_slice(), &[(Value::Nil, Value::Boolean(true))]);
        }
        other => panic!("expected pairs, got {:?}", other),
    }
}

#[test]
fn application_error_is_wrapped_verbatim() {
    let errval = Value::Array(vec![sint(1), Value::Text("not allowed".to_owned())]);
    let r = convert_ret(Err(errval), &ApiType::Nil);
    let expected = Value::Array(vec![sint(1), Value::Text("not allowed".to_owned())]);
    assert_eq!(r, Err(Error::NvimReturnedError(expected)));
}

#[test]
fn classification_distinguishes_the_three_failures() {
    let errval = Value::Text("boom".to_owned());
    assert_eq!(
        classify_response(Some(Err(errval)), &ApiType::Nil),
        Err(Error::NvimReturnedError(Value::Text("boom".to_owned())))
    );
    assert_eq!(
        classify_response(None, &ApiType::Nil),
        Err(Error::ConnectionClosed)
    );
    assert_eq!(
        classify_response(Some(Ok(sint(1))), &ApiType::Nil),
        Err(Error::UnexpectedReturnType(sint(1)))
    );
    assert_eq!(
        classify_response(Some(Ok(Value::Nil)), &ApiType::Nil),
        Ok(TypedValue::Unit)
    );
}

#[test]
fn arguments_are_encoded_in_order_after_the_receiver() {
    let receiver = sint(9);
    let args = vec![
        TypedValue::Text("x".to_owned()),
        TypedValue::Bool(true),
        TypedValue::Int(2),
    ];
    let encoded = encode_args(Some(receiver), args);
    assert_eq!(
        encoded,
        vec![
            sint(9),
            Value::Text("x".to_owned()),
            Value::Boolean(true),
            sint(2),
        ]
    );
    let encoded = encode_args(None, vec![TypedValue::Unit]);
    assert_eq!(encoded, vec![Value::Nil]);
}

#[test]
fn dict_round_trips_through_its_wire_value() {
    let d = Dict::new(vec![(Value::Text("a".to_owned()), sint(1))]);
    let v = d.into_value();
    assert_eq!(v, Value::Dict(vec![(Value::Text("a".to_owned()), sint(1))]));
}
