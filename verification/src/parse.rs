//! The type-name grammar: primitive names form a fixed exact-match table,
//! and compound names follow `ArrayOf(<primitive>)` or
//! `ArrayOf(<primitive>, <non-negative integer>)`. Any other string fails,
//! and a parse failure aborts the whole generation run.

use crate::strutil::{
    find_first, find_last, first_index, last_index, parse_u64, parse_u64_spec, starts_with,
    str_eq, str_starts_with, trim, trimmed,
};
use crate::types::ApiType;
use vstd::prelude::*;

verus! {

/// A generation-time failure: an unrecognized type name, carrying the
/// string that was looked up verbatim, or a syntactically invalid
/// `ArrayOf(...)` form, carrying the whole type name.
#[derive(Debug, Eq, PartialEq)]
pub enum TypeError {
    UnknownType(String),
    MalformedCompoundType(String),
}

/// The model of a generation-time failure.
pub enum TypeErrorModel {
    UnknownType(Seq<char>),
    MalformedCompoundType(Seq<char>),
}

impl TypeError {
    /// The model of this failure.
    pub open spec fn model(self) -> TypeErrorModel {
        match self {
            TypeError::UnknownType(s) => TypeErrorModel::UnknownType(s@),
            TypeError::MalformedCompoundType(s) => TypeErrorModel::MalformedCompoundType(s@),
        }
    }
}

/// The fixed exact-match table of primitive type names.
pub open spec fn primitive_of(s: Seq<char>) -> Option<ApiType> {
    if s == "void"@ || s == "Nil"@ {
        Some(ApiType::Nil)
    } else if s == "Boolean"@ {
        Some(ApiType::Boolean)
    } else if s == "Integer"@ {
        Some(ApiType::Integer)
    } else if s == "Float"@ {
        Some(ApiType::Float)
    } else if s == "String"@ {
        Some(ApiType::String)
    } else if s == "Array"@ {
        Some(ApiType::Array)
    } else if s == "Dictionary"@ {
        Some(ApiType::Dictionary)
    } else if s == "Buffer"@ {
        Some(ApiType::Buffer)
    } else if s == "Window"@ {
        Some(ApiType::Window)
    } else if s == "Tabpage"@ {
        Some(ApiType::Tabpage)
    } else if s == "Object"@ {
        Some(ApiType::Object)
    } else {
        None
    }
}

/// What parsing `s` as a primitive type name yields.
pub open spec fn parse_primitive_spec(s: Seq<char>) -> Result<ApiType, TypeErrorModel> {
    match primitive_of(s) {
        Some(t) => Ok(t),
        None => Err(TypeErrorModel::UnknownType(s)),
    }
}

/// What parsing `s` through the whole type-name grammar yields.
pub open spec fn parse_type_spec(s: Seq<char>) -> Result<ApiType, TypeErrorModel> {
    if !starts_with(s, "ArrayOf"@) {
        parse_primitive_spec(s)
    } else {
        match first_index(s, '(') {
            Some(open) => match last_index(s, ')') {
                Some(close) => {
                    if open + 1 <= close {
                        parse_compound_args(s, s.subrange(open + 1, close))
                    } else {
                        Err(TypeErrorModel::MalformedCompoundType(s))
                    }
                },
                None => Err(TypeErrorModel::MalformedCompoundType(s)),
            },
            None => Err(TypeErrorModel::MalformedCompoundType(s)),
        }
    }
}

/// What parsing the interior `args` of `ArrayOf(args)` yields; `s` is the
/// whole type name, reported by a malformed-integer failure.
pub open spec fn parse_compound_args(s: Seq<char>, args: Seq<char>) -> Result<
    ApiType,
    TypeErrorModel,
> {
    match first_index(args, ',') {
        Some(comma) => {
            let typart = trimmed(args.subrange(0, comma));
            let numpart = trimmed(args.subrange(comma + 1, args.len() as int));
            match primitive_of(typart) {
                Some(t) => match parse_u64_spec(numpart) {
                    Some(n) => Ok(ApiType::ArrayOfLength(Box::new(t), n)),
                    None => Err(TypeErrorModel::MalformedCompoundType(s)),
                },
                None => Err(TypeErrorModel::UnknownType(typart)),
            }
        },
        None => {
            let typart = trimmed(args);
            match primitive_of(typart) {
                Some(t) => Ok(ApiType::ArrayOf(Box::new(t))),
                None => Err(TypeErrorModel::UnknownType(typart)),
            }
        },
    }
}

/// Parses a primitive type name through the exact-match table, and fails
/// with `UnknownType` carrying `value` on any other string.
pub fn parse_primitive_type(value: &str) -> (r: Result<ApiType, TypeError>)
    ensures
        match r {
            Ok(t) => parse_primitive_spec(value@) == Ok::<ApiType, TypeErrorModel>(t),
            Err(e) => parse_primitive_spec(value@) == Err::<ApiType, TypeErrorModel>(e.model()),
        },
{
    if str_eq(value, "void") {
        Ok(ApiType::Nil)
    } else if str_eq(value, "Nil") {
        Ok(ApiType::Nil)
    } else if str_eq(value, "Boolean") {
        Ok(ApiType::Boolean)
    } else if str_eq(value, "Integer") {
        Ok(ApiType::Integer)
    } else if str_eq(value, "Float") {
        Ok(ApiType::Float)
    } else if str_eq(value, "String") {
        Ok(ApiType::String)
    } else if str_eq(value, "Array") {
        Ok(ApiType::Array)
    } else if str_eq(value, "Dictionary") {
        Ok(ApiType::Dictionary)
    } else if str_eq(value, "Buffer") {
        Ok(ApiType::Buffer)
    } else if str_eq(value, "Window") {
        Ok(ApiType::Window)
    } else if str_eq(value, "Tabpage") {
        Ok(ApiType::Tabpage)
    } else if str_eq(value, "Object") {
        Ok(ApiType::Object)
    } else {
        Err(TypeError::UnknownType(value.to_owned()))
    }
}

/// Parses a type name: a primitive name, `ArrayOf(<primitive>)`, or
/// `ArrayOf(<primitive>, <non-negative integer>)`, locating the first `(`
/// and the last `)`, splitting the interior on the first comma, and
/// trimming whitespace on each side.
pub fn parse_type(value: &str) -> (r: Result<ApiType, TypeError>)
    ensures
        match r {
            Ok(t) => parse_type_spec(value@) == Ok::<ApiType, TypeErrorModel>(t),
            Err(e) => parse_type_spec(value@) == Err::<ApiType, TypeErrorModel>(e.model()),
        },
{
    if !str_starts_with(value, "ArrayOf") {
        return parse_primitive_type(value);
    }
    let open = match find_first(value, '(') {
        Some(o) => o,
        None => {
            return Err(TypeError::MalformedCompoundType(value.to_owned()));
        },
    };
    let close = match find_last(value, ')') {
        Some(c) => c,
        None => {
            return Err(TypeError::MalformedCompoundType(value.to_owned()));
        },
    };
    if open >= close {
        return Err(TypeError::MalformedCompoundType(value.to_owned()));
    }
    let args = value.substring_char(open + 1, close);
    match find_first(args, ',') {
        Some(comma) => {
            let typart = trim(args.substring_char(0, comma));
            let numpart = trim(args.substring_char(comma + 1, args.unicode_len()));
            let t = match parse_primitive_type(typart) {
                Ok(t) => t,
                Err(e) => {
                    return Err(e);
                },
            };
            match parse_u64(numpart) {
                Some(n) => Ok(ApiType::ArrayOfLength(Box::new(t), n)),
                None => Err(TypeError::MalformedCompoundType(value.to_owned())),
            }
        },
        None => {
            let typart = trim(args);
            match parse_primitive_type(typart) {
                Ok(t) => Ok(ApiType::ArrayOf(Box::new(t))),
                Err(e) => Err(e),
            }
        },
    }
}

} // verus!
