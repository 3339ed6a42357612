//! The API type algebra: the closed sum of wire-level types an API
//! description can mention, and the mapping from each to the owned native
//! representation that the emitted declarations use.

use crate::strutil::repeat_join;
use vstd::prelude::*;
use vstd::string::StringExecFns;

verus! {

/// A type in the API description's type language. `ArrayOf` and
/// `ArrayOfLength` wrap one level of element type; the description never
/// nests them further.
#[derive(Debug, Eq, Hash, PartialEq)]
pub enum ApiType {
    Nil,
    Boolean,
    Integer,
    Float,
    String,
    Array,
    ArrayOf(Box<ApiType>),
    ArrayOfLength(Box<ApiType>, u64),
    Dictionary,
    Buffer,
    Window,
    Tabpage,
    Object,
}

/// The owned native representation of an API type, as emitted source text.
pub open spec fn owned_name_spec(ty: ApiType) -> Seq<char>
    decreases ty,
{
    match ty {
        ApiType::Nil => "()"@,
        ApiType::Boolean => "bool"@,
        ApiType::Integer => "i64"@,
        ApiType::Float => "f64"@,
        ApiType::String => "String"@,
        ApiType::Array => "Vec<Value>"@,
        ApiType::ArrayOf(t) => "Vec<"@ + owned_name_spec(*t) + ">"@,
        ApiType::ArrayOfLength(t, n) => "("@ + repeat_join(owned_name_spec(*t), ", "@, n as nat)
            + ")"@,
        ApiType::Dictionary => "Map"@,
        ApiType::Object => "Value"@,
        ApiType::Buffer => "Buffer<'client>"@,
        ApiType::Window => "Window<'client>"@,
        ApiType::Tabpage => "Tabpage<'client>"@,
    }
}

impl ApiType {
    /// The owned native representation of this type: scalars map to the
    /// native scalar, `ArrayOf` to an owned vector, `ArrayOfLength(T, N)`
    /// to an N-wide tuple, `Dictionary` to an association list, `Object`
    /// to the dynamic value, and handles to connection-scoped wrappers.
    pub fn rust_owned_name(&self) -> (r: String)
        ensures
            r@ == owned_name_spec(*self),
        decreases *self,
    {
        match self {
            ApiType::Nil => "()".to_owned(),
            ApiType::Boolean => "bool".to_owned(),
            ApiType::Integer => "i64".to_owned(),
            ApiType::Float => "f64".to_owned(),
            ApiType::String => "String".to_owned(),
            ApiType::Array => "Vec<Value>".to_owned(),
            ApiType::ArrayOf(t) => {
                let mut out = "Vec<".to_owned();
                let inner = t.rust_owned_name();
                out.append(inner.as_str());
                out.append(">");
                out
            },
            ApiType::ArrayOfLength(t, n) => {
                let inner = t.rust_owned_name();
                let mut out = "(".to_owned();
                let mut i: u64 = 0;
                while i < *n
                    invariant
                        i <= *n,
                        inner@ == owned_name_spec(**t),
                        out@ == "("@ + repeat_join(inner@, ", "@, i as nat),
                    decreases *n - i,
                {
                    if i > 0 {
                        out.append(", ");
                    }
                    out.append(inner.as_str());
                    i += 1;
                }
                out.append(")");
                out
            },
            ApiType::Dictionary => "Map".to_owned(),
            ApiType::Object => "Value".to_owned(),
            ApiType::Buffer => "Buffer<'client>".to_owned(),
            ApiType::Window => "Window<'client>".to_owned(),
            ApiType::Tabpage => "Tabpage<'client>".to_owned(),
        }
    }
}

} // verus!
