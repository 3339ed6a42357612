//! The parsed model of an API description: versioning, functions with their
//! parameters and return types, UI events, and the declared handle types,
//! together with the per-function declaration text.

use crate::strutil::{join_sep, lemma_join_sep_step, starts_with};
use crate::types::{owned_name_spec, ApiType};
use vstd::prelude::*;
use vstd::string::StringExecFns;

verus! {

/// The description's version block.
#[derive(Clone, Copy, Debug, Eq, Hash, PartialEq, Structural)]
pub struct ApiVersion {
    pub major: i64,
    pub minor: i64,
    pub patch: i64,
    pub api_level: i64,
    pub api_compatible: i64,
    pub api_prerelease: bool,
}

/// One parameter of a described function: its wire type and its name.
#[derive(Debug, Eq, Hash, PartialEq)]
pub struct ApiFunctionParam {
    pub ty: ApiType,
    pub name: String,
}

/// One described function. When `method` is true, the first parameter is
/// the implicit receiver and is skipped when the declaration's own
/// parameter list is emitted.
#[derive(Debug, Eq, Hash, PartialEq)]
pub struct ApiFunction {
    pub name: String,
    pub parameters: Vec<ApiFunctionParam>,
    pub return_type: ApiType,
    pub method: bool,
    pub since: i64,
    pub deprecated_since: Option<i64>,
}

/// One described UI event; parsed for completeness, unused by emission.
#[derive(Debug, Eq, Hash, PartialEq)]
pub struct ApiUiEvent {
    pub name: String,
    pub parameters: Vec<ApiFunctionParam>,
    pub since: i64,
}

/// One declared handle type: the name prefix that groups methods under it.
#[derive(Debug, Eq, Hash, PartialEq)]
pub struct ApiTypeDecl {
    pub prefix: String,
}

/// The whole parsed description. The handle types keep their insertion
/// order, so that emission is a pure function of the input.
#[derive(Debug, Eq, PartialEq)]
pub struct Api {
    pub version: ApiVersion,
    pub functions: Vec<ApiFunction>,
    pub ui_events: Vec<ApiUiEvent>,
    pub types: Vec<(String, ApiTypeDecl)>,
}

/// The emitted text of one parameter: `name: owned-type`.
pub open spec fn param_decl(p: ApiFunctionParam) -> Seq<char> {
    p.name@ + ": "@ + owned_name_spec(p.ty)
}

/// The emitted texts of a parameter list, in order.
pub open spec fn param_decls(ps: Seq<ApiFunctionParam>) -> Seq<Seq<char>> {
    Seq::new(ps.len(), |i: int| param_decl(ps[i]))
}

/// The function's short name: its full name with the grouping prefix
/// removed once.
pub open spec fn fn_shortname(f: ApiFunction, prefix: Seq<char>) -> Seq<char> {
    f.name@.skip(prefix.len() as int)
}

/// The declaration emitted for one function: the stub macro's name, the
/// short name, the remote name, the parameter list after the receiver is
/// skipped for methods, and the return type's owned representation.
pub open spec fn macro_call_spec(f: ApiFunction, prefix: Seq<char>) -> Seq<char> {
    let macro_name = if f.method {
        "nvim_api_method"@
    } else {
        "nvim_api_function"@
    };
    let skip: int = if f.method {
        1
    } else {
        0
    };
    macro_name + "!("@ + fn_shortname(f, prefix) + ", \""@ + f.name@ + "\", "@ + join_sep(
        param_decls(f.parameters@.skip(skip)),
        ", "@,
    ) + "; "@ + owned_name_spec(f.return_type) + ");"@
}

impl ApiFunction {
    /// The name of the declaration to emit for this function: the full
    /// name with `prefix` stripped. The name must start with the prefix.
    pub fn rust_fn_name(&self, prefix: &str) -> (r: String)
        requires
            starts_with(self.name@, prefix@),
        ensures
            r@ == fn_shortname(*self, prefix@),
    {
        let n = self.name.as_str().unicode_len();
        let p = prefix.unicode_len();
        proof {
            assert(self.name@.subrange(p as int, n as int) =~= self.name@.skip(p as int));
        }
        self.name.as_str().substring_char(p, n).to_owned()
    }

    /// The full declaration line emitted for this function. The name must
    /// start with `prefix`; a method carries its implicit receiver as its
    /// first parameter.
    pub fn macro_call(&self, fn_prefix: &str) -> (r: String)
        requires
            starts_with(self.name@, fn_prefix@),
            self.method ==> self.parameters@.len() >= 1,
        ensures
            r@ == macro_call_spec(*self, fn_prefix@),
    {
        let num_to_skip: usize = if self.method {
            1
        } else {
            0
        };
        let mut out = if self.method {
            "nvim_api_method".to_owned()
        } else {
            "nvim_api_function".to_owned()
        };
        out.append("!(");
        let short = self.rust_fn_name(fn_prefix);
        out.append(short.as_str());
        out.append(", \"");
        out.append(self.name.as_str());
        out.append("\", ");
        let ghost header = out@;
        let ghost ps = self.parameters@.skip(num_to_skip as int);
        let mut idx: usize = num_to_skip;
        while idx < self.parameters.len()
            invariant
                num_to_skip <= idx <= self.parameters@.len(),
                num_to_skip <= self.parameters@.len(),
                ps == self.parameters@.skip(num_to_skip as int),
                out@ == header + join_sep(param_decls(ps).take(idx - num_to_skip), ", "@),
            decreases self.parameters@.len() - idx,
        {
            proof {
                lemma_join_sep_step(param_decls(ps), ", "@, idx - num_to_skip);
                assert(ps[idx - num_to_skip] == self.parameters@[idx as int]);
            }
            if idx > num_to_skip {
                out.append(", ");
            }
            let p = &self.parameters[idx];
            out.append(p.name.as_str());
            out.append(": ");
            let ty_name = p.ty.rust_owned_name();
            out.append(ty_name.as_str());
            idx += 1;
        }
        proof {
            assert(param_decls(ps).take(idx - num_to_skip) =~= param_decls(ps));
        }
        out.append("; ");
        let ret_name = self.return_type.rust_owned_name();
        out.append(ret_name.as_str());
        out.append(");");
        proof {
            assert(out@ =~= macro_call_spec(*self, fn_prefix@));
        }
        out
    }
}

} // verus!
