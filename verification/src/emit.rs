//! The binding emitter: from a parsed description to source text, one
//! declaration per retained function — deprecated functions are skipped,
//! free functions are grouped under the client type, and method-flagged
//! functions are grouped under the handle type whose declared prefix their
//! name starts with. Emission is deterministic and order-preserving.

use crate::api::{macro_call_spec, Api, ApiFunction, ApiTypeDecl};
use crate::strutil::{starts_with, str_starts_with};
use vstd::prelude::*;
use vstd::string::StringExecFns;

verus! {

/// A function is emitted as a free function iff it is not deprecated and
/// not method-flagged.
pub open spec fn eligible_free(f: ApiFunction) -> bool {
    f.deprecated_since is None && !f.method
}

/// A function is emitted under a handle type iff it is not deprecated, is
/// method-flagged, and its name starts with the type's declared prefix.
pub open spec fn eligible_method(f: ApiFunction, prefix: Seq<char>) -> bool {
    f.deprecated_since is None && f.method && starts_with(f.name@, prefix)
}

/// The emitted line for one declaration: indented, one per line.
pub open spec fn emit_line(f: ApiFunction, prefix: Seq<char>) -> Seq<char> {
    "\t"@ + macro_call_spec(f, prefix) + "\n"@
}

/// The free-function lines, in input order.
pub open spec fn free_fn_lines(fs: Seq<ApiFunction>, prefix: Seq<char>) -> Seq<char>
    decreases fs.len(),
{
    if fs.len() == 0 {
        Seq::empty()
    } else {
        free_fn_lines(fs.drop_last(), prefix) + if eligible_free(fs[fs.len() - 1]) {
            emit_line(fs[fs.len() - 1], prefix)
        } else {
            Seq::empty()
        }
    }
}

/// The method lines of one handle type, in input order.
pub open spec fn method_lines(fs: Seq<ApiFunction>, prefix: Seq<char>) -> Seq<char>
    decreases fs.len(),
{
    if fs.len() == 0 {
        Seq::empty()
    } else {
        method_lines(fs.drop_last(), prefix) + if eligible_method(fs[fs.len() - 1], prefix) {
            emit_line(fs[fs.len() - 1], prefix)
        } else {
            Seq::empty()
        }
    }
}

/// The emitted block of one declared handle type.
pub open spec fn type_block(name: Seq<char>, decl: ApiTypeDecl, fs: Seq<ApiFunction>) -> Seq<
    char,
> {
    "nvim_type!("@ + name + ");\n"@ + "impl<'client> "@ + name + "<'client> {\n"@ + method_lines(
        fs,
        decl.prefix@,
    ) + "}\n"@
}

/// The emitted blocks of all declared handle types, in declaration order.
pub open spec fn type_blocks(ts: Seq<(String, ApiTypeDecl)>, fs: Seq<ApiFunction>) -> Seq<char>
    decreases ts.len(),
{
    if ts.len() == 0 {
        Seq::empty()
    } else {
        type_blocks(ts.drop_last(), fs) + type_block(ts[ts.len() - 1].0@, ts[ts.len() - 1].1, fs)
    }
}

/// The whole emitted output: the fixed header, the free-function block,
/// then one block per declared handle type.
pub open spec fn emit_spec(api: Api, fn_prefix: Seq<char>) -> Seq<char> {
    "use futures::Future;\n"@ + "use rmp_rpc::Value;\n"@ + "use super::*;\n"@
        + "impl NvimClient {\n"@ + free_fn_lines(api.functions@, fn_prefix) + "}\n"@ + type_blocks(
        api.types@,
        api.functions@,
    )
}

proof fn lemma_free_lines_step(fs: Seq<ApiFunction>, prefix: Seq<char>, k: int)
    requires
        0 <= k < fs.len(),
    ensures
        free_fn_lines(fs.take(k + 1), prefix) == free_fn_lines(fs.take(k), prefix) + if
            eligible_free(fs[k]) {
            emit_line(fs[k], prefix)
        } else {
            Seq::<char>::empty()
        },
{
    let t = fs.take(k + 1);
    assert(t.drop_last() =~= fs.take(k));
    assert(t[t.len() - 1] == fs[k]);
}

proof fn lemma_method_lines_step(fs: Seq<ApiFunction>, prefix: Seq<char>, k: int)
    requires
        0 <= k < fs.len(),
    ensures
        method_lines(fs.take(k + 1), prefix) == method_lines(fs.take(k), prefix) + if
            eligible_method(fs[k], prefix) {
            emit_line(fs[k], prefix)
        } else {
            Seq::<char>::empty()
        },
{
    let t = fs.take(k + 1);
    assert(t.drop_last() =~= fs.take(k));
    assert(t[t.len() - 1] == fs[k]);
}

proof fn lemma_type_blocks_step(ts: Seq<(String, ApiTypeDecl)>, fs: Seq<ApiFunction>, k: int)
    requires
        0 <= k < ts.len(),
    ensures
        type_blocks(ts.take(k + 1), fs) == type_blocks(ts.take(k), fs) + type_block(
            ts[k].0@,
            ts[k].1,
            fs,
        ),
{
    let t = ts.take(k + 1);
    assert(t.drop_last() =~= ts.take(k));
    assert(t[t.len() - 1] == ts[k]);
}

/// Emits the source text for a whole description: every retained free
/// function under the client type with the caller-supplied global prefix
/// stripped, then, per declared handle type, its wrapper declaration and
/// its matching methods with the type's prefix stripped. Every retained
/// free function's name must start with the global prefix, and every
/// method carries its implicit receiver as its first parameter.
pub fn emit_api(api: &Api, fn_prefix: &str) -> (r: String)
    requires
        forall|i: int|
            0 <= i < api.functions@.len() && eligible_free(#[trigger] api.functions@[i])
                ==> starts_with(api.functions@[i].name@, fn_prefix@),
        forall|i: int|
            0 <= i < api.functions@.len() && (#[trigger] api.functions@[i]).method
                ==> api.functions@[i].parameters@.len() >= 1,
    ensures
        r@ == emit_spec(*api, fn_prefix@),
{
    let mut out = "use futures::Future;\n".to_owned();
    out.append("use rmp_rpc::Value;\n");
    out.append("use super::*;\n");
    out.append("impl NvimClient {\n");
    let ghost hdr = out@;
    let mut i: usize = 0;
    while i < api.functions.len()
        invariant
            i <= api.functions@.len(),
            out@ == hdr + free_fn_lines(api.functions@.take(i as int), fn_prefix@),
            forall|k: int|
                0 <= k < api.functions@.len() && eligible_free(#[trigger] api.functions@[k])
                    ==> starts_with(api.functions@[k].name@, fn_prefix@),
        decreases api.functions@.len() - i,
    {
        proof {
            lemma_free_lines_step(api.functions@, fn_prefix@, i as int);
        }
        let f = &api.functions[i];
        if f.deprecated_since.is_none() && !f.method {
            out.append("\t");
            let line = f.macro_call(fn_prefix);
            out.append(line.as_str());
            out.append("\n");
        }
        i += 1;
    }
    proof {
        assert(api.functions@.take(api.functions@.len() as int) =~= api.functions@);
    }
    out.append("}\n");
    let ghost mid = out@;
    let mut ti: usize = 0;
    while ti < api.types.len()
        invariant
            ti <= api.types@.len(),
            out@ == mid + type_blocks(api.types@.take(ti as int), api.functions@),
            forall|k: int|
                0 <= k < api.functions@.len() && (#[trigger] api.functions@[k]).method
                    ==> api.functions@[k].parameters@.len() >= 1,
        decreases api.types@.len() - ti,
    {
        proof {
            lemma_type_blocks_step(api.types@, api.functions@, ti as int);
        }
        let name = &api.types[ti].0;
        let decl = &api.types[ti].1;
        out.append("nvim_type!(");
        out.append(name.as_str());
        out.append(");\n");
        out.append("impl<'client> ");
        out.append(name.as_str());
        out.append("<'client> {\n");
        let ghost bhdr = out@;
        let mut j: usize = 0;
        while j < api.functions.len()
            invariant
                j <= api.functions@.len(),
                out@ == bhdr + method_lines(api.functions@.take(j as int), decl.prefix@),
                forall|k: int|
                    0 <= k < api.functions@.len() && (#[trigger] api.functions@[k]).method
                        ==> api.functions@[k].parameters@.len() >= 1,
            decreases api.functions@.len() - j,
        {
            proof {
                lemma_method_lines_step(api.functions@, decl.prefix@, j as int);
            }
            let f = &api.functions[j];
            if f.deprecated_since.is_none() && f.method && str_starts_with(
                f.name.as_str(),
                decl.prefix.as_str(),
            ) {
                out.append("\t");
                let line = f.macro_call(decl.prefix.as_str());
                out.append(line.as_str());
                out.append("\n");
            }
            j += 1;
        }
        proof {
            assert(api.functions@.take(api.functions@.len() as int) =~= api.functions@);
        }
        out.append("}\n");
        ti += 1;
    }
    proof {
        assert(api.types@.take(api.types@.len() as int) =~= api.types@);
    }
    out
}

} // verus!
