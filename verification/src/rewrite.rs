//! The invocation rewriter: strips the orchestrator's wrapper-injected
//! token, appends a `--sysroot` pair when none was supplied, applies the
//! debug-info heuristic, drops the shim's own program path, and maps the
//! delegate's exit to the shim's own exit code.

use crate::scan::lemma_first_eq_at;
use crate::scan::lemma_first_eq_none;
use crate::scan::name_part;
use crate::scan::split_token;
use crate::text::contains_str;
use crate::text::contains_sub;
use crate::text::file_stem_of;
use crate::text::file_stem_str;
use vstd::prelude::*;

verus! {

/// The delegate compiler's literal name.
pub open spec fn delegate_name() -> Seq<char> {
    "rustc"@
}

/// The explicit sysroot flag.
pub open spec fn sysroot_flag() -> Seq<char> {
    "--sysroot"@
}

/// The option name whose presence marks an already-debug build.
pub open spec fn debug_option() -> Seq<char> {
    "debuginfo"@
}

/// The workspace marker substring of the debug-info heuristic.
pub open spec fn workspace_marker() -> Seq<char> {
    "cita"@
}

/// Whether the orchestrator injected the delegate's own path as the token
/// at index 1: its file-name stem equals the delegate's name.
pub open spec fn wrapper_injected(tokens: Seq<Seq<char>>) -> bool {
    tokens.len() >= 2 && file_stem_of(tokens[1]) == delegate_name()
}

/// The token list with a wrapper-injected delegate path removed; any other
/// list is left untouched.
pub open spec fn strip_wrapper_spec(tokens: Seq<Seq<char>>) -> Seq<Seq<char>> {
    if wrapper_injected(tokens) {
        tokens.remove(1)
    } else {
        tokens
    }
}

/// Removes the wrapper-injected delegate path, when one is present.
pub fn strip_wrapper(args: Vec<String>) -> (r: Vec<String>)
    ensures
        r.deep_view() == strip_wrapper_spec(args.deep_view()),
{
    let ghost toks = args.deep_view();
    let mut args = args;
    if args.len() >= 2 {
        proof {
            assert(toks[1] == args@[1]@);
        }
        let stem = file_stem_str(args[1].as_str());
        let expected = "rustc".to_owned();
        if stem == expected {
            args.remove(1);
            proof {
                assert(args.deep_view() =~= toks.remove(1));
            }
        }
    }
    args
}

/// How many tokens contain the given substring.
pub open spec fn count_containing(tokens: Seq<Seq<char>>, sub: Seq<char>) -> int
    decreases tokens.len(),
{
    if tokens.len() == 0 {
        0
    } else {
        count_containing(tokens.drop_last(), sub) + if contains_sub(tokens.last(), sub) {
            1int
        } else {
            0int
        }
    }
}

/// Counts the tokens that contain `sub` anywhere, the way the debug-info
/// heuristic weighs the argument list.
pub fn count_tokens_containing(args: &Vec<String>, sub: &str) -> (r: usize)
    ensures
        r as int == count_containing(args.deep_view(), sub@),
{
    let ghost toks = args.deep_view();
    let mut count: usize = 0;
    let mut i: usize = 0;
    while i < args.len()
        invariant
            i <= args.len(),
            count <= i,
            toks == args.deep_view(),
            count as int == count_containing(toks.subrange(0, i as int), sub@),
        decreases args.len() - i,
    {
        proof {
            assert(toks[i as int] == args@[i as int]@);
        }
        if contains_str(args[i].as_str(), sub) {
            count = count + 1;
        }
        i = i + 1;
        proof {
            assert(toks.subrange(0, i as int).drop_last() =~= toks.subrange(0, i - 1));
            assert(toks.subrange(0, i as int).last() == toks[i - 1]);
        }
    }
    proof {
        assert(toks.subrange(0, args@.len() as int) =~= toks);
    }
    count
}

/// Whether some token names a debug-info option: its part before the first
/// `=` contains `debuginfo` as a substring.  The delegate compiler spells
/// such flags both as a pair (`-C debuginfo=2`, where the second token's
/// name is exactly `debuginfo`) and as a single token (`-Cdebuginfo=2`), so
/// presence is a containment test on the name, not an exact match.
pub open spec fn has_debug_option(tokens: Seq<Seq<char>>) -> bool {
    exists|i: int|
        0 <= i < tokens.len() && contains_sub(#[trigger] name_part(tokens[i]), debug_option())
}

/// Whether the heuristic asks for minimal debug info: no debug-info option
/// is present, and more than two tokens carry the workspace marker.  It
/// weighs the raw list as received, before the wrapper token was stripped.
pub open spec fn wants_debug_info(raw: Seq<Seq<char>>) -> bool {
    !has_debug_option(raw) && count_containing(raw, workspace_marker()) > 2
}

/// Whether some token of `args` has `sub` as a substring of its part before
/// the first `=`.
fn any_name_contains(args: &Vec<String>, sub: &str) -> (r: bool)
    ensures
        r == exists|i: int|
            0 <= i < args.deep_view().len() && contains_sub(
                #[trigger] name_part(args.deep_view()[i]),
                sub@,
            ),
{
    let ghost toks = args.deep_view();
    let mut i: usize = 0;
    while i < args.len()
        invariant
            i <= args.len(),
            toks == args.deep_view(),
            forall|k: int| 0 <= k < i ==> !contains_sub(#[trigger] name_part(toks[k]), sub@),
        decreases args.len() - i,
    {
        proof {
            assert(toks[i as int] == args@[i as int]@);
        }
        let (name_i, _value_i) = split_token(&args[i]);
        if contains_str(name_i.as_str(), sub) {
            proof {
                assert(contains_sub(name_part(toks[i as int]), sub@));
            }
            return true;
        }
        i = i + 1;
    }
    false
}

/// The final argument list handed to the delegate: a `--sysroot` pair is
/// appended to the wrapper-stripped list only when no explicit flag
/// existed, the heuristic — weighed over the raw list as received — may
/// append a debug-info pair, and the shim's own program path at index 0 is
/// dropped.
pub open spec fn final_args_spec(
    stripped: Seq<Seq<char>>,
    raw: Seq<Seq<char>>,
    have_sysroot: bool,
    sysroot: Seq<char>,
) -> Seq<Seq<char>>
    recommends
        stripped.len() >= 1,
{
    let base = if have_sysroot {
        stripped
    } else {
        stripped.push(sysroot_flag()).push(sysroot)
    };
    let with_debug = if wants_debug_info(raw) {
        base.push("-C"@).push("debuginfo=1"@)
    } else {
        base
    };
    with_debug.drop_first()
}

/// Builds the final argument list for the delegate, as `final_args_spec`
/// states it.  `stripped` is the wrapper-stripped list, `raw` the list as
/// received (the heuristic weighs that one), `have_sysroot` says whether
/// the raw list already carried an explicit `--sysroot`, and `sysroot` is
/// the resolved value to append when it did not.
pub fn build_final_args(
    stripped: Vec<String>,
    raw: &Vec<String>,
    have_sysroot: bool,
    sysroot: &String,
) -> (r: Vec<String>)
    requires
        stripped@.len() >= 1,
    ensures
        r.deep_view() == final_args_spec(
            stripped.deep_view(),
            raw.deep_view(),
            have_sysroot,
            sysroot@,
        ),
{
    let ghost toks = stripped.deep_view();
    let is_debug = any_name_contains(raw, "debuginfo");
    let marker_count = count_tokens_containing(raw, "cita");
    let mut args = stripped;
    if !have_sysroot {
        args.push("--sysroot".to_owned());
        args.push(sysroot.clone());
        proof {
            assert(args.deep_view() =~= toks.push(sysroot_flag()).push(sysroot@));
        }
    }
    let ghost base = args.deep_view();
    if !is_debug && marker_count > 2 {
        args.push("-C".to_owned());
        args.push("debuginfo=1".to_owned());
        proof {
            assert(args.deep_view() =~= base.push("-C"@).push("debuginfo=1"@));
        }
    }
    let ghost with_debug = args.deep_view();
    args.remove(0);
    proof {
        assert(args.deep_view() =~= with_debug.drop_first());
    }
    args
}

/// The shim's own exit code for a delegate exit: success propagates as 0,
/// any failure as -1.
pub fn exit_code_for(delegate_succeeded: bool) -> (r: i32)
    ensures
        r == if delegate_succeeded {
            0int
        } else {
            -1int
        },
{
    if delegate_succeeded {
        0
    } else {
        -1
    }
}

/// How many tokens of the list name the given option before their first
/// `=`.
pub open spec fn count_named(tokens: Seq<Seq<char>>, name: Seq<char>) -> int
    decreases tokens.len(),
{
    if tokens.len() == 0 {
        0
    } else {
        count_named(tokens.drop_last(), name) + if name_part(tokens.last()) == name {
            1int
        } else {
            0int
        }
    }
}

proof fn lemma_count_named_push(tokens: Seq<Seq<char>>, name: Seq<char>, tok: Seq<char>)
    ensures
        count_named(tokens.push(tok), name) == count_named(tokens, name) + if name_part(tok)
            == name {
            1int
        } else {
            0int
        },
{
    assert(tokens.push(tok).drop_last() =~= tokens);
    assert(tokens.push(tok).last() == tok);
}

proof fn lemma_appended_token_names()
    ensures
        name_part("-C"@) != sysroot_flag(),
        name_part("debuginfo=1"@) != sysroot_flag(),
        name_part("--sysroot"@) == sysroot_flag(),
{
    reveal_strlit("-C");
    reveal_strlit("debuginfo=1");
    reveal_strlit("--sysroot");
    lemma_first_eq_none("-C"@);
    lemma_first_eq_none("--sysroot"@);
    lemma_first_eq_at("debuginfo=1"@, 9);
    assert(name_part("debuginfo=1"@) == "debuginfo=1"@.subrange(0, 9));
    assert(name_part("debuginfo=1"@)[0] == 'd');
}

/// Law: with an explicit sysroot flag already supplied, rewriting appends
/// no second one — the final list names `--sysroot` exactly as often as the
/// stripped list did past its program path.
pub proof fn lemma_no_second_sysroot(stripped: Seq<Seq<char>>, raw: Seq<Seq<char>>, sysroot: Seq<char>)
    requires
        stripped.len() >= 1,
    ensures
        count_named(final_args_spec(stripped, raw, true, sysroot), sysroot_flag()) == count_named(
            stripped.drop_first(),
            sysroot_flag(),
        ),
{
    lemma_appended_token_names();
    if wants_debug_info(raw) {
        let tail = stripped.drop_first();
        assert(stripped.push("-C"@).drop_first() =~= tail.push("-C"@));
        assert(stripped.push("-C"@).push("debuginfo=1"@).drop_first() =~= tail.push("-C"@).push(
            "debuginfo=1"@,
        ));
        lemma_count_named_push(tail, sysroot_flag(), "-C"@);
        lemma_count_named_push(tail.push("-C"@), sysroot_flag(), "debuginfo=1"@);
    }
}

/// Law: with no explicit sysroot flag, rewriting appends exactly one — the
/// final list names `--sysroot` exactly once more than the stripped list
/// did past its program path.  The resolved value itself must not spell the
/// flag, which no path does.
pub proof fn lemma_one_synthetic_sysroot(
    stripped: Seq<Seq<char>>,
    raw: Seq<Seq<char>>,
    sysroot: Seq<char>,
)
    requires
        stripped.len() >= 1,
        name_part(sysroot) != sysroot_flag(),
    ensures
        count_named(final_args_spec(stripped, raw, false, sysroot), sysroot_flag()) == count_named(
            stripped.drop_first(),
            sysroot_flag(),
        ) + 1,
{
    lemma_appended_token_names();
    let tail = stripped.drop_first();
    let base = stripped.push(sysroot_flag()).push(sysroot);
    let base_tail = tail.push(sysroot_flag()).push(sysroot);
    assert(base.drop_first() =~= base_tail);
    lemma_count_named_push(tail, sysroot_flag(), sysroot_flag());
    lemma_count_named_push(tail.push(sysroot_flag()), sysroot_flag(), sysroot);
    if wants_debug_info(raw) {
        assert(base.push("-C"@).drop_first() =~= base_tail.push("-C"@));
        assert(base.push("-C"@).push("debuginfo=1"@).drop_first() =~= base_tail.push("-C"@).push(
            "debuginfo=1"@,
        ));
        lemma_count_named_push(base_tail, sysroot_flag(), "-C"@);
        lemma_count_named_push(base_tail.push("-C"@), sysroot_flag(), "debuginfo=1"@);
    }
}

} // verus!
