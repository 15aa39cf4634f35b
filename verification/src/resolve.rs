//! Sysroot resolution: an ordered, first-success-wins chain of fallible
//! sources.  Every source is handed in as a plain optional value, so the
//! algorithm itself stays a pure function; reading the environment and
//! querying the delegate compiler happen outside and only when the chain
//! asks for them.
//!
//! A set-but-empty source counts as absent: resolution either yields a
//! non-empty path or fails, and the caller must abort on failure — there is
//! no such thing as an empty sysroot.

use crate::text::trim_str;
use crate::text::trimmed;
use vstd::prelude::*;
use vstd::string::StringExecFns;

verus! {

/// The source holds a usable value: present and non-empty.
pub open spec fn present(v: Option<Seq<char>>) -> bool {
    v matches Some(s) && s.len() > 0
}

/// The sysroot synthesized from a toolchain home and a toolchain name.
pub open spec fn joined_sysroot(home: Seq<char>, toolchain: Seq<char>) -> Seq<char> {
    home + "/toolchains/"@ + toolchain
}

/// The first usable of two aliased sources.
pub open spec fn first_of(a: Option<Seq<char>>, b: Option<Seq<char>>) -> Option<Seq<char>> {
    if present(a) {
        a
    } else if present(b) {
        b
    } else {
        None
    }
}

/// The local part of the precedence chain: the explicit flag value wins,
/// then the override variable, then the synthesized pair of a toolchain
/// home and a toolchain name, each taken from the first usable of its two
/// aliases.
pub open spec fn local_sysroot_spec(
    arg: Option<Seq<char>>,
    env_override: Option<Seq<char>>,
    home: Option<Seq<char>>,
    home_alt: Option<Seq<char>>,
    toolchain: Option<Seq<char>>,
    toolchain_alt: Option<Seq<char>>,
) -> Option<Seq<char>> {
    if present(arg) {
        arg
    } else if present(env_override) {
        env_override
    } else {
        match (first_of(home, home_alt), first_of(toolchain, toolchain_alt)) {
            (Some(h), Some(t)) => Some(joined_sysroot(h, t)),
            _ => None,
        }
    }
}

/// The whole chain: the local result wins; otherwise the delegate
/// compiler's self-reported sysroot, trimmed of surrounding whitespace,
/// when something is left of it; otherwise the build-time fallback.
pub open spec fn full_sysroot_spec(
    local: Option<Seq<char>>,
    delegate_output: Option<Seq<char>>,
    built_in: Option<Seq<char>>,
) -> Option<Seq<char>> {
    if present(local) {
        local
    } else if delegate_output matches Some(d) && trimmed(d).len() > 0 {
        Some(trimmed(delegate_output->0))
    } else if present(built_in) {
        built_in
    } else {
        None
    }
}

/// Builds `<home>/toolchains/<toolchain>`.
pub fn join_sysroot(home: &String, toolchain: &String) -> (r: String)
    ensures
        r@ == joined_sysroot(home@, toolchain@),
{
    let r = home.clone();
    let r = r.concat("/toolchains/");
    let r = r.concat(toolchain.as_str());
    r
}

fn first_usable<'a>(a: &'a Option<String>, b: &'a Option<String>) -> (r: Option<&'a String>)
    ensures
        match r {
            Some(s) => first_of(a.deep_view(), b.deep_view()) == Some(s@),
            None => first_of(a.deep_view(), b.deep_view()) is None,
        },
{
    if let Some(s) = a {
        if !s.as_str().is_empty() {
            return Some(s);
        }
    }
    if let Some(s) = b {
        if !s.as_str().is_empty() {
            return Some(s);
        }
    }
    None
}

/// Resolves the sysroot from the sources that need no subprocess: the
/// explicit `--sysroot` value, the override variable, and the two aliased
/// toolchain variables.  When this returns nothing, the caller consults the
/// delegate compiler and the build-time fallback.
pub fn resolve_local(
    arg: &Option<String>,
    env_override: &Option<String>,
    home: &Option<String>,
    home_alt: &Option<String>,
    toolchain: &Option<String>,
    toolchain_alt: &Option<String>,
) -> (r: Option<String>)
    ensures
        r.deep_view() == local_sysroot_spec(
            arg.deep_view(),
            env_override.deep_view(),
            home.deep_view(),
            home_alt.deep_view(),
            toolchain.deep_view(),
            toolchain_alt.deep_view(),
        ),
{
    if let Some(s) = arg {
        if !s.as_str().is_empty() {
            return Some(s.clone());
        }
    }
    if let Some(s) = env_override {
        if !s.as_str().is_empty() {
            return Some(s.clone());
        }
    }
    match (first_usable(home, home_alt), first_usable(toolchain, toolchain_alt)) {
        (Some(h), Some(t)) => Some(join_sysroot(h, t)),
        _ => None,
    }
}

/// Finishes the chain once the local sources have been tried: prefers the
/// local result, then the delegate's trimmed self-report, then the
/// build-time fallback.
pub fn resolve_sysroot(
    local: Option<String>,
    delegate_output: Option<String>,
    built_in: Option<String>,
) -> (r: Option<String>)
    ensures
        r.deep_view() == full_sysroot_spec(
            local.deep_view(),
            delegate_output.deep_view(),
            built_in.deep_view(),
        ),
{
    if let Some(s) = local {
        if !s.as_str().is_empty() {
            return Some(s);
        }
    }
    if let Some(d) = delegate_output {
        let t = trim_str(d.as_str());
        if !t.as_str().is_empty() {
            return Some(t);
        }
    }
    if let Some(b) = built_in {
        if !b.as_str().is_empty() {
            return Some(b);
        }
    }
    None
}

/// Law: resolution never invents a value.  The chain fails exactly when
/// every source fails — is absent, or holds nothing but emptiness — so a
/// missing sysroot is always detected rather than silently defaulted.
pub proof fn lemma_no_silent_default(
    arg: Option<Seq<char>>,
    env_override: Option<Seq<char>>,
    home: Option<Seq<char>>,
    home_alt: Option<Seq<char>>,
    toolchain: Option<Seq<char>>,
    toolchain_alt: Option<Seq<char>>,
    delegate_output: Option<Seq<char>>,
    built_in: Option<Seq<char>>,
)
    ensures
        full_sysroot_spec(
            local_sysroot_spec(arg, env_override, home, home_alt, toolchain, toolchain_alt),
            delegate_output,
            built_in,
        ) is None <==> {
            &&& !present(arg)
            &&& !present(env_override)
            &&& (first_of(home, home_alt) is None || first_of(toolchain, toolchain_alt) is None)
            &&& !(delegate_output matches Some(d) && trimmed(d).len() > 0)
            &&& !present(built_in)
        },
{
    reveal_strlit("/toolchains/");
}

/// Law: a resolved sysroot is never the empty string, whatever the sources
/// hold: an empty source counts as failed, and the synthesized pair always
/// contains its separator.
pub proof fn lemma_nonempty_sysroot(
    local: Option<Seq<char>>,
    delegate_output: Option<Seq<char>>,
    built_in: Option<Seq<char>>,
)
    ensures
        full_sysroot_spec(local, delegate_output, built_in) matches Some(s) ==> s.len() > 0,
{
}

} // verus!
