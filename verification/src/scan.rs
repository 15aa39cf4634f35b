//! The argument scanner: locates a named option's value in a flat token
//! list, supporting both `--opt=value` and `--opt value` forms, under a
//! caller-supplied acceptance predicate.

use vstd::prelude::*;
use vstd::string::StrSliceExecFns;

verus! {

/// The index of the first `=` in a token, if any.
pub open spec fn first_eq(s: Seq<char>) -> Option<int>
    decreases s.len(),
{
    if s.len() == 0 {
        None
    } else if s.first() == '=' {
        Some(0int)
    } else {
        match first_eq(s.drop_first()) {
            Some(j) => Some(j + 1),
            None => None,
        }
    }
}

/// The part of a token before its first `=`; the whole token when it has
/// none.  An option token matches only when this equals the sought name
/// exactly.
pub open spec fn name_part(tok: Seq<char>) -> Seq<char> {
    match first_eq(tok) {
        Some(j) => tok.subrange(0, j),
        None => tok,
    }
}

/// The part of a token after its first `=`, when it has one.
pub open spec fn value_part(tok: Seq<char>) -> Option<Seq<char>> {
    match first_eq(tok) {
        Some(j) => Some(tok.subrange(j + 1, tok.len() as int)),
        None => None,
    }
}

/// Where a token holds a `=` at `j` and none before it, the split happens
/// exactly there.
pub proof fn lemma_first_eq_at(s: Seq<char>, j: int)
    requires
        0 <= j < s.len(),
        s[j] == '=',
        forall|k: int| 0 <= k < j ==> s[k] != '=',
    ensures
        first_eq(s) == Some(j),
    decreases s.len(),
{
    if j > 0 {
        lemma_first_eq_at(s.drop_first(), j - 1);
    }
}

/// A token without `=` is not split at all.
pub proof fn lemma_first_eq_none(s: Seq<char>)
    requires
        forall|k: int| 0 <= k < s.len() ==> s[k] != '=',
    ensures
        first_eq(s) is None,
    decreases s.len(),
{
    if s.len() > 0 {
        lemma_first_eq_none(s.drop_first());
    }
}

fn find_eq_str(s: &str) -> (r: Option<usize>)
    ensures
        match r {
            Some(j) => first_eq(s@) == Some(j as int) && j < s@.len(),
            None => first_eq(s@) is None,
        },
    decreases s@.len(),
{
    let n = s.unicode_len();
    if n == 0 {
        None
    } else if s.get_char(0) == '=' {
        Some(0)
    } else {
        let rest = s.substring_char(1, n);
        proof {
            assert(rest@ =~= s@.drop_first());
        }
        match find_eq_str(rest) {
            Some(j) => Some(j + 1),
            None => None,
        }
    }
}

/// Splits a token at its first `=` into the option name and, when the `=`
/// form was used, the attached value.
pub(crate) fn split_token(tok: &String) -> (r: (String, Option<String>))
    ensures
        r.0@ == name_part(tok@),
        match r.1 {
            Some(v) => value_part(tok@) == Some(v@),
            None => value_part(tok@) is None,
        },
{
    let s = tok.as_str();
    let n = s.unicode_len();
    match find_eq_str(s) {
        Some(j) => {
            let name = s.substring_char(0, j).to_owned();
            let value = s.substring_char(j + 1, n).to_owned();
            (name, Some(value))
        },
        None => (s.to_owned(), None),
    }
}

/// The left-to-right scan with every candidate accepted, started at token
/// `i`: the first token whose name part equals `name` yields its `=` value,
/// or else the following token; a final name token with neither yields
/// nothing.
pub open spec fn scan_from(tokens: Seq<Seq<char>>, name: Seq<char>, i: int) -> Option<Seq<char>>
    decreases tokens.len() - i,
{
    if i < 0 || i >= tokens.len() {
        None
    } else if name_part(tokens[i]) == name {
        match value_part(tokens[i]) {
            Some(v) => Some(v),
            None => if i + 1 < tokens.len() {
                Some(tokens[i + 1])
            } else {
                None
            },
        }
    } else {
        scan_from(tokens, name, i + 1)
    }
}

/// The value of the first occurrence of option `name` in the token list,
/// with every candidate accepted.
pub open spec fn first_option_value(tokens: Seq<Seq<char>>, name: Seq<char>) -> Option<Seq<char>> {
    scan_from(tokens, name, 0)
}

/// The predicate can answer `true` on some string whose characters are `v`.
pub open spec fn accepts<F: Fn(&str) -> bool>(pred: F, v: Seq<char>) -> bool {
    exists|s: &str| s@ == v && call_ensures(pred, (s,), true)
}

/// The predicate can answer `false` on some string whose characters are `v`.
pub open spec fn rejects<F: Fn(&str) -> bool>(pred: F, v: Seq<char>) -> bool {
    exists|s: &str| s@ == v && call_ensures(pred, (s,), false)
}

/// `r` is a possible outcome of scanning for `name` from token `i` on: each
/// candidate in turn is the `=` value of a token whose name part equals
/// `name` exactly, or the token following it (consumed, not re-scanned);
/// the first candidate the predicate accepts is the result, a rejected one
/// resumes the scan behind it, and the scan yields nothing when no further
/// occurrence exists.
pub open spec fn scan_rel<F: Fn(&str) -> bool>(
    pred: F,
    tokens: Seq<Seq<char>>,
    name: Seq<char>,
    i: int,
    r: Option<Seq<char>>,
) -> bool
    decreases tokens.len() - i,
{
    if i < 0 || i >= tokens.len() {
        r is None
    } else if name_part(tokens[i]) == name {
        match value_part(tokens[i]) {
            Some(v) => (accepts(pred, v) && r == Some(v)) || (rejects(pred, v) && scan_rel(
                pred,
                tokens,
                name,
                i + 1,
                r,
            )),
            None => if i + 1 < tokens.len() {
                (accepts(pred, tokens[i + 1]) && r == Some(tokens[i + 1])) || (rejects(
                    pred,
                    tokens[i + 1],
                ) && scan_rel(pred, tokens, name, i + 2, r))
            } else {
                r is None
            },
        }
    } else {
        scan_rel(pred, tokens, name, i + 1, r)
    }
}

/// Scans `args` left to right for the option `find_arg`, written either as
/// `--opt=value` or as `--opt value`, and returns the first candidate value
/// that `pred` accepts.
pub fn arg_value<F: Fn(&str) -> bool>(args: &Vec<String>, find_arg: &str, pred: F) -> (r: Option<
    String,
>)
    requires
        forall|s: &str| #[trigger] call_requires(pred, (s,)),
    ensures
        scan_rel(pred, args.deep_view(), find_arg@, 0, r.deep_view()),
{
    let ghost toks = args.deep_view();
    let name_owned = find_arg.to_owned();
    let mut i: usize = 0;
    while i < args.len()
        invariant
            i <= args.len(),
            toks == args.deep_view(),
            name_owned@ == find_arg@,
            forall|s: &str| #[trigger] call_requires(pred, (s,)),
            forall|res: Option<Seq<char>>|
                scan_rel(pred, toks, find_arg@, i as int, res) ==> scan_rel(
                    pred,
                    toks,
                    find_arg@,
                    0,
                    res,
                ),
        decreases args.len() - i,
    {
        proof {
            assert(toks[i as int] == args@[i as int]@);
        }
        let (name_i, val_i) = split_token(&args[i]);
        if name_i == name_owned {
            match val_i {
                Some(v) => {
                    let vs = v.as_str();
                    let ok = pred(vs);
                    if ok {
                        proof {
                            assert(vs@ == value_part(toks[i as int])->0 && call_ensures(
                                pred,
                                (vs,),
                                true,
                            ));
                            assert(scan_rel(pred, toks, find_arg@, i as int, Some(v@)));
                        }
                        return Some(v);
                    }
                    proof {
                        assert(vs@ == value_part(toks[i as int])->0 && call_ensures(
                            pred,
                            (vs,),
                            false,
                        ));
                        assert(rejects(pred, value_part(toks[i as int])->0));
                    }
                    i = i + 1;
                },
                None => {
                    if i + 1 < args.len() {
                        proof {
                            assert(toks[i + 1] == args@[i + 1]@);
                        }
                        let v = args[i + 1].clone();
                        let vs = v.as_str();
                        let ok = pred(vs);
                        if ok {
                            proof {
                                assert(vs@ == toks[i + 1] && call_ensures(pred, (vs,), true));
                                assert(scan_rel(pred, toks, find_arg@, i as int, Some(v@)));
                            }
                            return Some(v);
                        }
                        proof {
                            assert(vs@ == toks[i + 1] && call_ensures(pred, (vs,), false));
                            assert(rejects(pred, toks[i + 1]));
                        }
                        i = i + 2;
                    } else {
                        proof {
                            assert forall|res: Option<Seq<char>>|
                                scan_rel(pred, toks, find_arg@, i + 1, res) implies scan_rel(
                                pred,
                                toks,
                                find_arg@,
                                i as int,
                                res,
                            ) by {
                                assert(res is None);
                            }
                        }
                        i = i + 1;
                    }
                },
            }
        } else {
            i = i + 1;
        }
    }
    proof {
        assert(scan_rel(pred, toks, find_arg@, i as int, None::<Seq<char>>));
    }
    None
}

/// Finds the value of the first occurrence of option `name`, accepting any
/// candidate: the degenerate always-true form of the scan.
pub fn find_option(args: &Vec<String>, name: &str) -> (r: Option<String>)
    ensures
        r.deep_view() == first_option_value(args.deep_view(), name@),
{
    let ghost toks = args.deep_view();
    let name_owned = name.to_owned();
    let mut i: usize = 0;
    while i < args.len()
        invariant
            i <= args.len(),
            toks == args.deep_view(),
            name_owned@ == name@,
            first_option_value(toks, name@) == scan_from(toks, name@, i as int),
        decreases args.len() - i,
    {
        proof {
            assert(toks[i as int] == args@[i as int]@);
        }
        let (name_i, val_i) = split_token(&args[i]);
        if name_i == name_owned {
            match val_i {
                Some(v) => {
                    return Some(v);
                },
                None => {
                    if i + 1 < args.len() {
                        proof {
                            assert(toks[i + 1] == args@[i + 1]@);
                        }
                        return Some(args[i + 1].clone());
                    } else {
                        return None;
                    }
                },
            }
        }
        i = i + 1;
    }
    None
}

/// Law: a predicate that never answers `false` leaves the scanner exactly
/// one possible outcome, the plain first-occurrence value of the option.
pub proof fn lemma_scan_first_value<F: Fn(&str) -> bool>(
    pred: F,
    tokens: Seq<Seq<char>>,
    name: Seq<char>,
    i: int,
    r: Option<Seq<char>>,
)
    requires
        scan_rel(pred, tokens, name, i, r),
        forall|s: &str, b: bool| call_ensures(pred, (s,), b) ==> b,
    ensures
        r == scan_from(tokens, name, i),
    decreases tokens.len() - i,
{
    if i < 0 || i >= tokens.len() {
    } else if name_part(tokens[i]) == name {
        match value_part(tokens[i]) {
            Some(v) => {
                if rejects(pred, v) {
                    let s = choose|s: &str| s@ == v && call_ensures(pred, (s,), false);
                    assert(false);
                }
            },
            None => {
                if i + 1 < tokens.len() {
                    if rejects(pred, tokens[i + 1]) {
                        let s = choose|s: &str|
                            s@ == tokens[i + 1] && call_ensures(pred, (s,), false);
                        assert(false);
                    }
                }
            },
        }
    } else {
        lemma_scan_first_value(pred, tokens, name, i + 1, r);
    }
}

/// Law: a name that no token carries before its first `=` is never matched,
/// however often it occurs inside tokens: the scan finds nothing.
pub proof fn lemma_scan_exact_name(tokens: Seq<Seq<char>>, name: Seq<char>, i: int)
    requires
        forall|k: int| 0 <= k < tokens.len() ==> name_part(#[trigger] tokens[k]) != name,
    ensures
        scan_from(tokens, name, i) is None,
    decreases tokens.len() - i,
{
    if 0 <= i < tokens.len() {
        lemma_scan_exact_name(tokens, name, i + 1);
    }
}

} // verus!
