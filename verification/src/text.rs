//! Character-sequence utilities: trimming surrounding whitespace, substring
//! search, and extracting the file-name stem of a Unix-style path.

use vstd::prelude::*;
use vstd::string::StrSliceExecFns;
use vstd::string::StringExecFns;

verus! {

/// ASCII whitespace, the characters that trimming removes.  The delegate
/// compiler's self-reported sysroot ends in a newline; only ASCII whitespace
/// ever surrounds it.
pub open spec fn is_space_char(c: char) -> bool {
    c == ' ' || c == '\t' || c == '\n' || c == '\r' || c == '\u{b}' || c == '\u{c}'
}

/// The sequence with its leading whitespace removed.
pub open spec fn trim_front(s: Seq<char>) -> Seq<char>
    decreases s.len(),
{
    if s.len() > 0 && is_space_char(s.first()) {
        trim_front(s.drop_first())
    } else {
        s
    }
}

/// The sequence with its trailing whitespace removed.
pub open spec fn trim_back(s: Seq<char>) -> Seq<char>
    decreases s.len(),
{
    if s.len() > 0 && is_space_char(s.last()) {
        trim_back(s.drop_last())
    } else {
        s
    }
}

/// The sequence with whitespace removed from both ends.
pub open spec fn trimmed(s: Seq<char>) -> Seq<char> {
    trim_back(trim_front(s))
}

fn is_space(c: char) -> (r: bool)
    ensures
        r == is_space_char(c),
{
    c == ' ' || c == '\t' || c == '\n' || c == '\r' || c == '\u{b}' || c == '\u{c}'
}

fn trim_front_str(s: &str) -> (r: String)
    ensures
        r@ == trim_front(s@),
    decreases s@.len(),
{
    let n = s.unicode_len();
    if n > 0 && is_space(s.get_char(0)) {
        let rest = s.substring_char(1, n);
        proof {
            assert(rest@ =~= s@.drop_first());
        }
        trim_front_str(rest)
    } else {
        s.to_owned()
    }
}

fn trim_back_str(s: &str) -> (r: String)
    ensures
        r@ == trim_back(s@),
    decreases s@.len(),
{
    let n = s.unicode_len();
    if n > 0 && is_space(s.get_char(n - 1)) {
        let rest = s.substring_char(0, n - 1);
        proof {
            assert(rest@ =~= s@.drop_last());
        }
        trim_back_str(rest)
    } else {
        s.to_owned()
    }
}

/// Removes leading and trailing ASCII whitespace.
pub fn trim_str(s: &str) -> (r: String)
    ensures
        r@ == trimmed(s@),
{
    let front = trim_front_str(s);
    trim_back_str(front.as_str())
}

/// Whether `p` is a prefix of `s`.
pub open spec fn starts_with(s: Seq<char>, p: Seq<char>) -> bool {
    p.len() <= s.len() && s.subrange(0, p.len() as int) == p
}

/// Whether `p` occurs contiguously anywhere inside `s`.
pub open spec fn contains_sub(s: Seq<char>, p: Seq<char>) -> bool
    decreases s.len(),
{
    starts_with(s, p) || (s.len() > 0 && contains_sub(s.drop_first(), p))
}

fn starts_with_str(s: &str, p: &str) -> (r: bool)
    ensures
        r == starts_with(s@, p@),
    decreases p@.len(),
{
    let sn = s.unicode_len();
    let pn = p.unicode_len();
    if pn > sn {
        false
    } else if pn == 0 {
        proof {
            assert(s@.subrange(0, 0) =~= p@);
        }
        true
    } else if s.get_char(0) == p.get_char(0) {
        let s_rest = s.substring_char(1, sn);
        let p_rest = p.substring_char(1, pn);
        proof {
            assert(s_rest@ =~= s@.drop_first());
            assert(p_rest@ =~= p@.drop_first());
        }
        let r = starts_with_str(s_rest, p_rest);
        proof {
            if r {
                assert forall|i: int| 0 <= i < p@.len() implies s@.subrange(
                    0,
                    p@.len() as int,
                )[i] == p@[i] by {
                    if i > 0 {
                        assert(s@.drop_first().subrange(0, p@.len() - 1)[i - 1]
                            == p@.drop_first()[i - 1]);
                    }
                }
                assert(s@.subrange(0, p@.len() as int) =~= p@);
            } else {
                if starts_with(s@, p@) {
                    assert forall|i: int| 0 <= i < p@.len() - 1 implies s@.drop_first().subrange(
                        0,
                        p@.len() - 1,
                    )[i] == p@.drop_first()[i] by {
                        assert(s@.subrange(0, p@.len() as int)[i + 1] == p@[i + 1]);
                    }
                    assert(s@.drop_first().subrange(0, p@.len() - 1) =~= p@.drop_first());
                    assert(starts_with(s@.drop_first(), p@.drop_first()));
                }
            }
        }
        r
    } else {
        proof {
            if starts_with(s@, p@) {
                assert(s@.subrange(0, p@.len() as int)[0] == p@[0]);
            }
        }
        false
    }
}

/// Whether the string `p` occurs contiguously anywhere inside `s`.
pub fn contains_str(s: &str, p: &str) -> (r: bool)
    ensures
        r == contains_sub(s@, p@),
    decreases s@.len(),
{
    if starts_with_str(s, p) {
        true
    } else {
        let n = s.unicode_len();
        if n == 0 {
            false
        } else {
            let rest = s.substring_char(1, n);
            proof {
                assert(rest@ =~= s@.drop_first());
            }
            contains_str(rest, p)
        }
    }
}

/// The sequence with trailing path separators removed.
pub open spec fn drop_trailing_slashes(s: Seq<char>) -> Seq<char>
    decreases s.len(),
{
    if s.len() > 0 && s.last() == '/' {
        drop_trailing_slashes(s.drop_last())
    } else {
        s
    }
}

/// The suffix after the last path separator; the whole sequence when no
/// separator occurs.
pub open spec fn after_last_slash(s: Seq<char>) -> Seq<char>
    decreases s.len(),
{
    if s.len() == 0 {
        s
    } else if s.last() == '/' {
        Seq::<char>::empty()
    } else {
        after_last_slash(s.drop_last()).push(s.last())
    }
}

/// The index of the last `.` in the sequence, if any.
pub open spec fn last_dot_pos(s: Seq<char>) -> Option<int>
    decreases s.len(),
{
    if s.len() == 0 {
        None
    } else if s.last() == '.' {
        Some(s.len() - 1)
    } else {
        last_dot_pos(s.drop_last())
    }
}

/// The final component of a Unix-style path: trailing separators are
/// ignored, then everything after the last remaining separator is taken.
pub open spec fn file_name_of(s: Seq<char>) -> Seq<char> {
    after_last_slash(drop_trailing_slashes(s))
}

/// The stem of a file name: the portion before the last `.`, unless the
/// only `.` is the leading character (a hidden file keeps its full name).
pub open spec fn stem_of_name(name: Seq<char>) -> Seq<char> {
    match last_dot_pos(name) {
        Some(j) => if j > 0 {
            name.subrange(0, j)
        } else {
            name
        },
        None => name,
    }
}

/// The file-name stem of a Unix-style path.
pub open spec fn file_stem_of(s: Seq<char>) -> Seq<char> {
    stem_of_name(file_name_of(s))
}

fn drop_trailing_slashes_str(s: &str) -> (r: String)
    ensures
        r@ == drop_trailing_slashes(s@),
    decreases s@.len(),
{
    let n = s.unicode_len();
    if n > 0 && s.get_char(n - 1) == '/' {
        let rest = s.substring_char(0, n - 1);
        proof {
            assert(rest@ =~= s@.drop_last());
        }
        drop_trailing_slashes_str(rest)
    } else {
        s.to_owned()
    }
}

fn after_last_slash_str(s: &str) -> (r: String)
    ensures
        r@ == after_last_slash(s@),
    decreases s@.len(),
{
    let n = s.unicode_len();
    if n == 0 {
        String::new()
    } else if s.get_char(n - 1) == '/' {
        String::new()
    } else {
        let head = s.substring_char(0, n - 1);
        proof {
            assert(head@ =~= s@.drop_last());
        }
        let mut r = after_last_slash_str(head);
        r.append(s.substring_char(n - 1, n));
        proof {
            assert(r@ =~= after_last_slash(s@.drop_last()).push(s@.last()));
        }
        r
    }
}

fn last_dot_str(s: &str) -> (r: Option<usize>)
    ensures
        match r {
            Some(j) => last_dot_pos(s@) == Some(j as int) && j < s@.len(),
            None => last_dot_pos(s@) is None,
        },
    decreases s@.len(),
{
    let n = s.unicode_len();
    if n == 0 {
        None
    } else if s.get_char(n - 1) == '.' {
        Some(n - 1)
    } else {
        let head = s.substring_char(0, n - 1);
        proof {
            assert(head@ =~= s@.drop_last());
        }
        last_dot_str(head)
    }
}

/// The file-name stem of a Unix-style path, as `file_stem_of` states it.
pub fn file_stem_str(s: &str) -> (r: String)
    ensures
        r@ == file_stem_of(s@),
{
    let base = drop_trailing_slashes_str(s);
    let name = after_last_slash_str(base.as_str());
    let dot = last_dot_str(name.as_str());
    match dot {
        Some(j) if j > 0 => name.as_str().substring_char(0, j).to_owned(),
        _ => name,
    }
}

} // verus!
