//! Shell-style glob matching (`*`, `?`, `[...]`) of a candidate string
//! against a pattern, and its application to a process identity: a pattern
//! with a path separator is matched against the full executable path, one
//! without against the base name.
//!
//! The dialect is deliberately this subset and nothing more: `*`, `?`, and
//! bracket sets with ranges and `!`/`^` negation. A backslash is an
//! ordinary character, not an escape, and POSIX character classes
//! (`[[:digit:]]`) have no special meaning inside a set. Leading dots get
//! no special treatment and there is no brace expansion.

use vstd::prelude::*;
use vstd::string::*;
use crate::text::{
    find_from,
    lemma_find_from_props,
    lemma_find_from_shift,
    find_char_from,
    contains_char,
    str_contains_char,
};

verus! {

/// A bracket expression `[...]` at the head of `p` negates its set when the
/// first character inside is `!` or `^`.
pub open spec fn bracket_negated(p: Seq<char>) -> bool {
    p.len() >= 2 && (p[1] == '!' || p[1] == '^')
}

/// Index of the first character of the bracket set of `p` (past `[` and any
/// negation mark).
pub open spec fn bracket_set_start(p: Seq<char>) -> int {
    if bracket_negated(p) {
        2
    } else {
        1
    }
}

/// Index of the `]` that closes the bracket expression at the head of `p`;
/// a `]` standing first in the set is a literal member, not the close.
pub open spec fn bracket_close(p: Seq<char>) -> Option<int> {
    let start = bracket_set_start(p);
    let scan = if start < p.len() && p[start] == ']' {
        start + 1
    } else {
        start
    };
    find_from(p, ']', scan)
}

/// Membership of `c` in a bracket set: `a-b` is a range unless the `-`
/// stands first or last, every other character stands for itself.
pub open spec fn set_matches(content: Seq<char>, c: char) -> bool
    decreases content.len(),
{
    if content.len() == 0 {
        false
    } else if content.len() >= 3 && content[1] == '-' {
        (content[0] as u32 <= c as u32 && c as u32 <= content[2] as u32) || set_matches(
            content.skip(3),
            c,
        )
    } else {
        content[0] == c || set_matches(content.skip(1), c)
    }
}

/// Shell-glob matching of the whole of `s` against pattern `p`:
/// `*` matches any run, `?` any one character, `[...]` a set or range,
/// an unterminated `[` is a literal, and any other character — a
/// backslash included — matches itself. Leading dots get no special
/// treatment.
pub open spec fn glob_matches(p: Seq<char>, s: Seq<char>) -> bool
    decreases p.len() + s.len(),
{
    if p.len() == 0 {
        s.len() == 0
    } else if p[0] == '*' {
        glob_matches(p.skip(1), s) || (s.len() > 0 && glob_matches(p, s.skip(1)))
    } else if p[0] == '?' {
        s.len() > 0 && glob_matches(p.skip(1), s.skip(1))
    } else if p[0] == '[' && bracket_close(p) is Some && 1 <= bracket_close(p)->0 < p.len() {
        let close = bracket_close(p)->0;
        let content = p.subrange(bracket_set_start(p), close);
        s.len() > 0 && (set_matches(content, s[0]) != bracket_negated(p)) && glob_matches(
            p.skip(close + 1),
            s.skip(1),
        )
    } else {
        s.len() > 0 && s[0] == p[0] && glob_matches(p.skip(1), s.skip(1))
    }
}

/// Bracket-set membership, read from `p` between indices `lo` and `hi`.
fn set_match_at(p: &str, lo: usize, hi: usize, c: char) -> (r: bool)
    requires
        lo <= hi <= p@.len(),
    ensures
        r == set_matches(p@.subrange(lo as int, hi as int), c),
    decreases hi - lo,
{
    if lo == hi {
        return false;
    }
    if hi - lo >= 3 && p.get_char(lo + 1) == '-' {
        let lo_c = p.get_char(lo);
        let hi_c = p.get_char(lo + 2);
        if lo_c as u32 <= c as u32 && c as u32 <= hi_c as u32 {
            return true;
        }
        proof {
            assert(p@.subrange(lo as int, hi as int).skip(3) =~= p@.subrange(lo + 3, hi as int));
        }
        set_match_at(p, lo + 3, hi, c)
    } else {
        if p.get_char(lo) == c {
            return true;
        }
        proof {
            assert(p@.subrange(lo as int, hi as int).skip(1) =~= p@.subrange(lo + 1, hi as int));
        }
        set_match_at(p, lo + 1, hi, c)
    }
}

/// Glob matching of the suffixes of `p` and `s` that start at `pi` and `si`.
fn glob_at(p: &str, s: &str, pi: usize, si: usize) -> (r: bool)
    requires
        pi <= p@.len(),
        si <= s@.len(),
    ensures
        r == glob_matches(p@.skip(pi as int), s@.skip(si as int)),
    decreases p@.len() - pi + s@.len() - si,
{
    let np = p.unicode_len();
    let ns = s.unicode_len();
    proof {
        assert(p@.skip(pi as int).len() == np - pi);
        assert(s@.skip(si as int).len() == ns - si);
    }
    if pi == np {
        return si == ns;
    }
    let ghost suf = p@.skip(pi as int);
    proof {
        assert(suf[0] == p@[pi as int]);
        assert(suf.skip(1) =~= p@.skip(pi + 1));
        if si < ns {
            assert(s@.skip(si as int).skip(1) =~= s@.skip(si + 1));
            assert(s@.skip(si as int)[0] == s@[si as int]);
        }
    }
    let pc = p.get_char(pi);
    if pc == '*' {
        if glob_at(p, s, pi + 1, si) {
            return true;
        }
        if si < ns && glob_at(p, s, pi, si + 1) {
            return true;
        }
        return false;
    }
    if pc == '?' {
        return si < ns && glob_at(p, s, pi + 1, si + 1);
    }
    if pc == '[' {
        let negated = pi + 1 < np && (p.get_char(pi + 1) == '!' || p.get_char(pi + 1) == '^');
        let start = if negated {
            pi + 2
        } else {
            pi + 1
        };
        let scan = if start < np && p.get_char(start) == ']' {
            start + 1
        } else {
            start
        };
        proof {
            assert(bracket_negated(suf) == negated);
            assert(bracket_set_start(suf) == start - pi);
            if start < np {
                assert(suf[start - pi] == p@[start as int]);
            }
            lemma_find_from_shift(p@, ']', pi as int, scan - pi);
            assert(bracket_close(suf) == (match find_from(p@, ']', scan as int) {
                None => None::<int>,
                Some(j) => Some(j - pi),
            }));
        }
        let close_opt = find_char_from(p, ']', scan);
        match close_opt {
            None => {
                return si < ns && s.get_char(si) == '[' && glob_at(p, s, pi + 1, si + 1);
            },
            Some(close) => {
                proof {
                    lemma_find_from_props(p@, ']', scan as int);
                    assert(scan <= close < np);
                    assert(suf.subrange(bracket_set_start(suf), close - pi) =~= p@.subrange(
                        start as int,
                        close as int,
                    ));
                    assert(suf.skip(close - pi + 1) =~= p@.skip(close + 1));
                }
                if si == ns {
                    return false;
                }
                let inset = set_match_at(p, start, close, c_of(s, si));
                if inset != negated {
                    return glob_at(p, s, close + 1, si + 1);
                }
                return false;
            },
        }
    }
    si < ns && s.get_char(si) == pc && glob_at(p, s, pi + 1, si + 1)
}

/// One character of `s`, read at index `i`.
fn c_of(s: &str, i: usize) -> (c: char)
    requires
        i < s@.len(),
    ensures
        c == s@[i as int],
{
    s.get_char(i)
}

/// How a pattern applies to a process identity: a pattern with a path
/// separator is matched against the full path, one without against the
/// base name. Malformed input — a NUL character in the pattern or in the
/// string it selects, which no C string can carry — never matches.
pub open spec fn identity_matches(pat: Seq<char>, full: Seq<char>, base: Seq<char>) -> bool {
    if contains_char(pat, '\0') {
        false
    } else if contains_char(pat, '/') {
        !contains_char(full, '\0') && glob_matches(pat, full)
    } else {
        !contains_char(base, '\0') && glob_matches(pat, base)
    }
}

/// Matches one pattern against the process identity `(exe_full, exe_base)`.
/// Malformed (NUL-bearing) input yields `false`, never an error.
pub fn glob_match(pat: &str, exe_full: &str, exe_base: &str) -> (r: bool)
    ensures
        r == identity_matches(pat@, exe_full@, exe_base@),
{
    if str_contains_char(pat, '\0') {
        return false;
    }
    let slash = find_char_from(pat, '/', 0);
    proof {
        lemma_find_from_props(pat@, '/', 0);
        assert(pat@.skip(0) =~= pat@);
        assert(exe_full@.skip(0) =~= exe_full@);
        assert(exe_base@.skip(0) =~= exe_base@);
    }
    match slash {
        Some(_) => {
            if str_contains_char(exe_full, '\0') {
                false
            } else {
                glob_at(pat, exe_full, 0, 0)
            }
        },
        None => {
            if str_contains_char(exe_base, '\0') {
                false
            } else {
                glob_at(pat, exe_base, 0, 0)
            }
        },
    }
}

/// A pattern without a path separator reads only the base name: the full
/// path may be anything.
pub proof fn lemma_match_depends_only_on_base(
    pat: Seq<char>,
    full1: Seq<char>,
    full2: Seq<char>,
    base: Seq<char>,
)
    requires
        !contains_char(pat, '/'),
    ensures
        identity_matches(pat, full1, base) == identity_matches(pat, full2, base),
{
}

/// A pattern with a path separator reads only the full path: the base name
/// may be anything.
pub proof fn lemma_match_depends_only_on_full(
    pat: Seq<char>,
    full: Seq<char>,
    base1: Seq<char>,
    base2: Seq<char>,
)
    requires
        contains_char(pat, '/'),
    ensures
        identity_matches(pat, full, base1) == identity_matches(pat, full, base2),
{
}

} // verus!
