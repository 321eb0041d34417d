//! List sources: allow/deny patterns come from a colon-separated
//! environment value and from a line-oriented configuration file. Tokens
//! are trimmed; empty tokens, blank lines and `#` comment lines are
//! ignored. Reading the environment and the file happens outside this
//! crate; this module gets their text, or `None` where it was unreadable.

use vstd::prelude::*;
use vstd::string::*;
use crate::text::{find_from, lemma_find_from_props, find_char_from, trim, trim_spec, view_opt_ref};
use crate::glob::{identity_matches, glob_match};

verus! {

/// Some `:`-separated token of `v`, once trimmed, is non-empty and matches
/// the identity `(full, base)`.
pub open spec fn env_has_match(v: Seq<char>, full: Seq<char>, base: Seq<char>) -> bool
    decreases v.len(),
{
    let j = find_from(v, ':', 0);
    if j is Some && 0 <= j->0 < v.len() {
        let t = trim_spec(v.subrange(0, j->0));
        (t.len() > 0 && identity_matches(t, full, base)) || env_has_match(
            v.skip(j->0 + 1),
            full,
            base,
        )
    } else {
        let t = trim_spec(v);
        t.len() > 0 && identity_matches(t, full, base)
    }
}

fn env_str_has_match(v: &str, exe_full: &str, exe_base: &str) -> (r: bool)
    ensures
        r == env_has_match(v@, exe_full@, exe_base@),
    decreases v@.len(),
{
    let n = v.unicode_len();
    let colon = find_char_from(v, ':', 0);
    match colon {
        None => {
            let t = trim(v);
            if t.unicode_len() > 0 {
                glob_match(t, exe_full, exe_base)
            } else {
                false
            }
        },
        Some(j) => {
            proof {
                lemma_find_from_props(v@, ':', 0);
            }
            let head = v.substring_char(0, j);
            let t = trim(head);
            if t.unicode_len() > 0 && glob_match(t, exe_full, exe_base) {
                true
            } else {
                let rest = v.substring_char(j + 1, n);
                proof {
                    assert(rest@ =~= v@.skip(j + 1));
                }
                env_str_has_match(rest, exe_full, exe_base)
            }
        },
    }
}

/// Matches the process identity against a colon-separated environment
/// pattern list; an absent or empty value matches nothing.
pub fn env_list_has_match(envval: Option<&String>, exe_full: &str, exe_base: &str) -> (r: bool)
    ensures
        r == (view_opt_ref(envval) matches Some(v) && env_has_match(v, exe_full@, exe_base@)),
{
    match envval {
        None => false,
        Some(v) => env_str_has_match(v.as_str(), exe_full, exe_base),
    }
}

/// A file line is a usable entry when it is non-empty after trimming and
/// its first character is not `#`.
pub open spec fn line_is_entry(line: Seq<char>) -> bool {
    let t = trim_spec(line);
    t.len() > 0 && t[0] != '#'
}

/// Some line of `text` is a usable entry.
pub open spec fn file_has_entries(text: Seq<char>) -> bool
    decreases text.len(),
{
    let j = find_from(text, '\n', 0);
    if j is Some && 0 <= j->0 < text.len() {
        line_is_entry(text.subrange(0, j->0)) || file_has_entries(text.skip(j->0 + 1))
    } else {
        line_is_entry(text)
    }
}

/// Some usable entry line of `text`, once trimmed, matches the identity.
pub open spec fn file_has_match(text: Seq<char>, full: Seq<char>, base: Seq<char>) -> bool
    decreases text.len(),
{
    let j = find_from(text, '\n', 0);
    if j is Some && 0 <= j->0 < text.len() {
        let line = text.subrange(0, j->0);
        (line_is_entry(line) && identity_matches(trim_spec(line), full, base)) || file_has_match(
            text.skip(j->0 + 1),
            full,
            base,
        )
    } else {
        line_is_entry(text) && identity_matches(trim_spec(text), full, base)
    }
}

fn file_str_has_match(text: &str, exe_full: &str, exe_base: &str) -> (r: (bool, bool))
    ensures
        r.0 == file_has_match(text@, exe_full@, exe_base@),
        r.1 == file_has_entries(text@),
    decreases text@.len(),
{
    let n = text.unicode_len();
    let nl = find_char_from(text, '\n', 0);
    match nl {
        None => {
            let t = trim(text);
            let entry = t.unicode_len() > 0 && t.get_char(0) != '#';
            if entry && glob_match(t, exe_full, exe_base) {
                (true, true)
            } else {
                (false, entry)
            }
        },
        Some(j) => {
            proof {
                lemma_find_from_props(text@, '\n', 0);
            }
            let head = text.substring_char(0, j);
            let t = trim(head);
            let entry = t.unicode_len() > 0 && t.get_char(0) != '#';
            if entry && glob_match(t, exe_full, exe_base) {
                (true, true)
            } else {
                let rest = text.substring_char(j + 1, n);
                proof {
                    assert(rest@ =~= text@.skip(j + 1));
                }
                let sub = file_str_has_match(rest, exe_full, exe_base);
                (sub.0, entry || sub.1)
            }
        },
    }
}

/// Matches the process identity against a line-oriented pattern-list file.
/// Returns `(matched, had_entries)`; an unreadable file (`None`) is an
/// empty list with no entries.
pub fn file_list_has_match(text: Option<&String>, exe_full: &str, exe_base: &str) -> (r: (
    bool,
    bool,
))
    ensures
        r.0 == (view_opt_ref(text) matches Some(t) && file_has_match(t, exe_full@, exe_base@)),
        r.1 == (view_opt_ref(text) matches Some(t) && file_has_entries(t)),
{
    match text {
        None => (false, false),
        Some(t) => file_str_has_match(t.as_str(), exe_full, exe_base),
    }
}

/// A verbosity-style environment value is enabled when present, non-empty
/// and not `"0"`.
pub open spec fn value_is_truthy(v: Option<Seq<char>>) -> bool {
    match v {
        Some(s) => s.len() > 0 && s != "0"@,
        None => false,
    }
}

pub fn env_is_truthy(value: Option<&String>) -> (r: bool)
    ensures
        r == value_is_truthy(view_opt_ref(value)),
{
    match value {
        None => false,
        Some(v) => {
            let nonempty = v.as_str().unicode_len() > 0;
            let zero = crate::text::str_eq(v.as_str(), "0");
            nonempty && !zero
        },
    }
}

/// Configuration location of a list file: under `XDG_CONFIG_HOME` when that
/// is set, else under `HOME/.config`, else an unreachable placeholder.
pub open spec fn xdg_path_spec(
    xdg: Option<Seq<char>>,
    home: Option<Seq<char>>,
    leaf: Seq<char>,
) -> Seq<char> {
    match xdg {
        Some(x) => x + "/nvidia-hide/"@ + leaf,
        None => match home {
            Some(h) => h + "/.config/nvidia-hide/"@ + leaf,
            None => "/nonexistent/"@ + leaf,
        },
    }
}

pub fn xdg_path(xdg: Option<&String>, home: Option<&String>, leaf: &str) -> (r: String)
    ensures
        r@ == xdg_path_spec(view_opt_ref(xdg), view_opt_ref(home), leaf@),
{
    match xdg {
        Some(x) => {
            let mut out = x.clone();
            out.append("/nvidia-hide/");
            out.append(leaf);
            out
        },
        None => match home {
            Some(h) => {
                let mut out = h.clone();
                out.append("/.config/nvidia-hide/");
                out.append(leaf);
                out
            },
            None => {
                let mut out = String::from_str("/nonexistent/");
                out.append(leaf);
                out
            },
        },
    }
}

} // verus!
