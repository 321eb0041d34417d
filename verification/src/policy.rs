//! Activation policy: decides once per process whether hiding is active,
//! from the process's executable identity and the allow/deny pattern lists.
//! An allowlist, once configured, is opt-in: a process not on it is left
//! alone. A matching deny pattern exempts the process unconditionally. A
//! missing identity leaves hiding active (fail-open).

use vstd::prelude::*;
use vstd::string::*;
use crate::text::{basename, basename_spec, view_opt_ref};
use crate::lists::{
    env_has_match,
    file_has_match,
    file_has_entries,
    env_list_has_match,
    file_list_has_match,
};

verus! {

/// Some pattern of the list, taken from the environment value or the file
/// text, matches the identity `(full, base)`.
pub open spec fn list_matches(
    env: Option<Seq<char>>,
    file: Option<Seq<char>>,
    full: Seq<char>,
    base: Seq<char>,
) -> bool {
    (env matches Some(v) && env_has_match(v, full, base)) || (file matches Some(t)
        && file_has_match(t, full, base))
}

/// The list is configured: its environment value is present and non-empty,
/// or its file has at least one usable entry.
pub open spec fn list_configured(env: Option<Seq<char>>, file: Option<Seq<char>>) -> bool {
    (env matches Some(v) && v.len() > 0) || (file matches Some(t) && file_has_entries(t))
}

/// The activation decision. `exe_full` is the process's executable path,
/// `None` when it could not be read: the policy step is then skipped and
/// hiding stays active. Otherwise hiding starts active, is switched off
/// when an allowlist is configured and no allow pattern matches, and is
/// switched off unconditionally when a deny pattern matches.
pub open spec fn policy_active(
    exe_full: Option<Seq<char>>,
    env_allow: Option<Seq<char>>,
    env_deny: Option<Seq<char>>,
    allow_file: Option<Seq<char>>,
    deny_file: Option<Seq<char>>,
) -> bool {
    match exe_full {
        None => true,
        Some(full) => {
            let base = basename_spec(full);
            let allow_match = list_matches(env_allow, allow_file, full, base);
            let deny_match = list_matches(env_deny, deny_file, full, base);
            let has_allow = list_configured(env_allow, allow_file);
            !((has_allow && !allow_match) || deny_match)
        },
    }
}

/// Computes the activation decision from the process identity, the two
/// environment values and the two list-file texts.
pub fn compute_activation(
    exe_full: Option<&String>,
    env_allow: Option<&String>,
    env_deny: Option<&String>,
    allow_file: Option<&String>,
    deny_file: Option<&String>,
) -> (active: bool)
    ensures
        active == policy_active(
            view_opt_ref(exe_full),
            view_opt_ref(env_allow),
            view_opt_ref(env_deny),
            view_opt_ref(allow_file),
            view_opt_ref(deny_file),
        ),
{
    match exe_full {
        None => true,
        Some(full) => {
            let base = basename(full.as_str());
            let allow_env = env_list_has_match(env_allow, full.as_str(), base);
            let deny_env = env_list_has_match(env_deny, full.as_str(), base);
            let allow_from_file = file_list_has_match(allow_file, full.as_str(), base);
            let deny_from_file = file_list_has_match(deny_file, full.as_str(), base);
            let env_allow_nonempty = match env_allow {
                Some(v) => v.as_str().unicode_len() > 0,
                None => false,
            };
            let has_allow = env_allow_nonempty || allow_from_file.1;
            let allow_match = allow_env || allow_from_file.0;
            let deny_match = deny_env || deny_from_file.0;
            let mut active = true;
            if has_allow && !allow_match {
                active = false;
            }
            if deny_match {
                active = false;
            }
            active
        },
    }
}

/// With no allowlist and no denylist configured and no pattern of either
/// matching the identity, hiding is active.
pub proof fn lemma_unconfigured_stays_active(
    exe_full: Seq<char>,
    env_allow: Option<Seq<char>>,
    env_deny: Option<Seq<char>>,
    allow_file: Option<Seq<char>>,
    deny_file: Option<Seq<char>>,
)
    requires
        !list_configured(env_allow, allow_file),
        !list_configured(env_deny, deny_file),
        !list_matches(env_allow, allow_file, exe_full, basename_spec(exe_full)),
        !list_matches(env_deny, deny_file, exe_full, basename_spec(exe_full)),
    ensures
        policy_active(Some(exe_full), env_allow, env_deny, allow_file, deny_file),
{
}

/// Once an allowlist is configured, a process that no allow pattern matches
/// is not hidden from, whatever the deny configuration says.
pub proof fn lemma_allowlist_is_opt_in(
    exe_full: Seq<char>,
    env_allow: Option<Seq<char>>,
    env_deny: Option<Seq<char>>,
    allow_file: Option<Seq<char>>,
    deny_file: Option<Seq<char>>,
)
    requires
        list_configured(env_allow, allow_file),
        !list_matches(env_allow, allow_file, exe_full, basename_spec(exe_full)),
    ensures
        !policy_active(Some(exe_full), env_allow, env_deny, allow_file, deny_file),
{
}

/// A matching deny pattern switches hiding off, even when an allow pattern
/// also matches.
pub proof fn lemma_deny_overrides_allow(
    exe_full: Seq<char>,
    env_allow: Option<Seq<char>>,
    env_deny: Option<Seq<char>>,
    allow_file: Option<Seq<char>>,
    deny_file: Option<Seq<char>>,
)
    requires
        list_matches(env_deny, deny_file, exe_full, basename_spec(exe_full)),
    ensures
        !policy_active(Some(exe_full), env_allow, env_deny, allow_file, deny_file),
{
}

} // verus!
