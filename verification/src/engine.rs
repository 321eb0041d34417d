//! The process-wide engine: activation policy and device discovery run
//! exactly once, at initialization; afterwards the state is read-only.
//! A second initialization attempt leaves the first-computed state
//! untouched.

use vstd::prelude::*;
use crate::text::view_opt_ref;
use crate::policy::{policy_active, compute_activation};
use crate::discovery::{
    DrmEntry,
    DiscoveryResult,
    discover_nvidia,
    nvidia_nodes_spec,
    nvidia_bdfs_spec,
};
use crate::classify::HideState;

verus! {

/// Holds the hiding state of one process and guards its one-shot
/// initialization.
pub struct Engine {
    pub initialized: bool,
    pub state: HideState,
}

impl Engine {
    /// The engine before initialization: hiding provisionally active,
    /// nothing discovered.
    pub fn new() -> (r: Engine)
        ensures
            !r.initialized,
            r.state.active,
            r.state.nodes_view() == Seq::<Seq<char>>::empty(),
            r.state.bdfs_view() == Seq::<Seq<char>>::empty(),
    {
        Engine {
            initialized: false,
            state: HideState { active: true, discovery: DiscoveryResult::empty() },
        }
    }

    /// One-shot initialization from the process identity, the pattern-list
    /// sources and the enumerated device-class entries. Runs the activation
    /// policy, then discovery — only when active. A repeated call changes
    /// nothing: the first-computed state stands for the process lifetime.
    pub fn init(
        &mut self,
        exe_full: Option<&String>,
        env_allow: Option<&String>,
        env_deny: Option<&String>,
        allow_file: Option<&String>,
        deny_file: Option<&String>,
        entries: &Vec<DrmEntry>,
    )
        ensures
            final(self).initialized,
            old(self).initialized ==> *final(self) == *old(self),
            !old(self).initialized ==> final(self).state.active == policy_active(
                view_opt_ref(exe_full),
                view_opt_ref(env_allow),
                view_opt_ref(env_deny),
                view_opt_ref(allow_file),
                view_opt_ref(deny_file),
            ),
            !old(self).initialized && final(self).state.active ==> final(self).state.nodes_view()
                == nvidia_nodes_spec(entries@) && final(self).state.bdfs_view()
                == nvidia_bdfs_spec(entries@),
            !old(self).initialized && !final(self).state.active ==> final(self).state.nodes_view()
                == Seq::<Seq<char>>::empty() && final(self).state.bdfs_view() == Seq::<
                Seq<char>,
            >::empty(),
    {
        if self.initialized {
            return;
        }
        let active = compute_activation(exe_full, env_allow, env_deny, allow_file, deny_file);
        let discovery = if active {
            discover_nvidia(entries)
        } else {
            DiscoveryResult::empty()
        };
        self.state = HideState { active, discovery };
        self.initialized = true;
    }

    /// Read access to the process-wide hiding state.
    pub fn state(&self) -> (r: &HideState)
        ensures
            r == &self.state,
    {
        &self.state
    }
}

} // verus!
