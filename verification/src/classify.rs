//! Classification rules: pure predicates, consulted on every intercepted
//! call, that decide whether a path, a shared-library name or a directory
//! entry must be hidden. All are gated by the activation decision: when
//! hiding is inactive every predicate says "not hidden".

use vstd::prelude::*;
use vstd::string::*;
use crate::text::{
    find_from,
    find_char_from,
    lemma_find_from_props,
    has_prefix,
    str_has_prefix,
    contains_sub,
    str_contains,
    str_eq,
};
use crate::discovery::DiscoveryResult;

verus! {

/// The path names a device node of the hidden family directly.
pub open spec fn dev_nvidia_prefix(path: Seq<char>) -> bool {
    has_prefix(path, "/dev/nvidia"@)
}

/// The path is a discovered DRM node under `/dev/dri`, or a by-path entry
/// that mentions a discovered PCI address.
pub open spec fn nvidia_dri_path_spec(
    path: Seq<char>,
    nodes: Seq<Seq<char>>,
    bdfs: Seq<Seq<char>>,
) -> bool {
    (exists|i: int| 0 <= i < nodes.len() && path == "/dev/dri/"@ + nodes[i]) || (has_prefix(
        path,
        "/dev/dri/by-path/"@,
    ) && exists|i: int| 0 <= i < bdfs.len() && contains_sub(path, #[trigger] bdfs[i]))
}

/// The path reads PCI configuration space of a discovered address: it
/// holds `/config` and also `/<address>/config`.
pub open spec fn blocked_pci_config_spec(path: Seq<char>, bdfs: Seq<Seq<char>>) -> bool {
    contains_sub(path, "/config"@) && exists|i: int|
        0 <= i < bdfs.len() && contains_sub(path, "/"@ + #[trigger] bdfs[i] + "/config"@)
}

/// A file open of `path` must be denied: the path names the vendor's device
/// nodes, a discovered DRM node or by-path entry, a vendor userspace API or
/// driver-library location, or the PCI configuration space of a discovered
/// address.
pub open spec fn should_block_open_spec(
    path: Seq<char>,
    active: bool,
    nodes: Seq<Seq<char>>,
    bdfs: Seq<Seq<char>>,
) -> bool {
    active && (dev_nvidia_prefix(path) || nvidia_dri_path_spec(path, nodes, bdfs) || has_prefix(
        path,
        "/usr/share/vulkan/icd.d/nvidia"@,
    ) || has_prefix(path, "/usr/share/vulkan/implicit_layer.d/nvidia"@) || contains_sub(
        path,
        "nvidia-drm_gbm.so"@,
    ) || contains_sub(path, "libGLX_nvidia.so"@) || has_prefix(path, "/usr/lib/libnvidia-"@)
        || blocked_pci_config_spec(path, bdfs))
}

/// A dynamic-library open of `name` must be denied: the name holds one of
/// the vendor's shared-library fragments (a substring test, since requests
/// may use bare names resolved via a search path).
pub open spec fn should_block_dlopen_spec(name: Seq<char>, active: bool) -> bool {
    active && (contains_sub(name, "libGLX_nvidia"@) || contains_sub(name, "nvidia-drm_gbm.so"@)
        || contains_sub(name, "libnvidia-"@) || contains_sub(name, "/usr/lib/libnvidia-"@))
}

/// The PCI address with its domain segment stripped: what follows the first
/// `:`.
pub open spec fn bdf_short(bdf: Seq<char>) -> Option<Seq<char>> {
    match find_from(bdf, ':', 0) {
        Some(j) => Some(bdf.skip(j + 1)),
        None => None,
    }
}

/// The entry name mentions the address, in full or in its domain-stripped
/// short form.
pub open spec fn name_mentions_bdf(name: Seq<char>, bdf: Seq<char>) -> bool {
    contains_sub(name, bdf) || (bdf_short(bdf) matches Some(s) && s.len() > 0 && contains_sub(
        name,
        s,
    ))
}

/// A directory entry must be hidden from enumeration: its name starts with
/// the vendor prefix, equals a discovered node, or mentions a discovered
/// PCI address.
pub open spec fn hidden_entry_spec(
    name: Seq<char>,
    active: bool,
    nodes: Seq<Seq<char>>,
    bdfs: Seq<Seq<char>>,
) -> bool {
    active && (has_prefix(name, "nvidia"@) || nodes.contains(name) || exists|i: int|
        0 <= i < bdfs.len() && name_mentions_bdf(name, #[trigger] bdfs[i]))
}

/// The process-wide state every intercepted call consults: the one-shot
/// activation decision and the discovery result. Write-once at
/// initialization, read-only afterwards.
pub struct HideState {
    pub active: bool,
    pub discovery: DiscoveryResult,
}

impl DiscoveryResult {
    /// The path is a discovered node under `/dev/dri`, or a by-path entry
    /// naming a discovered PCI address.
    pub fn is_nvidia_dri_path(&self, path: &str) -> (r: bool)
        ensures
            r == nvidia_dri_path_spec(path@, self.nodes_view(), self.bdfs_view()),
    {
        let n = self.nodes.len();
        let mut i: usize = 0;
        while i < n
            invariant
                n == self.nodes@.len(),
                0 <= i <= n,
                forall|j: int| 0 <= j < i ==> path@ != "/dev/dri/"@ + #[trigger] self.nodes_view()[j],
            decreases n - i,
        {
            let mut cand = String::from_str("/dev/dri/");
            cand.append(self.nodes[i].as_str());
            if str_eq(path, cand.as_str()) {
                proof {
                    assert(path@ == "/dev/dri/"@ + self.nodes_view()[i as int]);
                }
                return true;
            }
            i += 1;
        }
        if str_has_prefix(path, "/dev/dri/by-path/") {
            let m = self.bdfs.len();
            let mut k: usize = 0;
            while k < m
                invariant
                    m == self.bdfs@.len(),
                    0 <= k <= m,
                    has_prefix(path@, "/dev/dri/by-path/"@),
                    forall|j: int| 0 <= j < i ==> path@ != "/dev/dri/"@ + #[trigger] self.nodes_view()[j],
                    i == self.nodes@.len(),
                    forall|j: int| 0 <= j < k ==> !contains_sub(path@, #[trigger] self.bdfs_view()[j]),
                decreases m - k,
            {
                if str_contains(path, self.bdfs[k].as_str()) {
                    proof {
                        assert(contains_sub(path@, self.bdfs_view()[k as int]));
                    }
                    return true;
                }
                k += 1;
            }
        }
        false
    }

    /// The path reads PCI configuration space of a discovered address.
    pub fn is_blocked_pci_config(&self, path: &str) -> (r: bool)
        ensures
            r == blocked_pci_config_spec(path@, self.bdfs_view()),
    {
        if !str_contains(path, "/config") {
            return false;
        }
        let m = self.bdfs.len();
        let mut k: usize = 0;
        while k < m
            invariant
                m == self.bdfs@.len(),
                0 <= k <= m,
                contains_sub(path@, "/config"@),
                forall|j: int|
                    0 <= j < k ==> !contains_sub(
                        path@,
                        "/"@ + #[trigger] self.bdfs_view()[j] + "/config"@,
                    ),
            decreases m - k,
        {
            let mut needle = String::from_str("/");
            needle.append(self.bdfs[k].as_str());
            needle.append("/config");
            if str_contains(path, needle.as_str()) {
                proof {
                    assert(contains_sub(path@, "/"@ + self.bdfs_view()[k as int] + "/config"@));
                }
                return true;
            }
            k += 1;
        }
        false
    }
}

/// The path names a vendor device node directly.
pub fn starts_with_nvidia_dev(path: &str) -> (r: bool)
    ensures
        r == dev_nvidia_prefix(path@),
{
    str_has_prefix(path, "/dev/nvidia")
}

impl HideState {
    pub open spec fn nodes_view(self) -> Seq<Seq<char>> {
        self.discovery.nodes_view()
    }

    pub open spec fn bdfs_view(self) -> Seq<Seq<char>> {
        self.discovery.bdfs_view()
    }

    /// The state of a process in which hiding never became active.
    pub fn inactive() -> (r: HideState)
        ensures
            !r.active,
    {
        HideState { active: false, discovery: DiscoveryResult::empty() }
    }

    /// Whether a file open of `path` must be denied.
    pub fn should_block_open(&self, path: &str) -> (r: bool)
        ensures
            r == should_block_open_spec(path@, self.active, self.nodes_view(), self.bdfs_view()),
    {
        if !self.active {
            return false;
        }
        if starts_with_nvidia_dev(path) {
            return true;
        }
        if self.discovery.is_nvidia_dri_path(path) {
            return true;
        }
        if str_has_prefix(path, "/usr/share/vulkan/icd.d/nvidia") {
            return true;
        }
        if str_has_prefix(path, "/usr/share/vulkan/implicit_layer.d/nvidia") {
            return true;
        }
        if str_contains(path, "nvidia-drm_gbm.so") {
            return true;
        }
        if str_contains(path, "libGLX_nvidia.so") {
            return true;
        }
        if str_has_prefix(path, "/usr/lib/libnvidia-") {
            return true;
        }
        if self.discovery.is_blocked_pci_config(path) {
            return true;
        }
        false
    }

    /// Whether a dynamic-library open of `name` must be denied.
    pub fn should_block_dlopen(&self, name: &str) -> (r: bool)
        ensures
            r == should_block_dlopen_spec(name@, self.active),
    {
        if !self.active {
            return false;
        }
        if str_contains(name, "libGLX_nvidia") {
            return true;
        }
        if str_contains(name, "nvidia-drm_gbm.so") {
            return true;
        }
        if str_contains(name, "libnvidia-") {
            return true;
        }
        if str_contains(name, "/usr/lib/libnvidia-") {
            return true;
        }
        false
    }

    /// Whether a directory entry named `name` must be hidden from
    /// enumeration.
    pub fn is_hidden_entry(&self, name: &str) -> (r: bool)
        ensures
            r == hidden_entry_spec(name@, self.active, self.nodes_view(), self.bdfs_view()),
    {
        if !self.active {
            return false;
        }
        if str_has_prefix(name, "nvidia") {
            return true;
        }
        let n = self.discovery.nodes.len();
        let mut i: usize = 0;
        while i < n
            invariant
                self.active,
                n == self.discovery.nodes@.len(),
                0 <= i <= n,
                forall|j: int| 0 <= j < i ==> name@ != #[trigger] self.nodes_view()[j],
            decreases n - i,
        {
            if str_eq(name, self.discovery.nodes[i].as_str()) {
                proof {
                    assert(self.nodes_view()[i as int] == name@);
                    assert(self.nodes_view().contains(name@));
                }
                return true;
            }
            i += 1;
        }
        let m = self.discovery.bdfs.len();
        let mut k: usize = 0;
        while k < m
            invariant
                self.active,
                m == self.discovery.bdfs@.len(),
                0 <= k <= m,
                forall|j: int| 0 <= j < i ==> name@ != #[trigger] self.nodes_view()[j],
                i == self.discovery.nodes@.len(),
                forall|j: int| 0 <= j < k ==> !name_mentions_bdf(name@, #[trigger] self.bdfs_view()[j]),
            decreases m - k,
        {
            let bdf = self.discovery.bdfs[k].as_str();
            proof {
                assert(self.bdfs_view()[k as int] == bdf@);
            }
            if str_contains(name, bdf) {
                proof {
                    assert(name_mentions_bdf(name@, self.bdfs_view()[k as int]));
                }
                return true;
            }
            let nb = bdf.unicode_len();
            match find_char_from(bdf, ':', 0) {
                Some(j) => {
                    proof {
                        lemma_find_from_props(bdf@, ':', 0);
                    }
                    let short = bdf.substring_char(j + 1, nb);
                    proof {
                        assert(short@ =~= bdf@.skip(j + 1));
                    }
                    if short.unicode_len() > 0 && str_contains(name, short) {
                        proof {
                            assert(name_mentions_bdf(name@, self.bdfs_view()[k as int]));
                        }
                        return true;
                    }
                },
                None => {},
            }
            proof {
                assert(!name_mentions_bdf(name@, self.bdfs_view()[k as int]));
            }
            k += 1;
        }
        false
    }
}

/// The subsequence of `entries` an active process is shown: hidden names
/// removed, the order of the rest kept.
pub open spec fn visible_spec(
    entries: Seq<Seq<char>>,
    active: bool,
    nodes: Seq<Seq<char>>,
    bdfs: Seq<Seq<char>>,
) -> Seq<Seq<char>>
    decreases entries.len(),
{
    if entries.len() == 0 {
        Seq::empty()
    } else {
        let rest = visible_spec(entries.skip(1), active, nodes, bdfs);
        if hidden_entry_spec(entries[0], active, nodes, bdfs) {
            rest
        } else {
            seq![entries[0]] + rest
        }
    }
}

impl HideState {
    /// What directory-entry iteration yields over the underlying sequence
    /// `entries`: every hidden name skipped, the others unchanged and in
    /// order.
    pub fn visible_entries(&self, entries: &Vec<String>) -> (r: Vec<String>)
        ensures
            r@.map_values(|s: String| s@) == visible_spec(
                entries@.map_values(|s: String| s@),
                self.active,
                self.nodes_view(),
                self.bdfs_view(),
            ),
    {
        let ghost evs = entries@.map_values(|s: String| s@);
        let mut out: Vec<String> = Vec::new();
        let n = entries.len();
        let mut i: usize = 0;
        proof {
            assert(evs.skip(0) =~= evs);
            assert(out@.map_values(|s: String| s@) =~= Seq::<Seq<char>>::empty());
        }
        while i < n
            invariant
                n == entries@.len(),
                evs == entries@.map_values(|s: String| s@),
                0 <= i <= n,
                visible_spec(evs, self.active, self.nodes_view(), self.bdfs_view())
                    == out@.map_values(|s: String| s@) + visible_spec(
                    evs.skip(i as int),
                    self.active,
                    self.nodes_view(),
                    self.bdfs_view(),
                ),
            decreases n - i,
        {
            let ghost suf = evs.skip(i as int);
            proof {
                assert(suf[0] == evs[i as int]);
                assert(suf.skip(1) =~= evs.skip(i + 1));
            }
            if !self.is_hidden_entry(entries[i].as_str()) {
                let ghost old_out = out@.map_values(|s: String| s@);
                out.push(entries[i].clone());
                proof {
                    assert(out@.map_values(|s: String| s@) =~= old_out + seq![evs[i as int]]);
                    assert(old_out + (seq![evs[i as int]] + visible_spec(
                        evs.skip(i + 1),
                        self.active,
                        self.nodes_view(),
                        self.bdfs_view(),
                    )) =~= (old_out + seq![evs[i as int]]) + visible_spec(
                        evs.skip(i + 1),
                        self.active,
                        self.nodes_view(),
                        self.bdfs_view(),
                    ));
                }
            }
            i += 1;
        }
        proof {
            assert(evs.skip(n as int) =~= Seq::<Seq<char>>::empty());
            assert(out@.map_values(|s: String| s@) + Seq::<Seq<char>>::empty() =~= out@.map_values(
                |s: String| s@,
            ));
        }
        out
    }
}

/// When hiding is inactive, nothing is blocked and nothing is hidden,
/// whatever the input and whatever discovery found.
pub proof fn lemma_inactive_blocks_nothing(
    path: Seq<char>,
    name: Seq<char>,
    entry: Seq<char>,
    nodes: Seq<Seq<char>>,
    bdfs: Seq<Seq<char>>,
)
    ensures
        !should_block_open_spec(path, false, nodes, bdfs),
        !should_block_dlopen_spec(name, false),
        !hidden_entry_spec(entry, false, nodes, bdfs),
{
}

/// When hiding is active, a path under `/dev/nvidia` is always denied,
/// whatever discovery found.
pub proof fn lemma_dev_nvidia_always_blocked(
    path: Seq<char>,
    nodes: Seq<Seq<char>>,
    bdfs: Seq<Seq<char>>,
)
    requires
        has_prefix(path, "/dev/nvidia"@),
    ensures
        should_block_open_spec(path, true, nodes, bdfs),
{
}

/// A name that holds a discovered address — in full or in its
/// domain-stripped short form — is hidden from an active process.
pub proof fn lemma_hidden_by_bdf(
    name: Seq<char>,
    nodes: Seq<Seq<char>>,
    bdfs: Seq<Seq<char>>,
    i: int,
)
    requires
        0 <= i < bdfs.len(),
        contains_sub(name, bdfs[i]) || (bdf_short(bdfs[i]) matches Some(s) && s.len() > 0
            && contains_sub(name, s)),
    ensures
        hidden_entry_spec(name, true, nodes, bdfs),
{
    assert(name_mentions_bdf(name, bdfs[i]));
}

/// Iteration is transparent when nothing in the stream is hidden: the
/// filtered sequence is the stream itself.
pub proof fn lemma_iteration_transparent(
    entries: Seq<Seq<char>>,
    active: bool,
    nodes: Seq<Seq<char>>,
    bdfs: Seq<Seq<char>>,
)
    requires
        forall|i: int|
            0 <= i < entries.len() ==> !hidden_entry_spec(#[trigger] entries[i], active, nodes, bdfs),
    ensures
        visible_spec(entries, active, nodes, bdfs) == entries,
    decreases entries.len(),
{
    if entries.len() == 0 {
        assert(visible_spec(entries, active, nodes, bdfs) =~= entries);
    } else {
        assert(forall|i: int|
            0 <= i < entries.skip(1).len() ==> entries.skip(1)[i] == entries[i + 1]);
        lemma_iteration_transparent(entries.skip(1), active, nodes, bdfs);
        assert(seq![entries[0]] + entries.skip(1) =~= entries);
    }
}

/// An inactive process sees every directory entry unchanged.
pub proof fn lemma_inactive_iteration_transparent(
    entries: Seq<Seq<char>>,
    nodes: Seq<Seq<char>>,
    bdfs: Seq<Seq<char>>,
)
    ensures
        visible_spec(entries, false, nodes, bdfs) == entries,
{
    lemma_iteration_transparent(entries, false, nodes, bdfs);
}

} // verus!
