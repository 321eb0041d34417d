//! Device discovery: from an enumeration of the device-class directory,
//! keep the DRM nodes whose vendor attribute names the target vendor, and
//! collect the PCI bus addresses their backing-device links point at.
//! The filesystem reads happen outside this crate; each enumerated entry
//! arrives here as its name plus the text of its vendor attribute and the
//! final segment of its device link, each `None` where unreadable.

use vstd::prelude::*;
use vstd::string::*;
use crate::text::{
    trim,
    trim_spec,
    has_prefix,
    str_has_prefix,
    contains_char,
    str_contains_char,
    str_eq,
    view_opt,
    view_opt_ref,
};

verus! {

/// The PCI vendor identifier of the hidden hardware family.
pub const NVIDIA_VENDOR: u32 = 0x10de;

pub open spec fn is_hex_digit(c: char) -> bool {
    ('0' as u32 <= c as u32 && c as u32 <= '9' as u32) || ('a' as u32 <= c as u32 && c as u32
        <= 'f' as u32) || ('A' as u32 <= c as u32 && c as u32 <= 'F' as u32)
}

pub open spec fn hex_digit_val(c: char) -> nat {
    if '0' as u32 <= c as u32 && c as u32 <= '9' as u32 {
        (c as u32 - '0' as u32) as nat
    } else if 'a' as u32 <= c as u32 && c as u32 <= 'f' as u32 {
        (c as u32 - 'a' as u32 + 10) as nat
    } else if 'A' as u32 <= c as u32 && c as u32 <= 'F' as u32 {
        (c as u32 - 'A' as u32 + 10) as nat
    } else {
        0
    }
}

/// Value of a big-endian hexadecimal digit string.
pub open spec fn hex_val(s: Seq<char>) -> nat
    decreases s.len(),
{
    if s.len() == 0 {
        0
    } else {
        hex_val(s.drop_last()) * 16 + hex_digit_val(s.last())
    }
}

pub open spec fn is_hex_str(s: Seq<char>) -> bool {
    s.len() > 0 && forall|i: int| 0 <= i < s.len() ==> is_hex_digit(s[i])
}

/// A hexadecimal digit string read as a `u32`; `None` when malformed or too
/// large.
pub open spec fn parse_hex_u32(s: Seq<char>) -> Option<u32> {
    if is_hex_str(s) && hex_val(s) <= u32::MAX {
        Some(hex_val(s) as u32)
    } else {
        None
    }
}

proof fn lemma_hex_val_extend(s: Seq<char>, j: int)
    requires
        0 <= j <= s.len(),
    ensures
        hex_val(s.take(j)) <= hex_val(s),
    decreases s.len() - j,
{
    if j == s.len() {
        assert(s.take(j) =~= s);
    } else {
        lemma_hex_val_extend(s, j + 1);
        assert(s.take(j + 1).drop_last() =~= s.take(j));
        assert(s.take(j + 1).last() == s[j]);
        assert(hex_val(s.take(j + 1)) == hex_val(s.take(j)) * 16 + hex_digit_val(s[j]));
    }
}

/// Parses a hexadecimal digit string.
pub fn parse_hex(s: &str) -> (r: Option<u32>)
    ensures
        r == parse_hex_u32(s@),
{
    let n = s.unicode_len();
    if n == 0 {
        return None;
    }
    let mut i: usize = 0;
    let mut acc: u32 = 0;
    while i < n
        invariant
            n == s@.len(),
            0 < n,
            0 <= i <= n,
            forall|k: int| 0 <= k < i ==> is_hex_digit(s@[k]),
            acc == hex_val(s@.take(i as int)),
        decreases n - i,
    {
        let c = s.get_char(i);
        let cu = c as u32;
        let d: u32 = if 48 <= cu && cu <= 57 {
            cu - 48
        } else if 97 <= cu && cu <= 102 {
            cu - 97 + 10
        } else if 65 <= cu && cu <= 70 {
            cu - 65 + 10
        } else {
            proof {
                assert(!is_hex_digit(s@[i as int]));
            }
            return None;
        };
        proof {
            assert(d == hex_digit_val(s@[i as int]));
            assert(s@.take(i + 1).drop_last() =~= s@.take(i as int));
            assert(s@.take(i + 1).last() == s@[i as int]);
        }
        if acc > 0xFFF_FFFF {
            proof {
                assert(hex_val(s@.take(i + 1)) == acc * 16 + d);
                lemma_hex_val_extend(s@, i + 1);
                assert(hex_val(s@) > u32::MAX);
            }
            return None;
        }
        acc = acc * 16 + d;
        i += 1;
    }
    proof {
        assert(s@.take(n as int) =~= s@);
        assert(is_hex_str(s@));
    }
    Some(acc)
}

/// Vendor attribute text read as a number: trimmed, an optional `0x` prefix
/// stripped, the rest hexadecimal.
pub open spec fn vendor_value(text: Seq<char>) -> Option<u32> {
    let t = trim_spec(text);
    if has_prefix(t, "0x"@) {
        parse_hex_u32(t.skip(2))
    } else {
        parse_hex_u32(t)
    }
}

/// The vendor attribute text names the target vendor.
pub open spec fn vendor_is_nvidia(text: Option<Seq<char>>) -> bool {
    text matches Some(t) && vendor_value(t) == Some(NVIDIA_VENDOR)
}

/// Decides from a node's vendor attribute text whether the node belongs to
/// the target vendor; an unreadable attribute (`None`) does not.
pub fn sysfs_drm_node_vendor_is_nvidia(vendor_text: Option<&String>) -> (r: bool)
    ensures
        r == vendor_is_nvidia(view_opt_ref(vendor_text)),
{
    match vendor_text {
        None => false,
        Some(t) => {
            let tr = trim(t.as_str());
            let v: Option<u32> = if str_has_prefix(tr, "0x") {
                proof {
                    reveal_strlit("0x");
                    assert(tr@.subrange(2, tr@.len() as int) =~= tr@.skip(2));
                }
                parse_hex(tr.substring_char(2, tr.unicode_len()))
            } else {
                parse_hex(tr)
            };
            match v {
                Some(id) => id == NVIDIA_VENDOR,
                None => false,
            }
        },
    }
}

pub open spec fn is_digit(c: char) -> bool {
    '0' as u32 <= c as u32 && c as u32 <= '9' as u32
}

pub open spec fn all_digits(s: Seq<char>) -> bool {
    forall|i: int| 0 <= i < s.len() ==> is_digit(s[i])
}

/// The node-naming grammar of the device-class directory: `renderD<digits>`
/// or `card<digits>`, with at least one digit.
pub open spec fn is_drm_node_name(name: Seq<char>) -> bool {
    (has_prefix(name, "renderD"@) && name.len() > "renderD"@.len() && all_digits(
        name.skip("renderD"@.len() as int),
    )) || (has_prefix(name, "card"@) && name.len() > "card"@.len() && all_digits(
        name.skip("card"@.len() as int),
    ))
}

fn all_digits_from(s: &str, from: usize) -> (r: bool)
    requires
        from <= s@.len(),
    ensures
        r == all_digits(s@.skip(from as int)),
{
    let n = s.unicode_len();
    let mut i: usize = from;
    while i < n
        invariant
            n == s@.len(),
            from <= i <= n,
            forall|k: int| from <= k < i ==> is_digit(s@[k]),
        decreases n - i,
    {
        let c = s.get_char(i);
        if !(('0' <= c) && (c <= '9')) {
            proof {
                assert(s@.skip(from as int)[i - from] == s@[i as int]);
            }
            return false;
        }
        i += 1;
    }
    proof {
        assert(forall|k: int|
            0 <= k < s@.skip(from as int).len() ==> s@.skip(from as int)[k] == s@[k + from]);
    }
    true
}

/// Recognizes a device-class node name.
pub fn is_drm_devnode_name(name: &str) -> (r: bool)
    ensures
        r == is_drm_node_name(name@),
{
    proof {
        reveal_strlit("renderD");
        reveal_strlit("card");
    }
    let n = name.unicode_len();
    if str_has_prefix(name, "renderD") {
        if n > 7 && all_digits_from(name, 7) {
            return true;
        }
    }
    if str_has_prefix(name, "card") {
        return n > 4 && all_digits_from(name, 4);
    }
    false
}

/// Shape of a PCI bus address taken from a device-link target: at least
/// seven characters with a `:` somewhere.
pub open spec fn is_bdf_like(s: Seq<char>) -> bool {
    s.len() >= 7 && contains_char(s, ':')
}

pub fn is_valid_bdf(leaf: &str) -> (r: bool)
    ensures
        r == is_bdf_like(leaf@),
{
    leaf.unicode_len() >= 7 && str_contains_char(leaf, ':')
}

/// One enumerated entry of the device-class directory: its name, the text
/// of its vendor attribute, and the final segment of its backing-device
/// link target — the latter two `None` where missing or unreadable.
pub struct DrmEntry {
    pub name: String,
    pub vendor_text: Option<String>,
    pub device_link_leaf: Option<String>,
}

/// The entry is a DRM node of the target vendor.
pub open spec fn entry_is_nvidia_node(e: DrmEntry) -> bool {
    is_drm_node_name(e.name@) && vendor_is_nvidia(view_opt(e.vendor_text))
}

/// The PCI address the entry contributes, if its link leaf has a valid
/// shape.
pub open spec fn entry_bdf(e: DrmEntry) -> Option<Seq<char>> {
    match e.device_link_leaf {
        Some(l) => if is_bdf_like(l@) {
            Some(l@)
        } else {
            None
        },
        None => None,
    }
}

/// Names of the target-vendor nodes among `entries`, in enumeration order.
pub open spec fn nvidia_nodes_spec(entries: Seq<DrmEntry>) -> Seq<Seq<char>>
    decreases entries.len(),
{
    if entries.len() == 0 {
        Seq::empty()
    } else {
        let rest = nvidia_nodes_spec(entries.skip(1));
        if entry_is_nvidia_node(entries[0]) {
            seq![entries[0].name@] + rest
        } else {
            rest
        }
    }
}

/// PCI addresses of the target-vendor nodes among `entries`, first
/// occurrence first, duplicates dropped; `acc` holds what earlier entries
/// contributed.
pub open spec fn nvidia_bdfs_acc(entries: Seq<DrmEntry>, acc: Seq<Seq<char>>) -> Seq<Seq<char>>
    decreases entries.len(),
{
    if entries.len() == 0 {
        acc
    } else {
        let e = entries[0];
        let acc2 = if entry_is_nvidia_node(e) && entry_bdf(e) is Some && !acc.contains(
            entry_bdf(e)->0,
        ) {
            acc.push(entry_bdf(e)->0)
        } else {
            acc
        };
        nvidia_bdfs_acc(entries.skip(1), acc2)
    }
}

pub open spec fn nvidia_bdfs_spec(entries: Seq<DrmEntry>) -> Seq<Seq<char>> {
    nvidia_bdfs_acc(entries, Seq::empty())
}

proof fn lemma_bdfs_acc_distinct(entries: Seq<DrmEntry>, acc: Seq<Seq<char>>)
    requires
        forall|i: int, j: int| 0 <= i < j < acc.len() ==> acc[i] != acc[j],
    ensures
        forall|i: int, j: int|
            0 <= i < j < nvidia_bdfs_acc(entries, acc).len() ==> nvidia_bdfs_acc(entries, acc)[i]
                != nvidia_bdfs_acc(entries, acc)[j],
    decreases entries.len(),
{
    if entries.len() == 0 {
    } else {
        let e = entries[0];
        if entry_is_nvidia_node(e) && entry_bdf(e) is Some && !acc.contains(entry_bdf(e)->0) {
            let acc2 = acc.push(entry_bdf(e)->0);
            assert(forall|i: int, j: int| 0 <= i < j < acc2.len() ==> acc2[i] != acc2[j]);
            lemma_bdfs_acc_distinct(entries.skip(1), acc2);
            assert(nvidia_bdfs_acc(entries, acc) == nvidia_bdfs_acc(entries.skip(1), acc2));
        } else {
            lemma_bdfs_acc_distinct(entries.skip(1), acc);
            assert(nvidia_bdfs_acc(entries, acc) == nvidia_bdfs_acc(entries.skip(1), acc));
        }
    }
}

/// Discovery never reports the same PCI address twice, however many nodes
/// share it.
pub proof fn lemma_discovered_bdfs_distinct(entries: Seq<DrmEntry>)
    ensures
        forall|i: int, j: int|
            0 <= i < j < nvidia_bdfs_spec(entries).len() ==> nvidia_bdfs_spec(entries)[i]
                != nvidia_bdfs_spec(entries)[j],
{
    lemma_bdfs_acc_distinct(entries, Seq::empty());
}

/// What discovery found: the target vendor's node names and PCI addresses.
/// Empty when discovery failed or was skipped.
pub struct DiscoveryResult {
    pub nodes: Vec<String>,
    pub bdfs: Vec<String>,
}

impl DiscoveryResult {
    pub open spec fn nodes_view(self) -> Seq<Seq<char>> {
        self.nodes@.map_values(|s: String| s@)
    }

    pub open spec fn bdfs_view(self) -> Seq<Seq<char>> {
        self.bdfs@.map_values(|s: String| s@)
    }

    /// The empty result of failed or skipped discovery.
    pub fn empty() -> (r: DiscoveryResult)
        ensures
            r.nodes_view() == Seq::<Seq<char>>::empty(),
            r.bdfs_view() == Seq::<Seq<char>>::empty(),
    {
        let r = DiscoveryResult { nodes: Vec::new(), bdfs: Vec::new() };
        proof {
            assert(r.nodes_view() =~= Seq::<Seq<char>>::empty());
            assert(r.bdfs_view() =~= Seq::<Seq<char>>::empty());
        }
        r
    }

    /// Discovered node names, in enumeration order.
    pub fn nvidia_nodes(&self) -> (r: &Vec<String>)
        ensures
            r@ == self.nodes@,
    {
        &self.nodes
    }

    /// Discovered PCI addresses, deduplicated, first occurrence first.
    pub fn nvidia_bdfs(&self) -> (r: &Vec<String>)
        ensures
            r@ == self.bdfs@,
    {
        &self.bdfs
    }
}

fn vec_contains_string(v: &Vec<String>, s: &String) -> (r: bool)
    ensures
        r == v@.map_values(|x: String| x@).contains(s@),
{
    let ghost vs = v@.map_values(|x: String| x@);
    let n = v.len();
    let mut i: usize = 0;
    while i < n
        invariant
            n == v@.len(),
            vs == v@.map_values(|x: String| x@),
            0 <= i <= n,
            forall|j: int| 0 <= j < i ==> vs[j] != s@,
        decreases n - i,
    {
        if str_eq(v[i].as_str(), s.as_str()) {
            proof {
                assert(vs[i as int] == s@);
            }
            return true;
        }
        i += 1;
    }
    false
}

/// One-shot discovery over the enumerated device-class entries: keeps the
/// names of the target vendor's nodes and their deduplicated PCI addresses,
/// both in enumeration order.
pub fn discover_nvidia(entries: &Vec<DrmEntry>) -> (r: DiscoveryResult)
    ensures
        r.nodes_view() == nvidia_nodes_spec(entries@),
        r.bdfs_view() == nvidia_bdfs_spec(entries@),
{
    let mut nodes: Vec<String> = Vec::new();
    let mut bdfs: Vec<String> = Vec::new();
    let n = entries.len();
    let mut i: usize = 0;
    proof {
        assert(entries@.skip(0) =~= entries@);
        assert(nodes@.map_values(|s: String| s@) =~= Seq::<Seq<char>>::empty());
        assert(bdfs@.map_values(|s: String| s@) =~= Seq::<Seq<char>>::empty());
    }
    while i < n
        invariant
            n == entries@.len(),
            0 <= i <= n,
            nvidia_nodes_spec(entries@) == nodes@.map_values(|s: String| s@) + nvidia_nodes_spec(
                entries@.skip(i as int),
            ),
            nvidia_bdfs_spec(entries@) == nvidia_bdfs_acc(
                entries@.skip(i as int),
                bdfs@.map_values(|s: String| s@),
            ),
        decreases n - i,
    {
        let ghost suf = entries@.skip(i as int);
        proof {
            assert(suf[0] == entries@[i as int]);
            assert(suf.skip(1) =~= entries@.skip(i + 1));
        }
        let e = &entries[i];
        let named = is_drm_devnode_name(e.name.as_str());
        let vend = sysfs_drm_node_vendor_is_nvidia(e.vendor_text.as_ref());
        if named && vend {
            let ghost old_nodes = nodes@.map_values(|s: String| s@);
            nodes.push(e.name.clone());
            proof {
                assert(nodes@.map_values(|s: String| s@) =~= old_nodes + seq![
                    entries@[i as int].name@,
                ]);
                assert(old_nodes + (seq![entries@[i as int].name@] + nvidia_nodes_spec(
                    entries@.skip(i + 1),
                )) =~= (old_nodes + seq![entries@[i as int].name@]) + nvidia_nodes_spec(
                    entries@.skip(i + 1),
                ));
            }
            match &e.device_link_leaf {
                Some(leaf) => {
                    if is_valid_bdf(leaf.as_str()) && !vec_contains_string(&bdfs, leaf) {
                        let ghost old_bdfs = bdfs@.map_values(|s: String| s@);
                        bdfs.push(leaf.clone());
                        proof {
                            assert(bdfs@.map_values(|s: String| s@) =~= old_bdfs.push(leaf@));
                        }
                    }
                },
                None => {},
            }
        }
        i += 1;
    }
    proof {
        assert(entries@.skip(n as int) =~= Seq::<DrmEntry>::empty());
        assert(nvidia_nodes_spec(Seq::<DrmEntry>::empty()) =~= Seq::<Seq<char>>::empty());
        assert(nodes@.map_values(|s: String| s@) + Seq::<Seq<char>>::empty() =~= nodes@.map_values(
            |s: String| s@,
        ));
    }
    DiscoveryResult { nodes, bdfs }
}

} // verus!
