//! Activation policy and device discovery on concrete values.

use nvidia_hide::discovery::{
    discover_nvidia, is_drm_devnode_name, is_valid_bdf, parse_hex, sysfs_drm_node_vendor_is_nvidia,
    DrmEntry,
};
use nvidia_hide::policy::compute_activation;

fn entry(name: &str, vendor: Option<&str>, leaf: Option<&str>) -> DrmEntry {
    DrmEntry {
        name: String::from(name),
        vendor_text: vendor.map(String::from),
        device_link_leaf: leaf.map(String::from),
    }
}

#[test]
fn unconfigured_process_stays_active() {
    let exe = String::from("/usr/bin/python3");
    assert!(compute_activation(Some(&exe), None, None, None, None));
}

#[test]
fn missing_identity_fails_open() {
    let allow = String::from("somethingelse");
    assert!(compute_activation(None, Some(&allow), None, None, None));
}

#[test]
fn allowlist_is_opt_in() {
    let exe = String::from("/usr/bin/python3");
    let allow = String::from("vim:emacs");
    assert!(!compute_activation(Some(&exe), Some(&allow), None, None, None));
    let allow_match = String::from("vim:python*");
    assert!(compute_activation(Some(&exe), Some(&allow_match), None, None, None));
    // an allowlist configured only through the file behaves the same
    let file = String::from("vim\n");
    assert!(!compute_activation(Some(&exe), None, None, Some(&file), None));
    let file_match = String::from("# tools\npython*\n");
    assert!(compute_activation(Some(&exe), None, None, Some(&file_match), None));
    // a comments-only file configures nothing
    let comments = String::from("# nothing\n");
    assert!(compute_activation(Some(&exe), None, None, Some(&comments), None));
}

#[test]
fn deny_overrides_allow() {
    let exe = String::from("/usr/bin/python3");
    let allow = String::from("python*");
    let deny = String::from("python3");
    assert!(!compute_activation(Some(&exe), Some(&allow), Some(&deny), None, None));
    let deny_file = String::from("python?\n");
    assert!(!compute_activation(Some(&exe), Some(&allow), None, None, Some(&deny_file)));
}

#[test]
fn hex_vendor_parsing() {
    assert_eq!(parse_hex("10de"), Some(0x10de));
    assert_eq!(parse_hex("10DE"), Some(0x10de));
    assert_eq!(parse_hex("0"), Some(0));
    assert_eq!(parse_hex("ffffffff"), Some(u32::MAX));
    assert_eq!(parse_hex("100000000"), None);
    assert_eq!(parse_hex(""), None);
    assert_eq!(parse_hex("10g0"), None);
    let v = String::from("0x10de\n");
    assert!(sysfs_drm_node_vendor_is_nvidia(Some(&v)));
    let bare = String::from("10de");
    assert!(sysfs_drm_node_vendor_is_nvidia(Some(&bare)));
    let other = String::from("0x1002");
    assert!(!sysfs_drm_node_vendor_is_nvidia(Some(&other)));
    assert!(!sysfs_drm_node_vendor_is_nvidia(None));
}

#[test]
fn drm_node_name_grammar() {
    assert!(is_drm_devnode_name("card0"));
    assert!(is_drm_devnode_name("card12"));
    assert!(is_drm_devnode_name("renderD128"));
    assert!(!is_drm_devnode_name("card0-DP-1"));
    assert!(!is_drm_devnode_name("version"));
    assert!(!is_drm_devnode_name("nvidia0"));
    assert!(!is_drm_devnode_name("renderDx"));
    // the grammar asks for at least one digit
    assert!(!is_drm_devnode_name("card"));
    assert!(!is_drm_devnode_name("renderD"));
}

#[test]
fn bdf_shape() {
    assert!(is_valid_bdf("0000:01:00.0"));
    assert!(is_valid_bdf("01:00.0"));
    assert!(!is_valid_bdf("01:0.0"));
    assert!(!is_valid_bdf("01.0"));
    assert!(!is_valid_bdf("abcdefg"));
}

#[test]
fn discovery_keeps_vendor_nodes_and_dedups_addresses() {
    let entries = vec![
        entry("card0", Some("0x10de"), Some("0000:01:00.0")),
        entry("card1", Some("0x1002"), Some("0000:02:00.0")),
        entry("renderD128", Some("0x10de"), Some("0000:01:00.0")),
        entry("version", Some("0x10de"), None),
        entry("card2", Some("0x10de"), None),
        entry("card3", None, Some("0000:03:00.0")),
    ];
    let r = discover_nvidia(&entries);
    assert_eq!(r.nvidia_nodes(), &vec![
        String::from("card0"),
        String::from("renderD128"),
        String::from("card2"),
    ]);
    assert_eq!(r.nvidia_bdfs(), &vec![String::from("0000:01:00.0")]);
}

#[test]
fn discovery_of_nothing_is_empty() {
    let entries: Vec<DrmEntry> = Vec::new();
    let r = discover_nvidia(&entries);
    assert!(r.nvidia_nodes().is_empty());
    assert!(r.nvidia_bdfs().is_empty());
}
