//! Classification rules, directory filtering and the one-shot engine on
//! concrete values.

use nvidia_hide::classify::{starts_with_nvidia_dev, HideState};
use nvidia_hide::discovery::{DiscoveryResult, DrmEntry};
use nvidia_hide::engine::Engine;
use nvidia_hide::intercept::{effective_mode, open_needs_mode_arg, open_how, OPEN_FLAG_CREAT,
    OPEN_FLAG_TMPFILE};
use nvidia_hide::DENIAL_ERRNO;

fn active_state(nodes: &[&str], bdfs: &[&str]) -> HideState {
    HideState {
        active: true,
        discovery: DiscoveryResult {
            nodes: nodes.iter().map(|s| String::from(*s)).collect(),
            bdfs: bdfs.iter().map(|s| String::from(*s)).collect(),
        },
    }
}

#[test]
fn inactive_state_blocks_nothing() {
    let never_active = HideState::inactive();
    assert!(!never_active.should_block_open("/dev/nvidia0"));
    let mut s = active_state(&["card0"], &["0000:01:00.0"]);
    s.active = false;
    assert!(!s.should_block_open("/dev/nvidia0"));
    assert!(!s.should_block_open("/dev/dri/card0"));
    assert!(!s.should_block_dlopen("libGLX_nvidia.so.0"));
    assert!(!s.is_hidden_entry("card0"));
    assert!(!s.is_hidden_entry("nvidia0"));
    let entries = vec![String::from("card0"), String::from("nvidia0")];
    assert_eq!(s.visible_entries(&entries), entries);
}

#[test]
fn dev_nvidia_prefix_always_blocked_when_active() {
    let s = active_state(&[], &[]);
    assert!(starts_with_nvidia_dev("/dev/nvidia0"));
    assert!(s.should_block_open("/dev/nvidia0"));
    assert!(s.should_block_open("/dev/nvidiactl"));
    assert!(s.should_block_open("/dev/nvidia-uvm"));
    assert!(!s.should_block_open("/dev/null"));
}

#[test]
fn discovered_nodes_and_addresses_block_opens() {
    let s = active_state(&["card0"], &["0000:01:00.0"]);
    assert!(s.should_block_open("/dev/dri/card0"));
    assert!(!s.should_block_open("/dev/dri/card1"));
    assert!(s.should_block_open("/dev/dri/by-path/pci-0000:01:00.0-card"));
    assert!(!s.should_block_open("/dev/dri/by-path/pci-0000:02:00.0-card"));
}

#[test]
fn vendor_library_paths_block_opens() {
    let s = active_state(&[], &[]);
    assert!(s.should_block_open("/usr/share/vulkan/icd.d/nvidia_icd.json"));
    assert!(s.should_block_open("/usr/share/vulkan/implicit_layer.d/nvidia_layers.json"));
    assert!(s.should_block_open("/usr/lib/gbm/nvidia-drm_gbm.so"));
    assert!(s.should_block_open("/usr/lib/libGLX_nvidia.so.0"));
    assert!(s.should_block_open("/usr/lib/libnvidia-glcore.so"));
    assert!(!s.should_block_open("/usr/lib/libGLX_mesa.so.0"));
}

#[test]
fn pci_config_space_of_discovered_address_blocked() {
    let s = active_state(&[], &["0000:01:00.0"]);
    assert!(s.should_block_open("/sys/bus/pci/devices/0000:01:00.0/config"));
    assert!(!s.should_block_open("/sys/bus/pci/devices/0000:02:00.0/config"));
    assert!(!s.should_block_open("/sys/bus/pci/devices/0000:01:00.0/vendor"));
}

#[test]
fn dlopen_fragments_blocked() {
    let s = active_state(&[], &[]);
    assert!(s.should_block_dlopen("libGLX_nvidia.so.0"));
    assert!(s.should_block_dlopen("nvidia-drm_gbm.so"));
    assert!(s.should_block_dlopen("libnvidia-ml.so.1"));
    assert!(s.should_block_dlopen("/usr/lib/libnvidia-encode.so"));
    assert!(!s.should_block_dlopen("libEGL_mesa.so.0"));
}

#[test]
fn address_without_domain_has_no_short_form() {
    // an address with a single `:` yields a short form past that colon
    let s = active_state(&[], &["01:00.0"]);
    assert!(s.is_hidden_entry("pci-01:00.0-card"));
    assert!(s.is_hidden_entry("x00.0y"));
    assert!(!s.is_hidden_entry("pci-02"));
    // iteration over an empty stream stays empty
    let none: Vec<String> = Vec::new();
    assert!(s.visible_entries(&none).is_empty());
}

#[test]
fn hidden_entries_by_name_node_and_address() {
    let s = active_state(&["card0"], &["0000:01:00.0"]);
    assert!(s.is_hidden_entry("nvidia0"));
    assert!(s.is_hidden_entry("card0"));
    assert!(!s.is_hidden_entry("card1"));
    // full address and its domain-stripped short form
    assert!(s.is_hidden_entry("pci-0000:01:00.0-card"));
    assert!(s.is_hidden_entry("pci-01:00.0-card"));
    assert!(!s.is_hidden_entry("pci-02:00.0-card"));
}

#[test]
fn iteration_filters_hidden_entries_in_order() {
    let s = active_state(&["card0"], &[]);
    let entries = vec![
        String::from("card0"),
        String::from("card1"),
        String::from("renderD128"),
        String::from("nvidia0"),
    ];
    assert_eq!(
        s.visible_entries(&entries),
        vec![String::from("card1"), String::from("renderD128")]
    );
}

#[test]
fn iteration_transparent_for_non_hidden_entries() {
    let s = active_state(&["card0"], &["0000:01:00.0"]);
    let entries = vec![
        String::from("card1"),
        String::from("renderD129"),
        String::from("by-id"),
    ];
    assert_eq!(s.visible_entries(&entries), entries);
}

#[test]
fn engine_initializes_once() {
    let exe = String::from("/usr/bin/python3");
    let entries = vec![DrmEntry {
        name: String::from("card0"),
        vendor_text: Some(String::from("0x10de")),
        device_link_leaf: Some(String::from("0000:01:00.0")),
    }];
    let mut engine = Engine::new();
    engine.init(Some(&exe), None, None, None, None, &entries);
    assert!(engine.state().active);
    assert_eq!(engine.state().discovery.nvidia_nodes(), &vec![String::from("card0")]);
    // a second initialization, with different inputs, changes nothing
    let deny = String::from("python3");
    let other: Vec<DrmEntry> = Vec::new();
    engine.init(Some(&exe), None, Some(&deny), None, None, &other);
    assert!(engine.state().active);
    assert_eq!(engine.state().discovery.nvidia_nodes(), &vec![String::from("card0")]);
    assert_eq!(engine.state().discovery.nvidia_bdfs(), &vec![String::from("0000:01:00.0")]);
}

#[test]
fn engine_skips_discovery_when_inactive() {
    let exe = String::from("/usr/bin/python3");
    let deny = String::from("python3");
    let entries = vec![DrmEntry {
        name: String::from("card0"),
        vendor_text: Some(String::from("0x10de")),
        device_link_leaf: Some(String::from("0000:01:00.0")),
    }];
    let mut engine = Engine::new();
    engine.init(Some(&exe), None, Some(&deny), None, None, &entries);
    assert!(!engine.state().active);
    assert!(engine.state().discovery.nvidia_nodes().is_empty());
    assert!(engine.state().discovery.nvidia_bdfs().is_empty());
}

#[test]
fn open_mode_argument_consumed_only_on_creation() {
    assert!(open_needs_mode_arg(OPEN_FLAG_CREAT));
    assert!(open_needs_mode_arg(OPEN_FLAG_TMPFILE));
    assert!(!open_needs_mode_arg(0));
    // a lone O_DIRECTORY bit of the tmpfile combination is not enough
    assert!(!open_needs_mode_arg(0o200000));
    assert_eq!(effective_mode(OPEN_FLAG_CREAT, 0o644), 0o644);
    assert_eq!(effective_mode(0, 0o644), 0);
    let how = open_how { flags: 0, mode: 0o600, resolve: 0 };
    assert_eq!(how.mode, 0o600);
    assert_eq!(DENIAL_ERRNO, 2);
}
