use jtag_core::config::{Config, TapConfig};

#[test]
fn new_config_is_empty() {
    let cfg = Config::new(4);
    assert_eq!(cfg.device_count, 0);
    assert_eq!(cfg.index, 0);
    assert_eq!(cfg.scan_chain.len(), 4);
    for tap in &cfg.scan_chain {
        assert_eq!(tap.ir_length, 0);
        assert_eq!(tap.ir_before, 0);
        assert_eq!(tap.ir_after, 0);
    }
}

#[test]
fn update_device_count_within_capacity() {
    let mut cfg = Config::new(4);
    assert!(cfg.update_device_count(3));
    assert_eq!(cfg.device_count, 3);
}

#[test]
fn update_device_count_rejects_capacity_and_above() {
    let mut cfg = Config::new(4);
    assert!(cfg.update_device_count(2));
    assert!(!cfg.update_device_count(4));
    assert_eq!(cfg.device_count, 2);
    assert!(!cfg.update_device_count(5));
    assert_eq!(cfg.device_count, 2);
}

#[test]
fn select_index_within_chain() {
    let mut cfg = Config::new(4);
    assert!(cfg.update_device_count(3));
    assert!(cfg.select_index(1));
    assert_eq!(cfg.index, 1);
    assert!(cfg.select_index(2));
    assert_eq!(cfg.index, 2);
    // Selecting the already selected index is accepted and changes nothing.
    assert!(cfg.select_index(2));
    assert_eq!(cfg.index, 2);
}

#[test]
fn select_index_rejects_out_of_range() {
    let mut cfg = Config::new(4);
    assert!(cfg.update_device_count(2));
    assert!(cfg.select_index(1));
    assert!(!cfg.select_index(2));
    assert_eq!(cfg.index, 1);
    assert!(!cfg.select_index(255));
    assert_eq!(cfg.index, 1);
}

#[test]
fn current_tap_returns_selected_entry() {
    let mut cfg = Config::new(3);
    assert!(cfg.update_device_count(2));
    cfg.scan_chain[0] = TapConfig { ir_length: 4, ir_before: 0, ir_after: 5 };
    cfg.scan_chain[1] = TapConfig { ir_length: 5, ir_before: 4, ir_after: 0 };
    assert!(cfg.select_index(1));
    let tap = cfg.current_tap();
    assert_eq!(tap.ir_length, 5);
    assert_eq!(tap.ir_before, 4);
    assert_eq!(tap.ir_after, 0);
}

#[test]
fn bypass_accounting_on_concrete_chain() {
    // One bypass bit per device before the target, the target itself, one
    // per device after: together the whole chain.
    let index: u8 = 2;
    let device_count: u8 = 5;
    assert_eq!(index as u32 + 1 + (device_count - index - 1) as u32, device_count as u32);
}
