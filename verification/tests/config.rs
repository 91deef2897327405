use efact_hardware_agent::config::{AgentConfig, PrinterConfig, ScaleConfig};
use efact_hardware_agent::config_store::{AgentConfigUpdate, ConfigStore, PrinterConfigUpdate};

#[test]
fn defaults_match_the_documentation() {
    let c = AgentConfig::default();
    assert_eq!(c.port, 8765);
    assert_eq!(c.tray_icon, "auto");
    assert_eq!(c.printer.usb_vendor_id, None);
    assert_eq!(c.printer.usb_product_id, None);
    assert_eq!(c.printer.usb_endpoint, 0x01);
    assert_eq!(c.printer.chunk_size, 4096);
    assert_eq!(c.printer.system_printer_name, None);
    assert!(!c.printer.prefer_system_backend);
    assert!(!c.scale.enabled);
    assert_eq!(c.scale.serial_port, None);
    assert_eq!(c.scale.protocol, "generic");
    assert_eq!(c.scale.baud_rate, 9600);
    assert_eq!(c.scale.data_bits, 8);
    assert_eq!(c.scale.parity, "none");
    assert_eq!(c.scale.stop_bits, 1);
    assert_eq!(c.scale.stable_reads, 3);
    assert_eq!(c.scale.stable_window_ms, 200);
}

#[test]
fn clone_keeps_every_field() {
    let mut c = AgentConfig::default();
    c.printer.system_printer_name = Some("EPSON".to_string());
    c.scale.serial_port = Some("COM3".to_string());
    let d = c.clone();
    assert_eq!(d.printer.system_printer_name.as_deref(), Some("EPSON"));
    assert_eq!(d.scale.serial_port.as_deref(), Some("COM3"));
    assert_eq!(d.tray_icon, c.tray_icon);
}

#[test]
fn empty_update_changes_nothing() {
    let u = AgentConfigUpdate { port: None, printer: None, scale: None };
    let next = u.merge_into(AgentConfig::default());
    assert_eq!(next.port, 8765);
    assert_eq!(next.printer.chunk_size, 4096);
    assert_eq!(next.scale.protocol, "generic");
}

#[test]
fn update_overrides_only_carried_fields() {
    let mut scale = ScaleConfig::default();
    scale.enabled = true;
    scale.serial_port = Some("/dev/ttyUSB0".to_string());
    let u = AgentConfigUpdate {
        port: Some(9000),
        printer: Some(PrinterConfigUpdate {
            system_printer_name: Some("Thermal".to_string()),
            chunk_size: Some(512),
            ..PrinterConfigUpdate::default()
        }),
        scale: Some(scale),
    };
    let mut current = AgentConfig::default();
    current.printer.usb_vendor_id = Some("04b8".to_string());
    current.tray_icon = "dark".to_string();
    let next = u.merge_into(current);
    assert_eq!(next.port, 9000);
    assert_eq!(next.tray_icon, "dark");
    assert_eq!(next.printer.system_printer_name.as_deref(), Some("Thermal"));
    assert_eq!(next.printer.chunk_size, 512);
    assert_eq!(next.printer.usb_vendor_id.as_deref(), Some("04b8"));
    assert_eq!(next.printer.usb_endpoint, 0x01);
    assert!(next.scale.enabled);
    assert_eq!(next.scale.serial_port.as_deref(), Some("/dev/ttyUSB0"));
}

#[test]
fn printer_update_does_not_clear_optional_fields() {
    let u = AgentConfigUpdate {
        port: None,
        printer: Some(PrinterConfigUpdate::default()),
        scale: None,
    };
    let mut current = AgentConfig::default();
    current.printer.usb_product_id = Some("0202".to_string());
    let next = u.merge_into(current);
    assert_eq!(next.printer.usb_product_id.as_deref(), Some("0202"));
}

#[test]
fn load_takes_first_readable_candidate() {
    let mut second = AgentConfig::default();
    second.port = 9100;
    let mut third = AgentConfig::default();
    third.port = 9200;
    let store = ConfigStore::load(
        vec![
            ("/a/config.toml".to_string(), None),
            ("/b/config.toml".to_string(), Some(second)),
            ("/c/config.toml".to_string(), Some(third)),
        ],
        "/default/config.toml".to_string(),
    );
    assert_eq!(store.path(), "/b/config.toml");
    assert_eq!(store.get().port, 9100);
}

#[test]
fn load_without_candidates_uses_defaults() {
    let store = ConfigStore::load(
        vec![("/a/config.toml".to_string(), None)],
        "/default/config.toml".to_string(),
    );
    assert_eq!(store.path(), "/default/config.toml");
    assert_eq!(store.get().port, 8765);
}

#[test]
fn read_after_save_returns_saved_config() {
    let mut store = ConfigStore::from_parts("/x/config.toml".to_string(), AgentConfig::default());
    let mut next = AgentConfig::default();
    next.scale.enabled = true;
    next.port = 8800;
    let path = store.record_saved(next);
    assert_eq!(path, "/x/config.toml");
    assert_eq!(store.path(), "/x/config.toml");
    let got = store.get();
    assert!(got.scale.enabled);
    assert_eq!(got.port, 8800);
}

#[test]
fn printer_default() {
    let p = PrinterConfig::default();
    assert_eq!(p.usb_endpoint, 1);
    assert_eq!(p.chunk_size, 4096);
}

#[test]
fn merging_twice_equals_merging_once() {
    let make = || AgentConfigUpdate {
        port: Some(9001),
        printer: Some(PrinterConfigUpdate {
            usb_endpoint: Some(2),
            ..PrinterConfigUpdate::default()
        }),
        scale: None,
    };
    let once = make().merge_into(AgentConfig::default());
    let twice = make().merge_into(make().merge_into(AgentConfig::default()));
    assert_eq!(once.port, twice.port);
    assert_eq!(once.printer.usb_endpoint, 2);
    assert_eq!(twice.printer.usb_endpoint, 2);
    assert_eq!(once.printer.chunk_size, twice.printer.chunk_size);
}
