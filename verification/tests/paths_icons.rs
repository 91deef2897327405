use efact_hardware_agent::config::AgentConfig;
use efact_hardware_agent::cors::{cors_headers, is_preflight};
use efact_hardware_agent::icon::{default_auto_style, TrayIconStyle};
use efact_hardware_agent::paths::{
    config_dir, config_file_candidates, default_config_path, log_dir, PathEnv, Platform,
    APP_DISPLAY_NAME, APP_NAME, LEGACY_APP_NAME,
};
use efact_hardware_agent::tray::status_label;

fn unix_env(home: Option<&str>) -> PathEnv {
    PathEnv {
        platform: Platform::Other,
        home: home.map(|h| h.to_string()),
        app_data: None,
        local_app_data: None,
        temp_dir: "/tmp".to_string(),
        exe_dir: None,
    }
}

#[test]
fn names() {
    assert_eq!(APP_NAME, "efact-hardware-agent");
    assert_eq!(LEGACY_APP_NAME, "efact-printer-agent");
    assert_eq!(APP_DISPLAY_NAME, "eFact Hardware Agent");
}

#[test]
fn config_dir_under_home() {
    let env = unix_env(Some("/home/u"));
    assert_eq!(config_dir(&env), "/home/u/.config/efact-hardware-agent");
    assert_eq!(default_config_path(&env), "/home/u/.config/efact-hardware-agent/config.toml");
}

#[test]
fn default_config_path_is_config_dir_with_file() {
    let mut env = unix_env(Some("/home/pos"));
    assert_eq!(default_config_path(&env), format!("{}/config.toml", config_dir(&env)));
    env.home = Some("/home/pos/".to_string());
    assert_eq!(config_dir(&env), "/home/pos/.config/efact-hardware-agent");
}

#[test]
fn config_dir_falls_back_to_temp() {
    let env = unix_env(None);
    assert_eq!(config_dir(&env), "/tmp/efact-hardware-agent");
    assert_eq!(default_config_path(&env), "/tmp/efact-hardware-agent/config.toml");
}

#[test]
fn candidates_in_search_order() {
    let mut env = unix_env(Some("/home/u"));
    env.exe_dir = Some("/opt/agent".to_string());
    assert_eq!(
        config_file_candidates(&env),
        vec![
            "/opt/agent/config.toml".to_string(),
            "/home/u/.config/efact-hardware-agent/config.toml".to_string(),
            "/home/u/.config/efact-printer-agent/config.toml".to_string(),
        ]
    );
    assert!(config_file_candidates(&unix_env(None)).is_empty());
}

#[test]
fn log_dirs_per_platform() {
    let env = unix_env(Some("/home/u"));
    assert_eq!(log_dir(&env), "/home/u/.local/share/efact-hardware-agent");
    let mut mac = unix_env(Some("/Users/u"));
    mac.platform = Platform::MacOs;
    assert_eq!(log_dir(&mac), "/Users/u/Library/Logs/efact-hardware-agent");
    assert_eq!(log_dir(&unix_env(None)), "/tmp/.local/share/efact-hardware-agent");
}

#[test]
fn windows_uses_appdata() {
    let env = PathEnv {
        platform: Platform::Windows,
        home: None,
        app_data: Some("/appdata".to_string()),
        local_app_data: Some("/local".to_string()),
        temp_dir: "/tmp".to_string(),
        exe_dir: None,
    };
    assert_eq!(config_dir(&env), "/appdata/efact-hardware-agent");
    assert_eq!(log_dir(&env), "/local/efact-hardware-agent");
}

#[test]
fn tray_style_names() {
    assert_eq!(TrayIconStyle::parse(" Brand ", Platform::Other), TrayIconStyle::Color);
    assert_eq!(TrayIconStyle::parse("WHITE", Platform::Other), TrayIconStyle::Light);
    assert_eq!(TrayIconStyle::parse("monochrome", Platform::Windows), TrayIconStyle::Dark);
    assert_eq!(TrayIconStyle::parse("auto", Platform::Windows), TrayIconStyle::Color);
    assert_eq!(TrayIconStyle::parse("auto", Platform::Other), TrayIconStyle::Dark);
    assert_eq!(TrayIconStyle::parse("sparkly", Platform::MacOs), TrayIconStyle::Dark);
    assert_eq!(default_auto_style(Platform::Windows), TrayIconStyle::Color);
    assert_eq!(default_auto_style(Platform::MacOs), TrayIconStyle::Dark);
}

#[test]
fn status_label_defaults() {
    let c = AgentConfig::default();
    assert_eq!(status_label(&c), "Impresora: auto (HID o sistema) | Balanza: desactivada");
}

#[test]
fn status_label_configured() {
    let mut c = AgentConfig::default();
    c.printer.system_printer_name = Some("EPSON TM".to_string());
    c.scale.enabled = true;
    c.scale.serial_port = Some("COM3".to_string());
    assert_eq!(status_label(&c), "Impresora: EPSON TM | Balanza: generic (COM3)");
    c.printer.system_printer_name = None;
    c.printer.prefer_system_backend = true;
    c.scale.serial_port = None;
    assert_eq!(
        status_label(&c),
        "Impresora: sistema (predeterminada) | Balanza: generic (sin puerto)"
    );
}

#[test]
fn empty_home_gets_no_leading_separator() {
    let env = unix_env(Some(""));
    assert_eq!(config_dir(&env), ".config/efact-hardware-agent");
}

#[test]
fn cors_headers_for_preflight_and_responses() {
    assert!(is_preflight("OPTIONS"));
    assert!(!is_preflight("GET"));
    assert_eq!(
        cors_headers(true),
        vec![
            ("Access-Control-Allow-Origin", "*"),
            ("Access-Control-Allow-Methods", "GET, PUT, POST, OPTIONS"),
            ("Access-Control-Allow-Headers", "*"),
            ("Access-Control-Allow-Private-Network", "true"),
        ]
    );
    assert_eq!(
        cors_headers(false),
        vec![("Access-Control-Allow-Origin", "*"), ("Access-Control-Allow-Private-Network", "true")]
    );
}
