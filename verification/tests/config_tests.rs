use cegel_print_bridge::config::{
    config_from_loaded, config_path, merge_with_defaults, BridgeConfig, PrinterConfig,
    PrinterConnectionConfig,
};

fn conn(kind: &str) -> PrinterConnectionConfig {
    PrinterConnectionConfig {
        conn_type: kind.to_string(),
        host: None,
        port: None,
        vendor_id: Some("04b8".to_string()),
        product_id: Some("0e15".to_string()),
        path: None,
    }
}

fn printer(id: &str, name: &str) -> PrinterConfig {
    PrinterConfig {
        id: id.to_string(),
        name: name.to_string(),
        paper_width_mm: 80,
        drawer_pin: 0,
        connection: conn("usb"),
        online: false,
    }
}

fn is_uuid_text(s: &str) -> bool {
    s.len() == 36
        && s.chars().enumerate().all(|(i, c)| {
            if [8, 13, 18, 23].contains(&i) {
                c == '-'
            } else {
                c.is_ascii_digit() || ('a'..='f').contains(&c)
            }
        })
        && s.as_bytes()[14] == b'4'
}

#[test]
fn default_config_values() {
    let cfg = BridgeConfig::default();
    assert_eq!(cfg.port, 9101);
    assert_eq!(
        cfg.allowed_origins,
        vec![
            "https://www.cegel.app",
            "https://cegel.app",
            "tauri://localhost",
            "http://localhost:5173",
            "http://127.0.0.1:5173"
        ]
    );
    assert!(cfg.paired_business_id.is_none());
    assert!(cfg.device_token.is_none());
    assert_eq!(cfg.cegel_api_base, "https://api.cegel.app");
    assert!(cfg.printers.is_empty());
    assert!(is_uuid_text(&cfg.device_id));
    let other = BridgeConfig::default();
    assert_ne!(cfg.device_id, other.device_id);
}

#[test]
fn api_base_must_use_https() {
    let mut cfg = BridgeConfig::default();
    assert!(cfg.validate_api_base().is_ok());
    cfg.cegel_api_base = "http://staging.cegel.app".to_string();
    assert_eq!(
        cfg.validate_api_base().unwrap_err(),
        "cegel_api_base debe usar HTTPS en producción (actual: http://staging.cegel.app)"
    );
}

#[test]
fn find_and_remove_printers() {
    let mut cfg = BridgeConfig::default();
    cfg.printers.push(printer("a", "Caja 1"));
    cfg.printers.push(printer("b", "Caja 2"));
    cfg.printers.push(printer("a", "Duplicada"));
    assert_eq!(cfg.find_printer("a").unwrap().name, "Caja 1");
    assert!(cfg.find_printer("zz").is_none());
    cfg.find_printer_mut("b").unwrap().online = true;
    assert!(cfg.printers[1].online);
    assert!(cfg.remove_printer("a"));
    assert_eq!(cfg.printers.len(), 1);
    assert_eq!(cfg.printers[0].id, "b");
    assert!(!cfg.remove_printer("a"));
    assert!(cfg.find_printer("a").is_none());
}

#[test]
fn add_printer_assigns_an_id_when_missing() {
    let mut cfg = BridgeConfig::default();
    cfg.add_printer(printer("", "Nueva"));
    cfg.add_printer(printer("fijo", "Otra"));
    assert!(is_uuid_text(&cfg.printers[0].id));
    assert_eq!(cfg.printers[0].name, "Nueva");
    assert_eq!(cfg.printers[1].id, "fijo");
    let id = cfg.printers[0].id.clone();
    assert_eq!(cfg.find_printer(&id).unwrap().name, "Nueva");
}

#[test]
fn upsert_and_mark_online() {
    let mut cfg = BridgeConfig::default();
    let created = cfg.upsert_printer(None, "Caja".to_string(), 58, 2, conn("usb")).unwrap();
    assert!(is_uuid_text(&created.id));
    assert!(!created.online);
    assert_eq!(cfg.printers.len(), 1);
    cfg.mark_online(&created.id);
    assert!(cfg.printers[0].online);
    let updated = cfg
        .upsert_printer(Some(&created.id), "Barra".to_string(), 80, 5, conn("network"))
        .unwrap();
    assert_eq!(updated.id, created.id);
    assert_eq!(updated.name, "Barra");
    assert_eq!(updated.drawer_pin, 5);
    assert!(updated.online);
    assert_eq!(cfg.printers[0].connection.conn_type, "network");
    assert!(cfg.upsert_printer(Some("nope"), "X".to_string(), 80, 0, conn("usb")).is_none());
    assert_eq!(cfg.printers.len(), 1);
}

#[test]
fn merge_keeps_stored_origins_and_adds_missing_defaults() {
    let mut cfg = BridgeConfig::default();
    cfg.allowed_origins = vec!["https://cegel.app".to_string(), "https://otra.app".to_string()];
    let merged = merge_with_defaults(cfg);
    assert_eq!(
        merged.allowed_origins,
        vec![
            "https://cegel.app",
            "https://otra.app",
            "https://www.cegel.app",
            "tauri://localhost",
            "http://localhost:5173",
            "http://127.0.0.1:5173"
        ]
    );
    let again = merge_with_defaults(merged.clone());
    assert_eq!(again.allowed_origins, merged.allowed_origins);
}

#[test]
fn loading_nothing_gives_defaults() {
    let cfg = config_from_loaded(None);
    assert_eq!(cfg.port, 9101);
    let mut stored = BridgeConfig::default();
    stored.port = 9200;
    stored.allowed_origins.clear();
    let loaded = config_from_loaded(Some(stored));
    assert_eq!(loaded.port, 9200);
    assert_eq!(loaded.allowed_origins.len(), 5);
}

#[test]
fn config_file_lives_in_the_directory() {
    let p = config_path("/home/caja/.cegel");
    assert!(p == "/home/caja/.cegel/bridge.json" || p == "/home/caja/.cegel\\bridge.json");
    assert!(p.ends_with("bridge.json"));
    assert_ne!(p, "/home/caja/.cegel");
}

#[test]
fn config_path_inserts_a_separator_only_when_needed() {
    assert_eq!(config_path(""), "bridge.json");
    assert_eq!(config_path("/home/caja/.cegel/"), "/home/caja/.cegel/bridge.json");
    let p = config_path("/home/u/.cegel");
    assert_ne!(p, "/home/u/.cegelbridge.json");
    assert!(p == "/home/u/.cegel/bridge.json" || p == "/home/u/.cegel\\bridge.json");
}
