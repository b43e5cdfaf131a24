use cegel_print_bridge::commands::{bridge_status, configure_printer_command, safe_config};
use cegel_print_bridge::config::BridgeConfig;
use cegel_print_bridge::usb_scan::UsbDeviceInfo;

fn detected() -> UsbDeviceInfo {
    UsbDeviceInfo {
        vendor_id: "0519".to_string(),
        product_id: "0003".to_string(),
        manufacturer: None,
        product: Some("TSP100".to_string()),
        serial_number: None,
    }
}

#[test]
fn safe_config_hides_token() {
    let mut cfg = BridgeConfig::default();
    cfg.device_token = Some("secret".to_string());
    cfg.paired_business_id = Some("biz".to_string());
    let s = safe_config(&cfg);
    assert_eq!(s.port, 9101);
    assert_eq!(s.allowed_origins, cfg.allowed_origins);
    assert_eq!(s.paired_business_id.as_deref(), Some("biz"));
    assert_eq!(s.device_id, cfg.device_id);
    assert_eq!(s.cegel_api_base, "https://api.cegel.app");
}

#[test]
fn status_reports_token_as_paired() {
    let mut cfg = BridgeConfig::default();
    let st = bridge_status(&cfg, "0.2.6");
    assert!(st.ok);
    assert!(!st.paired);
    assert_eq!(st.version, "0.2.6");
    cfg.device_token = Some("t".to_string());
    assert!(bridge_status(&cfg, "0.2.6").paired);
}

#[test]
fn window_configures_detected_printer_with_defaults() {
    let mut cfg = BridgeConfig::default();
    let p = configure_printer_command(&mut cfg, None, " Caja ".to_string(), None, None, None, None, &vec![detected()])
        .unwrap();
    assert_eq!(p.name, "Caja");
    assert_eq!(p.paper_width_mm, 80);
    assert_eq!(p.drawer_pin, 0);
    assert_eq!(p.connection.conn_type, "usb");
    assert_eq!(p.connection.vendor_id.as_deref(), Some("0519"));
    assert_eq!(cfg.printers.len(), 1);
}

#[test]
fn window_uses_given_ids_and_updates() {
    let mut cfg = BridgeConfig::default();
    let p = configure_printer_command(&mut cfg, None, "A".to_string(), Some(58), Some(5), None, None, &vec![detected()])
        .unwrap();
    let q = configure_printer_command(
        &mut cfg,
        Some(p.id.clone()),
        "B".to_string(),
        None,
        None,
        Some("04B8".to_string()),
        Some("0E15".to_string()),
        &vec![],
    )
    .unwrap();
    assert_eq!(q.id, p.id);
    assert_eq!(q.name, "B");
    assert_eq!(q.connection.product_id.as_deref(), Some("0E15"));
    assert_eq!(cfg.printers.len(), 1);
}

#[test]
fn window_refusals() {
    let mut cfg = BridgeConfig::default();
    assert_eq!(
        configure_printer_command(&mut cfg, None, "A".to_string(), None, None, Some("04B8".to_string()), None, &vec![])
            .unwrap_err(),
        "No se detectó impresora USB"
    );
    assert_eq!(
        configure_printer_command(&mut cfg, Some("x".to_string()), "A".to_string(), None, None, None, None, &vec![detected()])
            .unwrap_err(),
        "Impresora no encontrada"
    );
    assert!(cfg.printers.is_empty());
}
