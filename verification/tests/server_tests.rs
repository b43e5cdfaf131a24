use cegel_print_bridge::config::{BridgeConfig, PrinterConfig, PrinterConnectionConfig};
use cegel_print_bridge::server::{
    configure_printer, cors_origins, delete_printer, drawer_printer_job, enforce_business,
    health_response, list_printers, prepare_print_job, printer_test_job, resolve_connection,
    usb_test_job, AppError, Base64Error, ConfigureConnectionRequest, ConfigurePrinterRequest,
    ErrorStatus,
};
use cegel_print_bridge::types::{Connection, ConnectionType, PrintJob};
use cegel_print_bridge::usb_scan::UsbDeviceInfo;

fn empty_connection() -> Connection {
    Connection {
        conn_type: ConnectionType::Usb,
        host: None,
        port: None,
        vendor_id: None,
        product_id: None,
        path: None,
        baud_rate: None,
        mac_address: None,
    }
}

fn network_printer(id: &str, drawer_pin: u8) -> PrinterConfig {
    PrinterConfig {
        id: id.to_string(),
        name: "Caja".to_string(),
        paper_width_mm: 58,
        drawer_pin,
        connection: PrinterConnectionConfig {
            conn_type: "network".to_string(),
            host: Some("192.168.1.50".to_string()),
            port: Some(9100),
            vendor_id: None,
            product_id: None,
            path: None,
        },
        online: false,
    }
}

fn job(printer_id: &str, payload: &str) -> PrintJob {
    PrintJob {
        bytes_base64: payload.to_string(),
        connection: empty_connection(),
        printer_id: printer_id.to_string(),
        label: None,
    }
}

fn err_of<T>(r: Result<T, AppError>) -> (u16, String) {
    match r {
        Ok(_) => panic!("expected a refusal"),
        Err(e) => (e.status.code(), e.message),
    }
}

#[test]
fn unpaired_bridge_accepts_listed_origin_and_no_origin() {
    let cfg = BridgeConfig::default();
    assert!(enforce_business(&cfg, Some("https://cegel.app"), None).is_ok());
    assert!(enforce_business(&cfg, None, None).is_ok());
    assert!(enforce_business(&cfg, Some(""), Some("anything")).is_ok());
}

#[test]
fn foreign_origin_is_forbidden() {
    let cfg = BridgeConfig::default();
    let (code, msg) = err_of(enforce_business(&cfg, Some("https://evil.example"), None));
    assert_eq!(code, 403);
    assert_eq!(msg, "Origin no autorizado");
}

#[test]
fn paired_bridge_checks_business_header() {
    let mut cfg = BridgeConfig::default();
    cfg.paired_business_id = Some("biz-1".to_string());
    assert!(enforce_business(&cfg, Some("https://www.cegel.app"), Some("biz-1")).is_ok());
    let (code, msg) = err_of(enforce_business(&cfg, Some("https://www.cegel.app"), Some("biz-2")));
    assert_eq!((code, msg.as_str()), (403, "Negocio no autorizado"));
    let (code, msg) = err_of(enforce_business(&cfg, None, None));
    assert_eq!((code, msg.as_str()), (403, "Negocio no autorizado"));
}

#[test]
fn print_job_with_stored_printer_resolves_its_connection() {
    let mut cfg = BridgeConfig::default();
    cfg.printers.push(network_printer("p1", 0));
    let (c, bytes) = prepare_print_job(&cfg, &job("p1", "aGVsbG8=")).unwrap();
    assert_eq!(bytes, b"hello".to_vec());
    assert_eq!(c.conn_type, ConnectionType::Network);
    assert_eq!(c.host.as_deref(), Some("192.168.1.50"));
    assert_eq!(c.port, Some(9100));
    assert!(c.baud_rate.is_none());
}

#[test]
fn print_job_with_explicit_connection_keeps_it() {
    let cfg = BridgeConfig::default();
    let mut j = job("unknown", "AQID");
    j.connection.vendor_id = Some("04b8".to_string());
    j.connection.product_id = Some("0e15".to_string());
    let (c, bytes) = prepare_print_job(&cfg, &j).unwrap();
    assert_eq!(bytes, vec![1, 2, 3]);
    assert_eq!(c.vendor_id.as_deref(), Some("04b8"));
    assert_eq!(c.product_id.as_deref(), Some("0e15"));
}

#[test]
fn print_job_refusals() {
    let mut cfg = BridgeConfig::default();
    cfg.printers.push(network_printer("p1", 0));
    assert_eq!(err_of(prepare_print_job(&cfg, &job("", "aGVsbG8="))), (400, "printerId invalido".to_string()));
    let long_id = "x".repeat(101);
    assert_eq!(err_of(prepare_print_job(&cfg, &job(&long_id, "aGVsbG8="))).1, "printerId invalido");
    let id_100 = "x".repeat(100);
    assert_eq!(err_of(prepare_print_job(&cfg, &job(&id_100, "aGVsbG8="))).0, 404);
    assert_eq!(
        err_of(prepare_print_job(&cfg, &job("p1", "!!!!"))),
        (400, "bytesBase64 invalido: Invalid symbol 33, offset 0.".to_string())
    );
    assert_eq!(err_of(prepare_print_job(&cfg, &job("p1", ""))), (400, "payload vacio".to_string()));
    assert_eq!(
        err_of(prepare_print_job(&cfg, &job("other", "aGVsbG8="))),
        (404, "impresora no encontrada en el bridge".to_string())
    );
    let big = "A".repeat(5 * 1024 * 1024 + 4);
    assert_eq!(
        err_of(prepare_print_job(&cfg, &job("p1", &big))),
        (400, "payload demasiado grande".to_string())
    );
}

#[test]
fn base64_error_texts() {
    assert_eq!(Base64Error::InvalidByte(3, 64).message(), "Invalid symbol 64, offset 3.");
    assert_eq!(Base64Error::InvalidLength(5).message(), "Invalid input length: 5");
    assert_eq!(Base64Error::InvalidLastSymbol(2, 66).message(), "Invalid last symbol 66, offset 2.");
    assert_eq!(Base64Error::InvalidPadding.message(), "Invalid padding");
}

#[test]
fn resolve_connection_prefers_first_stored_printer() {
    let mut cfg = BridgeConfig::default();
    let mut second = network_printer("p1", 0);
    second.connection.host = Some("10.0.0.9".to_string());
    cfg.printers.push(network_printer("p1", 0));
    cfg.printers.push(second);
    let c = resolve_connection(&cfg, &job("p1", "AA==")).unwrap();
    assert_eq!(c.host.as_deref(), Some("192.168.1.50"));
}

#[test]
fn unknown_connection_kind_is_usb() {
    let mut cfg = BridgeConfig::default();
    let mut p = network_printer("p1", 0);
    p.connection.conn_type = "parallel".to_string();
    cfg.printers.push(p);
    let c = resolve_connection(&cfg, &job("p1", "AA==")).unwrap();
    assert_eq!(c.conn_type, ConnectionType::Usb);
}

#[test]
fn list_shows_every_printer_in_order() {
    let mut cfg = BridgeConfig::default();
    cfg.printers.push(network_printer("a", 0));
    cfg.printers.push(network_printer("b", 5));
    let list = list_printers(&cfg);
    assert_eq!(list.len(), 2);
    assert_eq!(list[0].id, "a");
    assert_eq!(list[1].id, "b");
    assert_eq!(list[1].drawer_pin, 5);
    assert_eq!(list[0].connection.conn_type, "network");
    assert_eq!(list[0].connection.port, Some(9100));
}

fn configure_request(id: &str, name: &str, connection: Option<ConfigureConnectionRequest>) -> ConfigurePrinterRequest {
    ConfigurePrinterRequest {
        id: id.to_string(),
        name: name.to_string(),
        paper_width_mm: 80,
        drawer_pin: 2,
        connection,
    }
}

fn detected_device() -> UsbDeviceInfo {
    UsbDeviceInfo {
        vendor_id: "04B8".to_string(),
        product_id: "0E15".to_string(),
        manufacturer: Some("EPSON".to_string()),
        product: Some("TM-T20".to_string()),
        serial_number: None,
    }
}

#[test]
fn configure_creates_printer_from_detected_usb() {
    let mut cfg = BridgeConfig::default();
    let info = configure_printer(&mut cfg, configure_request("", "  Caja 1  ", None), &vec![detected_device()]).unwrap();
    assert_eq!(info.name, "Caja 1");
    assert_eq!(info.connection.conn_type, "usb");
    assert_eq!(info.connection.vendor_id.as_deref(), Some("04B8"));
    assert_eq!(info.connection.product_id.as_deref(), Some("0E15"));
    assert!(!info.online);
    assert_eq!(info.id.len(), 36);
    assert_eq!(cfg.printers.len(), 1);
    assert_eq!(cfg.printers[0].id, info.id);
}

#[test]
fn configure_updates_existing_printer() {
    let mut cfg = BridgeConfig::default();
    let mut p = network_printer("p1", 0);
    p.online = true;
    cfg.printers.push(p);
    let conn = ConfigureConnectionRequest {
        conn_type: "serial".to_string(),
        host: None,
        port: None,
        vendor_id: None,
        product_id: None,
        path: Some("/dev/ttyUSB0".to_string()),
    };
    let info = configure_printer(&mut cfg, configure_request("p1", "Barra", Some(conn)), &vec![]).unwrap();
    assert_eq!(info.id, "p1");
    assert_eq!(info.name, "Barra");
    assert!(info.online);
    assert_eq!(cfg.printers.len(), 1);
    assert_eq!(cfg.printers[0].connection.conn_type, "serial");
    assert_eq!(cfg.printers[0].drawer_pin, 2);
}

#[test]
fn configure_refusals() {
    let mut cfg = BridgeConfig::default();
    assert_eq!(
        err_of(configure_printer(&mut cfg, configure_request("", "   ", None), &vec![detected_device()])),
        (400, "name es requerido".to_string())
    );
    assert_eq!(
        err_of(configure_printer(&mut cfg, configure_request("", "Caja", None), &vec![])),
        (400, "No se detecto impresora USB. Conectala o especifica connection.".to_string())
    );
    assert_eq!(
        err_of(configure_printer(&mut cfg, configure_request("nope", "Caja", None), &vec![detected_device()])),
        (404, "impresora no encontrada".to_string())
    );
    assert!(cfg.printers.is_empty());
}

#[test]
fn delete_removes_printer_or_answers_404() {
    let mut cfg = BridgeConfig::default();
    cfg.printers.push(network_printer("a", 0));
    cfg.printers.push(network_printer("b", 0));
    assert!(delete_printer(&mut cfg, "a").is_ok());
    assert_eq!(cfg.printers.len(), 1);
    assert_eq!(cfg.printers[0].id, "b");
    assert_eq!(err_of(delete_printer(&mut cfg, "a")), (404, "impresora no encontrada".to_string()));
}

#[test]
fn test_job_for_stored_printer() {
    let mut cfg = BridgeConfig::default();
    cfg.printers.push(network_printer("p1", 2));
    let (bytes, c) = printer_test_job(&cfg, "p1").unwrap();
    assert_eq!(&bytes[..2], &[0x1B, 0x40]);
    assert!(bytes.windows(5).any(|w| w == [0x1B, 0x70, 0x00, 0x19, 0xFF]));
    assert_eq!(c.conn_type, ConnectionType::Network);
    assert_eq!(err_of(printer_test_job(&cfg, "zz")).0, 404);
}

#[test]
fn drawer_job_uses_pin() {
    let mut cfg = BridgeConfig::default();
    cfg.printers.push(network_printer("p0", 0));
    cfg.printers.push(network_printer("p2", 2));
    cfg.printers.push(network_printer("p5", 5));
    assert_eq!(
        err_of(drawer_printer_job(&cfg, "p0")),
        (400, "Esta impresora no tiene cajon configurado".to_string())
    );
    assert_eq!(drawer_printer_job(&cfg, "p2").unwrap().0, vec![0x1B, 0x70, 0x00, 0x19, 0xFF]);
    assert_eq!(drawer_printer_job(&cfg, "p5").unwrap().0, vec![0x1B, 0x70, 0x01, 0x19, 0xFF]);
    assert_eq!(err_of(drawer_printer_job(&cfg, "none")).0, 404);
}

#[test]
fn usb_test_job_targets_device() {
    let (c, bytes) = usb_test_job("04B8".to_string(), "0E15".to_string());
    assert_eq!(c.conn_type, ConnectionType::Usb);
    assert_eq!(c.vendor_id.as_deref(), Some("04B8"));
    assert_eq!(&bytes[..2], &[0x1B, 0x40]);
    assert!(!bytes.windows(3).any(|w| w == [0x1B, 0x70, 0x00]));
}

#[test]
fn health_reports_pairing() {
    let mut cfg = BridgeConfig::default();
    let h = health_response(&cfg, "0.2.6");
    assert!(h.ok);
    assert_eq!(h.version, "0.2.6");
    assert_eq!(h.name, "Cegel Print Bridge");
    assert!(!h.paired);
    cfg.paired_business_id = Some("biz".to_string());
    let h = health_response(&cfg, "0.2.6");
    assert!(h.paired);
    assert_eq!(h.business_id.as_deref(), Some("biz"));
    assert_eq!(h.device_id, cfg.device_id);
}

#[test]
fn cors_drops_origins_that_cannot_be_headers() {
    let mut cfg = BridgeConfig::default();
    cfg.allowed_origins = vec![
        "https://a.example".to_string(),
        "bad\norigin".to_string(),
        "https://b.example".to_string(),
    ];
    assert_eq!(cors_origins(&cfg), vec!["https://a.example", "https://b.example"]);
}

#[test]
fn error_status_codes_and_body() {
    assert_eq!(ErrorStatus::BadRequest.code(), 400);
    assert_eq!(ErrorStatus::Forbidden.code(), 403);
    assert_eq!(ErrorStatus::NotFound.code(), 404);
    assert_eq!(ErrorStatus::Internal.code(), 500);
    let body = AppError::internal("boom".to_string()).to_response();
    assert!(!body.ok);
    assert_eq!(body.error, "boom");
}

#[test]
fn default_cors_admits_web_app_and_dev_server() {
    let cfg = BridgeConfig::default();
    let origins = cors_origins(&cfg);
    for o in [
        "https://www.cegel.app",
        "https://cegel.app",
        "http://localhost:5173",
        "http://127.0.0.1:5173",
    ] {
        assert!(origins.iter().any(|x| x == o), "{o}");
        assert!(enforce_business(&cfg, Some(o), None).is_ok(), "{o}");
    }
}

#[test]
fn deleting_a_created_printer_restores_the_list() {
    let mut cfg = BridgeConfig::default();
    cfg.printers.push(network_printer("a", 0));
    let info = configure_printer(&mut cfg, configure_request("", "Nueva", None), &vec![detected_device()]).unwrap();
    assert_eq!(cfg.printers.len(), 2);
    delete_printer(&mut cfg, &info.id).unwrap();
    let ids: Vec<&str> = cfg.printers.iter().map(|p| p.id.as_str()).collect();
    assert_eq!(ids, vec!["a"]);
}

#[test]
fn loaded_config_serves_the_web_app_of_its_business() {
    let mut stored = BridgeConfig::default();
    stored.allowed_origins = vec!["https://otra.app".to_string()];
    stored.paired_business_id = Some("biz-7".to_string());
    let cfg = cegel_print_bridge::config::merge_with_defaults(stored);
    assert!(enforce_business(&cfg, Some("https://www.cegel.app"), Some("biz-7")).is_ok());
    assert!(enforce_business(&cfg, Some("https://otra.app"), Some("biz-7")).is_ok());
    assert!(enforce_business(&cfg, Some("https://www.cegel.app"), Some("biz-8")).is_err());
}

#[test]
fn sent_job_answer_has_fresh_id() {
    let a = cegel_print_bridge::server::job_sent(42, Some("Cajon abierto".to_string()));
    let b = cegel_print_bridge::server::job_sent(42, None);
    assert!(a.ok);
    assert_eq!(a.bytes, 42);
    assert_eq!(a.message.as_deref(), Some("Cajon abierto"));
    assert!(b.message.is_none());
    assert_eq!(a.job_id.len(), 36);
    assert_ne!(a.job_id, b.job_id);
}
