use cegel_print_bridge::adapters::{
    check_usb_write, choose_out_endpoint, configs_to_visit, has_out_endpoint, usb_open_error, is_forbidden_addr, parse_hex_u16,
    plan_send, validate_serial_path, EndpointCandidate, IpAddress, OsFamily, SendError,
    TransferKind, Transport,
};
use cegel_print_bridge::types::{Connection, ConnectionType};

fn connection(kind: ConnectionType) -> Connection {
    Connection {
        conn_type: kind,
        host: None,
        port: None,
        vendor_id: None,
        product_id: None,
        path: None,
        baud_rate: None,
        mac_address: None,
    }
}

#[test]
fn network_plan_defaults_to_port_9100() {
    let mut c = connection(ConnectionType::Network);
    assert_eq!(plan_send(&c, OsFamily::Unix), Err(SendError::MissingHost));
    assert_eq!(
        plan_send(&c, OsFamily::Unix).unwrap_err().message(),
        "connection.host requerido para tipo network"
    );
    c.host = Some("192.168.1.50".to_string());
    assert_eq!(
        plan_send(&c, OsFamily::Unix),
        Ok(Transport::Network { host: "192.168.1.50".to_string(), port: 9100 })
    );
    c.port = Some(9200);
    assert_eq!(
        plan_send(&c, OsFamily::Unix),
        Ok(Transport::Network { host: "192.168.1.50".to_string(), port: 9200 })
    );
}

#[test]
fn usb_plan_parses_both_ids() {
    let mut c = connection(ConnectionType::Usb);
    assert_eq!(plan_send(&c, OsFamily::Unix), Err(SendError::MissingVendorId));
    c.vendor_id = Some("04zz".to_string());
    let err = plan_send(&c, OsFamily::Unix).unwrap_err();
    assert_eq!(err.message(), "vendorId='04zz' no es un hex válido");
    c.vendor_id = Some("04b8".to_string());
    assert_eq!(plan_send(&c, OsFamily::Unix), Err(SendError::MissingProductId));
    assert_eq!(
        SendError::MissingProductId.message(),
        "connection.productId requerido para USB"
    );
    c.product_id = Some("0x0e15".to_string());
    assert_eq!(
        plan_send(&c, OsFamily::Unix),
        Ok(Transport::Usb { vendor_id: 0x04b8, product_id: 0x0e15 })
    );
    assert_eq!(parse_hex_u16("productId", " 0E15"), Ok(0x0e15));
}

#[test]
fn serial_plan_checks_the_device_path() {
    let mut c = connection(ConnectionType::Serial);
    assert_eq!(plan_send(&c, OsFamily::Unix), Err(SendError::MissingSerialPath));
    c.path = Some("/dev/tty.usbserial".to_string());
    assert_eq!(
        plan_send(&c, OsFamily::Unix),
        Ok(Transport::Serial { path: "/dev/tty.usbserial".to_string(), baud_rate: 9600 })
    );
    c.baud_rate = Some(115200);
    assert_eq!(
        plan_send(&c, OsFamily::Unix),
        Ok(Transport::Serial { path: "/dev/tty.usbserial".to_string(), baud_rate: 115200 })
    );
    c.path = Some("/etc/passwd".to_string());
    assert_eq!(
        plan_send(&c, OsFamily::Unix).unwrap_err().message(),
        "path serial inválido: /etc/passwd (solo /dev/tty* o /dev/cu.*)"
    );
}

#[test]
fn bluetooth_is_refused() {
    let c = connection(ConnectionType::Bluetooth);
    let e = plan_send(&c, OsFamily::Unix).unwrap_err();
    assert_eq!(e, SendError::BluetoothUnsupported);
    assert_eq!(e.message(), "Bluetooth aún no está soportado en esta versión del Print Bridge");
}

#[test]
fn serial_paths_by_platform() {
    assert_eq!(validate_serial_path("/dev/ttyUSB0", OsFamily::Unix), Ok(()));
    assert_eq!(validate_serial_path("/dev/cu.usbserial-1", OsFamily::Unix), Ok(()));
    assert_eq!(
        validate_serial_path("/dev/tty/../../etc/shadow", OsFamily::Unix),
        Err(SendError::SerialPathTraversal)
    );
    assert_eq!(
        SendError::SerialPathTraversal.message(),
        "path serial inválido (path traversal)"
    );
    assert_eq!(validate_serial_path("/dev/tty..x", OsFamily::Unix), Ok(()));
    assert!(validate_serial_path("COM3", OsFamily::Unix).is_err());
    assert_eq!(validate_serial_path("COM3", OsFamily::Windows), Ok(()));
    assert_eq!(validate_serial_path("com10", OsFamily::Windows), Ok(()));
    assert_eq!(validate_serial_path("\\\\.\\COM12", OsFamily::Windows), Ok(()));
    assert_eq!(
        validate_serial_path("COM3\\..\\x", OsFamily::Windows),
        Err(SendError::SerialPathTraversal)
    );
    assert_eq!(
        validate_serial_path("LPT1", OsFamily::Windows).unwrap_err().message(),
        "path serial inválido: LPT1 (solo COM*)"
    );
}

#[test]
fn forbidden_addresses() {
    assert!(is_forbidden_addr(&IpAddress::V4([169, 254, 169, 254])));
    assert!(is_forbidden_addr(&IpAddress::V4([224, 0, 0, 1])));
    assert!(is_forbidden_addr(&IpAddress::V4([239, 255, 255, 255])));
    assert!(is_forbidden_addr(&IpAddress::V4([255, 255, 255, 255])));
    assert!(is_forbidden_addr(&IpAddress::V4([0, 0, 0, 0])));
    assert!(is_forbidden_addr(&IpAddress::V4([192, 0, 2, 10])));
    assert!(is_forbidden_addr(&IpAddress::V4([198, 51, 100, 1])));
    assert!(is_forbidden_addr(&IpAddress::V4([203, 0, 113, 7])));
    assert!(!is_forbidden_addr(&IpAddress::V4([192, 168, 1, 50])));
    assert!(!is_forbidden_addr(&IpAddress::V4([127, 0, 0, 1])));
    assert!(!is_forbidden_addr(&IpAddress::V4([10, 0, 0, 1])));
    assert!(is_forbidden_addr(&IpAddress::V6([0xff02, 0, 0, 0, 0, 0, 0, 1])));
    assert!(is_forbidden_addr(&IpAddress::V6([0; 8])));
    assert!(is_forbidden_addr(&IpAddress::V6([0xfe80, 0, 0, 0, 0, 0, 0, 1])));
    assert!(is_forbidden_addr(&IpAddress::V6([0xfebf, 0, 0, 0, 0, 0, 0, 1])));
    assert!(!is_forbidden_addr(&IpAddress::V6([0xfec0, 0, 0, 0, 0, 0, 0, 1])));
    assert!(!is_forbidden_addr(&IpAddress::V6([0, 0, 0, 0, 0, 0, 0, 1])));
    assert!(is_forbidden_addr(&IpAddress::V4([169, 254, 1, 1])));
    assert!(!is_forbidden_addr(&IpAddress::V4([8, 8, 8, 8])));
    assert!(is_forbidden_addr(&IpAddress::V4([224, 1, 1, 1])));
    assert!(is_forbidden_addr(&IpAddress::V4([192, 0, 2, 1])));
    assert!(is_forbidden_addr(&IpAddress::V4([0, 0, 0, 0])));
    assert_eq!(
        SendError::ForbiddenAddress {
            host: "metadata".to_string(),
            address: "169.254.169.254".to_string()
        }
        .message(),
        "host metadata resuelve a una dirección no permitida (169.254.169.254)"
    );
}

fn ep(cfg: u8, iface: u8, addr: u8, out: bool, t: TransferKind) -> EndpointCandidate {
    EndpointCandidate {
        config_index: cfg,
        interface_number: iface,
        address: addr,
        direction_out: out,
        transfer: t,
    }
}

#[test]
fn endpoint_choice_prefers_bulk() {
    let eps = vec![
        ep(1, 0, 0x81, false, TransferKind::Bulk),
        ep(1, 0, 0x02, true, TransferKind::Interrupt),
        ep(1, 1, 0x03, true, TransferKind::Interrupt),
        ep(2, 0, 0x04, true, TransferKind::Bulk),
        ep(2, 0, 0x05, true, TransferKind::Bulk),
    ];
    assert_eq!(choose_out_endpoint(&eps), Some(3));
    assert_eq!(choose_out_endpoint(&eps[..3].to_vec()), Some(1));
    assert_eq!(choose_out_endpoint(&eps[..1].to_vec()), None);
    assert_eq!(choose_out_endpoint(&vec![ep(1, 0, 1, true, TransferKind::Isochronous)]), None);
    assert!(has_out_endpoint(&eps));
    assert!(!has_out_endpoint(&eps[..1].to_vec()));
    assert_eq!(
        SendError::NoOutEndpoint.message(),
        "la impresora no expone endpoint bulk ni interrupt OUT"
    );
}

#[test]
fn partial_usb_writes_are_errors() {
    assert_eq!(check_usb_write(10, 10), Ok(()));
    assert_eq!(check_usb_write(12, 10), Ok(()));
    let e = check_usb_write(4, 10).unwrap_err();
    assert_eq!(e.message(), "escritura USB parcial: 4 de 10 bytes");
}

#[test]
fn configurations_are_visited_up_to_first_bulk_endpoint() {
    let es = vec![
        ep(0, 0, 0x81, false, TransferKind::Bulk),
        ep(1, 0, 0x02, true, TransferKind::Interrupt),
        ep(2, 1, 0x03, true, TransferKind::Bulk),
        ep(3, 0, 0x04, true, TransferKind::Bulk),
    ];
    assert_eq!(configs_to_visit(&es, 4), 3);
    let no_bulk = vec![ep(0, 0, 0x02, true, TransferKind::Interrupt)];
    assert_eq!(configs_to_visit(&no_bulk, 2), 2);
    assert_eq!(configs_to_visit(&vec![], 0), 0);
}

#[test]
fn unopenable_usb_device_is_reported() {
    let seen = vec![(0x1234, 0x0001), (0x04B8, 0x0E15)];
    assert_eq!(
        usb_open_error(0x04B8, 0x0E15, &seen),
        SendError::UsbNotAccessible { vendor_id: 0x04B8, product_id: 0x0E15 }
    );
    assert_eq!(
        usb_open_error(0x0519, 0x0003, &seen),
        SendError::UsbNotFound { vendor_id: 0x0519, product_id: 0x0003 }
    );
    assert_eq!(
        SendError::UsbNotFound { vendor_id: 0x0519, product_id: 0x0003 }.message(),
        "no se encontró impresora USB con vendor=0519 product=0003"
    );
    assert_eq!(
        SendError::UsbNotAccessible { vendor_id: 0x04B8, product_id: 0x0E15 }.message(),
        "USB 04b8:0e15 detectada pero no accesible. Instalá el driver WinUSB con Zadig (zadig.akeo.ie), seleccioná la impresora y hacé clic en 'Replace Driver'. Luego desconectá y reconectá la impresora."
    );
}

#[test]
fn only_bulk_or_interrupt_out_endpoints_make_a_printer() {
    let iso = vec![ep(0, 0, 0x01, true, TransferKind::Isochronous)];
    assert!(!has_out_endpoint(&iso));
    let control = vec![ep(0, 0, 0x00, true, TransferKind::Control)];
    assert!(!has_out_endpoint(&control));
    let bulk_in = vec![ep(0, 0, 0x81, false, TransferKind::Bulk)];
    assert!(!has_out_endpoint(&bulk_in));
    let interrupt = vec![ep(0, 0, 0x81, false, TransferKind::Bulk), ep(0, 1, 0x02, true, TransferKind::Interrupt)];
    assert!(has_out_endpoint(&interrupt));
}
