use cegel_print_bridge::usb_scan::{device_info, list_usb_printers, RawUsbDevice};

fn raw(vendor_id: u16, product_id: u16, product: Option<&str>) -> RawUsbDevice {
    RawUsbDevice {
        vendor_id,
        product_id,
        manufacturer: None,
        product: product.map(|p| p.to_string()),
        serial_number: None,
    }
}

#[test]
fn device_ids_are_upper_hex() {
    let mut d = raw(0x04b8, 0x0e15, Some("TM-T20"));
    d.manufacturer = Some(String::new());
    d.serial_number = Some("X1".to_string());
    let info = device_info(&d);
    assert_eq!(info.vendor_id, "04B8");
    assert_eq!(info.product_id, "0E15");
    assert!(info.manufacturer.is_none());
    assert_eq!(info.product.as_deref(), Some("TM-T20"));
    assert_eq!(info.serial_number.as_deref(), Some("X1"));
}

#[test]
fn listing_drops_duplicates_and_puts_pos_vendors_first() {
    let devices = vec![
        raw(0x1234, 0x0001, Some("Webcam")),
        raw(0x0519, 0x0003, Some("TSP100")),
        raw(0x04B8, 0x0E15, Some("TM-T20")),
        raw(0x0519, 0x0003, Some("TSP100 again")),
        raw(0xABCD, 0x0002, None),
    ];
    let list = list_usb_printers(&devices);
    let ids: Vec<(String, String)> =
        list.iter().map(|d| (d.vendor_id.clone(), d.product_id.clone())).collect();
    assert_eq!(
        ids,
        vec![
            ("04B8".to_string(), "0E15".to_string()),
            ("0519".to_string(), "0003".to_string()),
            ("ABCD".to_string(), "0002".to_string()),
            ("1234".to_string(), "0001".to_string()),
        ]
    );
    assert_eq!(list[1].product.as_deref(), Some("TSP100"));
}

#[test]
fn empty_scan_lists_nothing() {
    assert!(list_usb_printers(&Vec::new()).is_empty());
}
