use cegel_print_bridge::ticket::{
    drawer_kick_bytes, format_ticket_date, generate_test_ticket, test_ticket_at,
};

fn expected_ticket(width: u8, drawer: bool, date: &str) -> Vec<u8> {
    let mut buf: Vec<u8> = Vec::new();
    buf.extend_from_slice(&[0x1B, 0x40]);
    buf.extend_from_slice(&[0x1B, 0x61, 0x01]);
    buf.extend_from_slice(b"\n");
    buf.extend_from_slice(b"==== CEGEL PRINT BRIDGE ====\n");
    buf.extend_from_slice(b"   Ticket de prueba\n");
    buf.extend_from_slice(b"\n");
    buf.extend_from_slice(&[0x1B, 0x61, 0x00]);
    let line = if width <= 58 { "-".repeat(32) } else { "-".repeat(48) };
    buf.extend_from_slice(line.as_bytes());
    buf.extend_from_slice(b"\n");
    buf.extend_from_slice(b"Fecha : ");
    buf.extend_from_slice(date.as_bytes());
    buf.extend_from_slice(b"\n");
    buf.extend_from_slice(format!("Papel : {} mm\n", width).as_bytes());
    buf.extend_from_slice(b"Estado: Conexion exitosa\n");
    buf.extend_from_slice(line.as_bytes());
    buf.extend_from_slice(b"\n\n");
    buf.extend_from_slice(&[0x1B, 0x61, 0x01]);
    buf.extend_from_slice(b"TODO FUNCIONA CORRECTAMENTE\n");
    buf.extend_from_slice(b"La impresora esta lista para\n");
    buf.extend_from_slice(b"imprimir recibos y facturas.\n");
    buf.extend_from_slice(b"\n");
    buf.extend_from_slice(line.as_bytes());
    buf.extend_from_slice(b"\n");
    if drawer {
        buf.extend_from_slice(&[0x1B, 0x70, 0x00, 0x19, 0xFF]);
    }
    buf.extend_from_slice(b"\n\n\n\n");
    buf.extend_from_slice(&[0x1D, 0x56, 0x00]);
    buf
}

#[test]
fn ticket_date_formula() {
    assert_eq!(format_ticket_date(0), "2024-01-01 00:00");
    // 400 days, 13:45: year 2025, remaining 35 days -> month 2, day 6.
    assert_eq!(format_ticket_date(400 * 86400 + 13 * 3600 + 45 * 60 + 59), "2025-02-06 13:45");
    // Day 364 of a 365-day year: month 13 and day 5 are clamped to 12 and 5.
    assert_eq!(format_ticket_date(364 * 86400), "2024-12-05 00:00");
    // Day 29 of a month is clamped to 28.
    assert_eq!(format_ticket_date(29 * 86400), "2024-01-28 00:00");
}

#[test]
fn ticket_bytes_80mm_without_drawer() {
    assert_eq!(test_ticket_at(80, false, 0), expected_ticket(80, false, "2024-01-01 00:00"));
}

#[test]
fn ticket_bytes_58mm_with_drawer() {
    let t = test_ticket_at(58, true, 86400 * 31);
    assert_eq!(t, expected_ticket(58, true, "2024-02-02 00:00"));
    assert!(t.windows(5).any(|w| w == [0x1B, 0x70, 0x00, 0x19, 0xFF]));
    assert_eq!(&t[t.len() - 3..], &[0x1D, 0x56, 0x00]);
}

#[test]
fn generated_ticket_has_the_shape_of_the_formula() {
    let t = generate_test_ticket(80, true);
    assert_eq!(&t[..2], &[0x1B, 0x40]);
    assert_eq!(&t[t.len() - 3..], &[0x1D, 0x56, 0x00]);
    assert_eq!(t.len(), expected_ticket(80, true, "2024-01-01 00:00").len());
}

#[test]
fn drawer_pulse_selects_the_pin() {
    assert_eq!(drawer_kick_bytes(5), vec![0x1B, 0x70, 0x01, 0x19, 0xFF]);
    assert_eq!(drawer_kick_bytes(2), vec![0x1B, 0x70, 0x00, 0x19, 0xFF]);
}

#[test]
fn drawer_pulse_sits_before_feed_and_cut() {
    for (w, secs) in [(80u8, 0u64), (58, 1_700_000_000), (76, 12345)] {
        let t0 = test_ticket_at(w, false, secs);
        let t1 = test_ticket_at(w, true, secs);
        let n = t0.len();
        let mut expected = t0[..n - 7].to_vec();
        expected.extend_from_slice(&[0x1B, 0x70, 0x00, 0x19, 0xFF]);
        expected.extend_from_slice(&t0[n - 7..]);
        assert_eq!(t1, expected);
        assert!(!t0.windows(2).any(|p| p == [0x1B, 0x70]));
    }
}
