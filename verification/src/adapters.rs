//! What `send_bytes` decides before any byte leaves the machine: which
//! transport a connection names, with its parsed and checked parameters, which
//! addresses are refused, which USB endpoint receives the data and whether a
//! write was complete. The application performs the transfer itself.

use vstd::prelude::*;
use crate::text::{
    decimal, hex4_lower, parse_hex_id, parse_hex_id_str, push_decimal, push_hex4_lower, push_str,
    starts_with,
};
use crate::types::{Connection, ConnectionType};

verus! {

/// The operating system family, which decides the serial device naming rules.
#[derive(Clone, Copy, Debug, PartialEq, Eq, Structural)]
pub enum OsFamily {
    Unix,
    Windows,
}

/// Where the bytes of a job go.
#[derive(Debug, PartialEq, Eq)]
pub enum Transport {
    /// A raw TCP printer (port 9100 unless given).
    Network { host: String, port: u16 },
    /// A USB printer identified by vendor and product id.
    Usb { vendor_id: u16, product_id: u16 },
    /// A serial port (9600 baud unless given).
    Serial { path: String, baud_rate: u32 },
}

/// Why a job could not be sent.
#[derive(Debug, PartialEq, Eq)]
pub enum SendError {
    MissingHost,
    MissingVendorId,
    MissingProductId,
    /// `label` is `vendorId` or `productId`; `value` is the text received.
    InvalidHexId { label: String, value: String },
    MissingSerialPath,
    SerialPathTraversal,
    SerialPathNotDevice { path: String, os: OsFamily },
    BluetoothUnsupported,
    /// The host resolved to an address that may not be reached; `address`
    /// is that address as text.
    ForbiddenAddress { host: String, address: String },
    /// libusb lists the device but cannot open it.
    UsbNotAccessible { vendor_id: u16, product_id: u16 },
    /// No USB device has these identifiers.
    UsbNotFound { vendor_id: u16, product_id: u16 },
    NoOutEndpoint,
    /// The native Windows path found no OUT pipe on the device.
    NoOutPipe,
    PartialWrite { written: usize, total: usize },
}

/// What follows the identifiers of a device that libusb sees but cannot open.
pub open spec fn usb_driver_hint() -> Seq<char> {
    " detectada pero no accesible. Instalá el driver WinUSB con Zadig (zadig.akeo.ie), seleccioná la impresora y hacé clic en 'Replace Driver'. Luego desconectá y reconectá la impresora."@
}

/// The text of each refusal.
pub open spec fn send_error_text(e: SendError) -> Seq<char> {
    match e {
        SendError::MissingHost => "connection.host requerido para tipo network"@,
        SendError::MissingVendorId => "connection.vendorId requerido para USB"@,
        SendError::MissingProductId => "connection.productId requerido para USB"@,
        SendError::InvalidHexId { label, value } => label@ + "='"@ + value@
            + "' no es un hex válido"@,
        SendError::MissingSerialPath => "connection.path requerido para Serial"@,
        SendError::SerialPathTraversal => "path serial inválido (path traversal)"@,
        SendError::SerialPathNotDevice { path, os } => match os {
            OsFamily::Unix => "path serial inválido: "@ + path@ + " (solo /dev/tty* o /dev/cu.*)"@,
            OsFamily::Windows => "path serial inválido: "@ + path@ + " (solo COM*)"@,
        },
        SendError::BluetoothUnsupported =>
            "Bluetooth aún no está soportado en esta versión del Print Bridge"@,
        SendError::ForbiddenAddress { host, address } => "host "@ + host@
            + " resuelve a una dirección no permitida ("@ + address@ + ")"@,
        SendError::UsbNotAccessible { vendor_id, product_id } => "USB "@ + hex4_lower(vendor_id)
            + ":"@ + hex4_lower(product_id) + usb_driver_hint(),
        SendError::UsbNotFound { vendor_id, product_id } => "no se encontró impresora USB con vendor="@
            + hex4_lower(vendor_id) + " product="@ + hex4_lower(product_id),
        SendError::NoOutEndpoint => "la impresora no expone endpoint bulk ni interrupt OUT"@,
        SendError::NoOutPipe => "no se encontró endpoint OUT en el dispositivo USB"@,
        SendError::PartialWrite { written, total } => "escritura USB parcial: "@ + decimal(
            written as nat,
        ) + " de "@ + decimal(total as nat) + " bytes"@,
    }
}

impl SendError {
    /// The message shown for this refusal.
    pub fn message(&self) -> (r: String)
        ensures
            r@ == send_error_text(*self),
    {
        match self {
            SendError::MissingHost => String::from_str("connection.host requerido para tipo network"),
            SendError::MissingVendorId => String::from_str("connection.vendorId requerido para USB"),
            SendError::MissingProductId => String::from_str("connection.productId requerido para USB"),
            SendError::InvalidHexId { label, value } => {
                let mut s = label.clone();
                push_str(&mut s, "='");
                push_str(&mut s, value.as_str());
                push_str(&mut s, "' no es un hex válido");
                s
            },
            SendError::MissingSerialPath => String::from_str("connection.path requerido para Serial"),
            SendError::SerialPathTraversal => String::from_str("path serial inválido (path traversal)"),
            SendError::SerialPathNotDevice { path, os } => {
                let mut s = String::from_str("path serial inválido: ");
                push_str(&mut s, path.as_str());
                match os {
                    OsFamily::Unix => push_str(&mut s, " (solo /dev/tty* o /dev/cu.*)"),
                    OsFamily::Windows => push_str(&mut s, " (solo COM*)"),
                }
                s
            },
            SendError::BluetoothUnsupported => String::from_str(
                "Bluetooth aún no está soportado en esta versión del Print Bridge",
            ),
            SendError::ForbiddenAddress { host, address } => {
                let mut s = String::from_str("host ");
                push_str(&mut s, host.as_str());
                push_str(&mut s, " resuelve a una dirección no permitida (");
                push_str(&mut s, address.as_str());
                push_str(&mut s, ")");
                s
            },
            SendError::UsbNotAccessible { vendor_id, product_id } => {
                let mut s = String::from_str("USB ");
                push_hex4_lower(&mut s, *vendor_id);
                push_str(&mut s, ":");
                push_hex4_lower(&mut s, *product_id);
                push_str(
                    &mut s,
                    " detectada pero no accesible. Instalá el driver WinUSB con Zadig (zadig.akeo.ie), seleccioná la impresora y hacé clic en 'Replace Driver'. Luego desconectá y reconectá la impresora.",
                );
                s
            },
            SendError::UsbNotFound { vendor_id, product_id } => {
                let mut s = String::from_str("no se encontró impresora USB con vendor=");
                push_hex4_lower(&mut s, *vendor_id);
                push_str(&mut s, " product=");
                push_hex4_lower(&mut s, *product_id);
                s
            },
            SendError::NoOutEndpoint => String::from_str(
                "la impresora no expone endpoint bulk ni interrupt OUT",
            ),
            SendError::NoOutPipe => String::from_str("no se encontró endpoint OUT en el dispositivo USB"),
            SendError::PartialWrite { written, total } => {
                let mut s = String::from_str("escritura USB parcial: ");
                push_decimal(&mut s, *written as u64);
                push_str(&mut s, " de ");
                push_decimal(&mut s, *total as u64);
                push_str(&mut s, " bytes");
                s
            },
        }
    }
}

/// Whether `c` separates path components on `os`.
pub open spec fn is_path_separator(c: char, os: OsFamily) -> bool {
    c == '/' || (os == OsFamily::Windows && c == '\\')
}

/// Whether `path` has a component `..`.
pub open spec fn has_parent_component(path: Seq<char>, os: OsFamily) -> bool {
    exists|i: int|
        0 <= i && i + 2 <= path.len() && #[trigger] path[i] == '.' && path[i + 1] == '.' && (i == 0
            || is_path_separator(path[i - 1], os)) && (i + 2 == path.len() || is_path_separator(
            path[i + 2],
            os,
        ))
}

/// The ASCII upper-case form of a character.
pub open spec fn ascii_upper(c: char) -> char {
    if 'a' <= c && c <= 'z' {
        ((c as u32) - 32) as char
    } else {
        c
    }
}

/// Whether `s` has, from position `at`, the letters `COM` in either case.
pub open spec fn com_at(s: Seq<char>, at: int) -> bool {
    &&& at + 3 <= s.len()
    &&& ascii_upper(s[at]) == 'C'
    &&& ascii_upper(s[at + 1]) == 'O'
    &&& ascii_upper(s[at + 2]) == 'M'
}

/// Whether `path` names a serial device on `os`: `/dev/tty*` or `/dev/cu.*`
/// on Unix, `COM*` or `\\.\COM*` (any case) on Windows.
pub open spec fn is_serial_device_path(path: Seq<char>, os: OsFamily) -> bool {
    match os {
        OsFamily::Unix => "/dev/tty"@.is_prefix_of(path) || "/dev/cu."@.is_prefix_of(path),
        OsFamily::Windows => com_at(path, 0) || ("\\\\.\\"@.is_prefix_of(path) && com_at(path, 4)),
    }
}

/// Accepts `path` when it names a serial device and has no `..` component.
pub fn validate_serial_path(path: &str, os: OsFamily) -> (r: Result<(), SendError>)
    ensures
        has_parent_component(path@, os) ==> r == Err::<(), SendError>(
            SendError::SerialPathTraversal,
        ),
        !has_parent_component(path@, os) && !is_serial_device_path(path@, os) ==> (r matches Err(
            SendError::SerialPathNotDevice { path: p, os: o },
        ) && p@ == path@ && o == os),
        r is Ok <==> !has_parent_component(path@, os) && is_serial_device_path(path@, os),
{
    let n = path.unicode_len();
    let mut i: usize = 0;
    while i < n
        invariant
            i <= n,
            n == path@.len(),
            forall|k: int|
                0 <= k < i ==> !(k + 2 <= path@.len() && #[trigger] path@[k] == '.' && path@[k + 1]
                    == '.' && (k == 0 || is_path_separator(path@[k - 1], os)) && (k + 2
                    == path@.len() || is_path_separator(path@[k + 2], os))),
        decreases n - i,
    {
        if n - i >= 2 && path.get_char(i) == '.' && path.get_char(i + 1) == '.' {
            let before_ok = i == 0 || is_separator(path.get_char(i - 1), os);
            let after_ok = i + 2 == n || is_separator(path.get_char(i + 2), os);
            if before_ok && after_ok {
                return Err(SendError::SerialPathTraversal);
            }
        }
        i = i + 1;
    }
    let ok = match os {
        OsFamily::Unix => starts_with(path, "/dev/tty") || starts_with(path, "/dev/cu."),
        OsFamily::Windows => com_at_exec(path, 0) || (starts_with(path, "\\\\.\\") && com_at_exec(
            path,
            4,
        )),
    };
    if !ok {
        return Err(SendError::SerialPathNotDevice { path: path.to_owned(), os });
    }
    Ok(())
}

fn is_separator(c: char, os: OsFamily) -> (r: bool)
    ensures
        r == is_path_separator(c, os),
{
    c == '/' || (os == OsFamily::Windows && c == '\\')
}

fn upper(c: char) -> (r: char)
    ensures
        r == ascii_upper(c),
{
    if 'a' <= c && c <= 'z' {
        ((c as u8) - 32) as char
    } else {
        c
    }
}

fn com_at_exec(s: &str, at: usize) -> (r: bool)
    requires
        at <= 4,
    ensures
        r == com_at(s@, at as int),
{
    let n = s.unicode_len();
    if n < at + 3 {
        return false;
    }
    upper(s.get_char(at)) == 'C' && upper(s.get_char(at + 1)) == 'O' && upper(s.get_char(at + 2))
        == 'M'
}


/// Parses a hexadecimal USB identifier, naming the field in the refusal.
pub fn parse_hex_u16(label: &str, value: &str) -> (r: Result<u16, SendError>)
    ensures
        parse_hex_id(value@) matches Some(v) ==> r == Ok::<u16, SendError>(v),
        parse_hex_id(value@) is None ==> (r matches Err(SendError::InvalidHexId { label: l, value: v })
            && l@ == label@ && v@ == value@),
{
    match parse_hex_id_str(value) {
        Some(v) => Ok(v),
        None => Err(SendError::InvalidHexId { label: label.to_owned(), value: value.to_owned() }),
    }
}

/// The transport that a connection names, or why it names none.
pub open spec fn send_plan(c: Connection, os: OsFamily) -> Result<Transport, SendError> {
    match c.conn_type {
        ConnectionType::Network => match c.host {
            None => Err(SendError::MissingHost),
            Some(h) => Ok(
                Transport::Network {
                    host: h,
                    port: match c.port {
                        Some(p) => p,
                        None => 9100,
                    },
                },
            ),
        },
        ConnectionType::Usb => match c.vendor_id {
            None => Err(SendError::MissingVendorId),
            Some(v) => match parse_hex_id(v@) {
                None => Err(SendError::InvalidHexId { label: label_string("vendorId"@), value: v }),
                Some(vid) => match c.product_id {
                    None => Err(SendError::MissingProductId),
                    Some(p) => match parse_hex_id(p@) {
                        None => Err(
                            SendError::InvalidHexId { label: label_string("productId"@), value: p },
                        ),
                        Some(pid) => Ok(Transport::Usb { vendor_id: vid, product_id: pid }),
                    },
                },
            },
        },
        ConnectionType::Serial => match c.path {
            None => Err(SendError::MissingSerialPath),
            Some(path) => if has_parent_component(path@, os) {
                Err(SendError::SerialPathTraversal)
            } else if !is_serial_device_path(path@, os) {
                Err(SendError::SerialPathNotDevice { path: path, os: os })
            } else {
                Ok(
                    Transport::Serial {
                        path: path,
                        baud_rate: match c.baud_rate {
                            Some(b) => b,
                            None => 9600,
                        },
                    },
                )
            },
        },
        ConnectionType::Bluetooth => Err(SendError::BluetoothUnsupported),
    }
}

/// Some string with the given characters.
pub open spec fn label_string(s: Seq<char>) -> String {
    choose|t: String| t@ == s
}

/// Two plans that agree up to strings with equal characters.
pub open spec fn same_plan(a: Result<Transport, SendError>, b: Result<Transport, SendError>) -> bool {
    match (a, b) {
        (Ok(Transport::Network { host: h1, port: p1 }), Ok(Transport::Network { host: h2, port: p2 })) =>
            h1@ == h2@ && p1 == p2,
        (Ok(Transport::Usb { vendor_id: v1, product_id: p1 }), Ok(Transport::Usb { vendor_id: v2, product_id: p2 })) =>
            v1 == v2 && p1 == p2,
        (Ok(Transport::Serial { path: a1, baud_rate: b1 }), Ok(Transport::Serial { path: a2, baud_rate: b2 })) =>
            a1@ == a2@ && b1 == b2,
        (Err(SendError::InvalidHexId { label: l1, value: v1 }), Err(SendError::InvalidHexId { label: l2, value: v2 })) =>
            l1@ == l2@ && v1@ == v2@,
        (Err(SendError::SerialPathNotDevice { path: p1, os: o1 }), Err(SendError::SerialPathNotDevice { path: p2, os: o2 })) =>
            p1@ == p2@ && o1 == o2,
        (Err(e1), Err(e2)) => e1 == e2,
        _ => false,
    }
}

/// Decides where the bytes of a job go: the transport that `connection`
/// names, with its identifiers parsed, its path checked and its defaults
/// filled in, or the reason why nothing can be sent.
pub fn plan_send(connection: &Connection, os: OsFamily) -> (r: Result<Transport, SendError>)
    ensures
        same_plan(r, send_plan(*connection, os)),
{
    match connection.conn_type {
        ConnectionType::Network => match &connection.host {
            None => Err(SendError::MissingHost),
            Some(h) => {
                let port = match connection.port {
                    Some(p) => p,
                    None => 9100,
                };
                Ok(Transport::Network { host: h.clone(), port })
            },
        },
        ConnectionType::Usb => {
            let v = match &connection.vendor_id {
                None => {
                    return Err(SendError::MissingVendorId);
                },
                Some(v) => v,
            };
            let vid = match parse_hex_u16("vendorId", v.as_str()) {
                Ok(x) => x,
                Err(e) => {
                    proof {
                        reveal_strlit("vendorId");
                    }
                    return Err(e);
                },
            };
            let p = match &connection.product_id {
                None => {
                    return Err(SendError::MissingProductId);
                },
                Some(p) => p,
            };
            let pid = match parse_hex_u16("productId", p.as_str()) {
                Ok(x) => x,
                Err(e) => {
                    proof {
                        reveal_strlit("productId");
                    }
                    return Err(e);
                },
            };
            Ok(Transport::Usb { vendor_id: vid, product_id: pid })
        },
        ConnectionType::Serial => match &connection.path {
            None => Err(SendError::MissingSerialPath),
            Some(path) => {
                match validate_serial_path(path.as_str(), os) {
                    Err(e) => Err(e),
                    Ok(()) => {
                        let baud_rate = match connection.baud_rate {
                            Some(b) => b,
                            None => 9600,
                        };
                        Ok(Transport::Serial { path: path.clone(), baud_rate })
                    },
                }
            },
        },
        ConnectionType::Bluetooth => Err(SendError::BluetoothUnsupported),
    }
}

/// An IP address: four octets or eight 16-bit segments.
#[derive(Clone, Copy, Debug, PartialEq, Eq)]
pub enum IpAddress {
    V4([u8; 4]),
    V6([u16; 8]),
}

/// Addresses that a network printer may not resolve to, so that a job cannot
/// reach the machine's own infrastructure: for IPv4 link-local
/// (169.254.0.0/16, cloud metadata included), multicast (224.0.0.0/4),
/// broadcast, unspecified and documentation ranges (192.0.2.0/24,
/// 198.51.100.0/24, 203.0.113.0/24); for IPv6 multicast (ff00::/8),
/// unspecified and link-local (fe80::/10).
pub open spec fn forbidden_address(a: IpAddress) -> bool {
    match a {
        IpAddress::V4(o) => {
            ||| o@[0] == 169 && o@[1] == 254
            ||| 224 <= o@[0] <= 239
            ||| o@[0] == 255 && o@[1] == 255 && o@[2] == 255 && o@[3] == 255
            ||| o@[0] == 0 && o@[1] == 0 && o@[2] == 0 && o@[3] == 0
            ||| o@[0] == 192 && o@[1] == 0 && o@[2] == 2
            ||| o@[0] == 198 && o@[1] == 51 && o@[2] == 100
            ||| o@[0] == 203 && o@[1] == 0 && o@[2] == 113
        },
        IpAddress::V6(s) => {
            ||| s@[0] >= 0xff00
            ||| forall|i: int| 0 <= i < 8 ==> s@[i] == 0
            ||| 0xfe80 <= s@[0] <= 0xfebf
        },
    }
}

/// Whether a resolved address must be refused.
pub fn is_forbidden_addr(addr: &IpAddress) -> (r: bool)
    ensures
        r == forbidden_address(*addr),
{
    match addr {
        IpAddress::V4(o) => {
            (o[0] == 169 && o[1] == 254) || (224 <= o[0] && o[0] <= 239) || (o[0] == 255 && o[1]
                == 255 && o[2] == 255 && o[3] == 255) || (o[0] == 0 && o[1] == 0 && o[2] == 0
                && o[3] == 0) || (o[0] == 192 && o[1] == 0 && o[2] == 2) || (o[0] == 198 && o[1]
                == 51 && o[2] == 100) || (o[0] == 203 && o[1] == 0 && o[2] == 113)
        },
        IpAddress::V6(s) => {
            let all_zero = s[0] == 0 && s[1] == 0 && s[2] == 0 && s[3] == 0 && s[4] == 0 && s[5]
                == 0 && s[6] == 0 && s[7] == 0;
            proof {
                if all_zero {
                    assert(forall|i: int| 0 <= i < 8 ==> s@[i] == 0);
                } else {
                    assert(!(forall|i: int| 0 <= i < 8 ==> s@[i] == 0)) by {
                        if s[0] != 0 {
                            assert(s@[0] != 0);
                        } else if s[1] != 0 {
                            assert(s@[1] != 0);
                        } else if s[2] != 0 {
                            assert(s@[2] != 0);
                        } else if s[3] != 0 {
                            assert(s@[3] != 0);
                        } else if s[4] != 0 {
                            assert(s@[4] != 0);
                        } else if s[5] != 0 {
                            assert(s@[5] != 0);
                        } else if s[6] != 0 {
                            assert(s@[6] != 0);
                        } else {
                            assert(s@[7] != 0);
                        }
                    }
                }
            }
            s[0] >= 0xff00 || all_zero || (0xfe80 <= s[0] && s[0] <= 0xfebf)
        },
    }
}

/// How a USB endpoint transfers data.
#[derive(Clone, Copy, Debug, PartialEq, Eq, Structural)]
pub enum TransferKind {
    Control,
    Isochronous,
    Bulk,
    Interrupt,
}

/// One endpoint of a USB device, listed in the order in which the device
/// reports configurations, interfaces, alternate settings and endpoints.
/// `config_index` is the position of its configuration in that order.
#[derive(Clone, Copy, Debug, PartialEq, Eq, Structural)]
pub struct EndpointCandidate {
    pub config_index: u8,
    pub interface_number: u8,
    pub address: u8,
    pub direction_out: bool,
    pub transfer: TransferKind,
}

/// Whether endpoint `e` is an OUT endpoint of kind `k`.
pub open spec fn is_out_of_kind(e: EndpointCandidate, k: TransferKind) -> bool {
    e.direction_out && e.transfer == k
}

/// Whether `i` is the first OUT endpoint of kind `k` in `es`.
pub open spec fn is_first_out(es: Seq<EndpointCandidate>, k: TransferKind, i: int) -> bool {
    &&& 0 <= i < es.len()
    &&& is_out_of_kind(es[i], k)
    &&& forall|j: int| 0 <= j < i ==> !is_out_of_kind(#[trigger] es[j], k)
}

/// Whether `es` has an OUT endpoint of kind `k`.
pub open spec fn has_out(es: Seq<EndpointCandidate>, k: TransferKind) -> bool {
    exists|i: int| 0 <= i < es.len() && is_out_of_kind(#[trigger] es[i], k)
}

/// Chooses the endpoint that receives a job: the first bulk OUT endpoint; if
/// there is none, the first interrupt OUT endpoint; if there is none either,
/// none.
pub fn choose_out_endpoint(es: &Vec<EndpointCandidate>) -> (r: Option<usize>)
    ensures
        has_out(es@, TransferKind::Bulk) ==> (r matches Some(i) && is_first_out(
            es@,
            TransferKind::Bulk,
            i as int,
        )),
        !has_out(es@, TransferKind::Bulk) && has_out(es@, TransferKind::Interrupt) ==> (r matches Some(
            i,
        ) && is_first_out(es@, TransferKind::Interrupt, i as int)),
        r is None <==> !has_out(es@, TransferKind::Bulk) && !has_out(es@, TransferKind::Interrupt),
{
    let mut interrupt: Option<usize> = None;
    let mut i: usize = 0;
    while i < es.len()
        invariant
            i <= es.len(),
            forall|j: int| 0 <= j < i ==> !is_out_of_kind(#[trigger] es@[j], TransferKind::Bulk),
            interrupt is None ==> forall|j: int|
                0 <= j < i ==> !is_out_of_kind(#[trigger] es@[j], TransferKind::Interrupt),
            interrupt matches Some(k) ==> k < i && is_first_out(es@, TransferKind::Interrupt, k as int),
        decreases es.len() - i,
    {
        let e = es[i];
        if e.direction_out {
            match e.transfer {
                TransferKind::Bulk => {
                    return Some(i);
                },
                TransferKind::Interrupt => {
                    if interrupt.is_none() {
                        interrupt = Some(i);
                    }
                },
                _ => {},
            }
        }
        i = i + 1;
    }
    proof {
        if let Some(k) = interrupt {
            assert(is_out_of_kind(es@[k as int], TransferKind::Interrupt));
        }
    }
    interrupt
}

/// How many configurations, from the first on, are made active in turn while
/// looking for the endpoint: up to the one holding the first bulk OUT
/// endpoint, or all of them when there is none.
pub open spec fn configs_visited(es: Seq<EndpointCandidate>, num_configs: u8) -> int {
    if has_out(es, TransferKind::Bulk) {
        let i = choose|i: int| is_first_out(es, TransferKind::Bulk, i);
        es[i].config_index + 1
    } else {
        num_configs as int
    }
}

proof fn lemma_first_out_unique(es: Seq<EndpointCandidate>, k: TransferKind, i: int)
    requires
        is_first_out(es, k, i),
    ensures
        (choose|j: int| is_first_out(es, k, j)) == i,
{
    let j = choose|j: int| is_first_out(es, k, j);
    assert(is_first_out(es, k, j));
    if j < i {
        assert(!is_out_of_kind(es[j], k));
    }
    if i < j {
        assert(!is_out_of_kind(es[i], k));
    }
}

/// The number of configurations to make active in turn, from the first on.
pub fn configs_to_visit(es: &Vec<EndpointCandidate>, num_configs: u8) -> (r: u8)
    requires
        forall|i: int| 0 <= i < es@.len() ==> (#[trigger] es@[i]).config_index < num_configs,
    ensures
        r == configs_visited(es@, num_configs),
{
    let mut i: usize = 0;
    while i < es.len()
        invariant
            i <= es.len(),
            forall|j: int| 0 <= j < es@.len() ==> (#[trigger] es@[j]).config_index < num_configs,
            forall|j: int| 0 <= j < i ==> !is_out_of_kind(#[trigger] es@[j], TransferKind::Bulk),
        decreases es.len() - i,
    {
        let e = es[i];
        if e.direction_out && e.transfer == TransferKind::Bulk {
            proof {
                assert(is_first_out(es@, TransferKind::Bulk, i as int));
                lemma_first_out_unique(es@, TransferKind::Bulk, i as int);
            }
            return e.config_index + 1;
        }
        i = i + 1;
    }
    num_configs
}

/// The refusal when libusb cannot open the device: "not accessible" when
/// the enumeration `seen` (vendor and product identifiers of each device
/// listed) shows it, "not found" otherwise.
pub fn usb_open_error(vendor_id: u16, product_id: u16, seen: &Vec<(u16, u16)>) -> (r: SendError)
    ensures
        seen@.contains((vendor_id, product_id)) ==> r == (SendError::UsbNotAccessible {
            vendor_id,
            product_id,
        }),
        !seen@.contains((vendor_id, product_id)) ==> r == (SendError::UsbNotFound {
            vendor_id,
            product_id,
        }),
{
    let mut i: usize = 0;
    while i < seen.len()
        invariant
            i <= seen@.len(),
            forall|j: int| 0 <= j < i ==> seen@[j] != (vendor_id, product_id),
        decreases seen.len() - i,
    {
        let (v, p) = seen[i];
        if v == vendor_id && p == product_id {
            proof {
                assert(seen@[i as int] == (vendor_id, product_id));
            }
            return SendError::UsbNotAccessible { vendor_id, product_id };
        }
        i = i + 1;
    }
    SendError::UsbNotFound { vendor_id, product_id }
}

/// Whether endpoint `e` can receive a job: an OUT endpoint that transfers in
/// bulk or by interrupt.
pub open spec fn is_data_out(e: EndpointCandidate) -> bool {
    e.direction_out && (e.transfer == TransferKind::Bulk || e.transfer == TransferKind::Interrupt)
}

/// Whether a device has a bulk or interrupt OUT endpoint, which the USB scan
/// asks of a printer.
pub fn has_out_endpoint(es: &Vec<EndpointCandidate>) -> (r: bool)
    ensures
        r == exists|i: int| 0 <= i < es@.len() && is_data_out(#[trigger] es@[i]),
{
    let mut i: usize = 0;
    while i < es.len()
        invariant
            i <= es.len(),
            forall|j: int| 0 <= j < i ==> !is_data_out(#[trigger] es@[j]),
        decreases es.len() - i,
    {
        let e = es[i];
        if e.direction_out && (e.transfer == TransferKind::Bulk || e.transfer
            == TransferKind::Interrupt) {
            proof {
                assert(is_data_out(es@[i as int]));
            }
            return true;
        }
        i = i + 1;
    }
    false
}

/// Accepts a USB write only when every byte was written.
pub fn check_usb_write(written: usize, total: usize) -> (r: Result<(), SendError>)
    ensures
        written >= total ==> r is Ok,
        written < total ==> r == Err::<(), SendError>(SendError::PartialWrite { written, total }),
{
    if written < total {
        return Err(SendError::PartialWrite { written, total });
    }
    Ok(())
}

/// Whether `x` names a Windows COM port: `COM` or `\\.\COM` (any case) at
/// its start.
pub open spec fn names_com_port(x: Seq<char>) -> bool {
    ||| (x.len() >= 3 && (x[0] == 'C' || x[0] == 'c') && (x[1] == 'O' || x[1] == 'o') && (x[2]
        == 'M' || x[2] == 'm'))
    ||| (x.len() >= 7 && x[0] == '\\' && x[1] == '\\' && x[2] == '.' && x[3] == '\\' && (x[4] == 'C'
        || x[4] == 'c') && (x[5] == 'O' || x[5] == 'o') && (x[6] == 'M' || x[6] == 'm'))
}

/// Whether `x` holds two dots in a row somewhere.
pub open spec fn has_double_dot(x: Seq<char>) -> bool {
    exists|i: int| 0 <= i && i + 1 < x.len() && #[trigger] x[i] == '.' && x[i + 1] == '.'
}

/// On Windows, a serial connection to a COM port (`COM3`, `com1`,
/// `\\.\COM12`, ...) with no `..` in its path is sent to that port, at the
/// baud rate it names or 9600.
pub proof fn law_windows_com_ports_are_serial(c: Connection)
    requires
        c.conn_type == ConnectionType::Serial,
        c.path matches Some(x) && names_com_port(x@) && !has_double_dot(x@),
    ensures
        send_plan(c, OsFamily::Windows) == Ok::<Transport, SendError>(
            Transport::Serial {
                path: c.path->0,
                baud_rate: match c.baud_rate {
                    Some(b) => b,
                    None => 9600,
                },
            },
        ),
{
    let x = c.path->0@;
    if has_parent_component(x, OsFamily::Windows) {
        let i = choose|i: int|
            0 <= i && i + 2 <= x.len() && #[trigger] x[i] == '.' && x[i + 1] == '.' && (i == 0
                || is_path_separator(x[i - 1], OsFamily::Windows)) && (i + 2 == x.len()
                || is_path_separator(x[i + 2], OsFamily::Windows));
        assert(x[i] == '.' && x[i + 1] == '.');
    }
    reveal_strlit("\\\\.\\");
    if !(x.len() >= 3 && (x[0] == 'C' || x[0] == 'c') && (x[1] == 'O' || x[1] == 'o') && (x[2]
        == 'M' || x[2] == 'm')) {
        assert("\\\\.\\"@.is_prefix_of(x));
        assert(com_at(x, 4));
    } else {
        assert(com_at(x, 0));
    }
}

/// On Unix, a serial connection to a `/dev/tty*` or `/dev/cu.*` device with
/// no `..` in its path is sent to that device, at the baud rate it names or
/// 9600.
pub proof fn law_unix_tty_devices_are_serial(c: Connection)
    requires
        c.conn_type == ConnectionType::Serial,
        c.path matches Some(x) && ("/dev/tty"@.is_prefix_of(x@) || "/dev/cu."@.is_prefix_of(x@))
            && !has_double_dot(x@),
    ensures
        send_plan(c, OsFamily::Unix) == Ok::<Transport, SendError>(
            Transport::Serial {
                path: c.path->0,
                baud_rate: match c.baud_rate {
                    Some(b) => b,
                    None => 9600,
                },
            },
        ),
{
    let x = c.path->0@;
    if has_parent_component(x, OsFamily::Unix) {
        let i = choose|i: int|
            0 <= i && i + 2 <= x.len() && #[trigger] x[i] == '.' && x[i + 1] == '.' && (i == 0
                || is_path_separator(x[i - 1], OsFamily::Unix)) && (i + 2 == x.len()
                || is_path_separator(x[i + 2], OsFamily::Unix));
        assert(x[i] == '.' && x[i + 1] == '.');
    }
}

/// A network connection is sent to its host, on the port it names or on the
/// raw printing port 9100; without a host it is refused. A USB connection
/// whose vendor and product identifiers read as hexadecimal numbers is sent
/// to the device with those numbers. Bluetooth is refused.
pub proof fn law_network_usb_and_bluetooth_plans(c: Connection, os: OsFamily)
    ensures
        c.conn_type == ConnectionType::Network && c.host is Some ==> send_plan(c, os) == Ok::<
            Transport,
            SendError,
        >(
            Transport::Network {
                host: c.host->0,
                port: match c.port {
                    Some(p) => p,
                    None => 9100,
                },
            },
        ),
        c.conn_type == ConnectionType::Network && c.host is None ==> send_plan(c, os) == Err::<
            Transport,
            SendError,
        >(SendError::MissingHost),
        c.conn_type == ConnectionType::Usb && c.vendor_id is Some && c.product_id is Some
            && parse_hex_id(c.vendor_id->0@) is Some && parse_hex_id(c.product_id->0@) is Some
            ==> send_plan(c, os) == Ok::<
            Transport,
            SendError,
        >(
            Transport::Usb {
                vendor_id: parse_hex_id(c.vendor_id->0@)->0,
                product_id: parse_hex_id(c.product_id->0@)->0,
            },
        ),
        c.conn_type == ConnectionType::Usb && c.vendor_id is None ==> send_plan(c, os) == Err::<
            Transport,
            SendError,
        >(SendError::MissingVendorId),
        c.conn_type == ConnectionType::Bluetooth ==> send_plan(c, os) == Err::<Transport, SendError>(
            SendError::BluetoothUnsupported,
        ),
{
}

/// The addresses a network job may never reach: IPv4 link-local
/// (169.254.0.0/16, where cloud metadata services live), multicast
/// (224.0.0.0/4), broadcast, unspecified and the documentation ranges
/// (192.0.2.0/24, 198.51.100.0/24, 203.0.113.0/24); IPv6 multicast
/// (ff00::/8), unspecified and link-local (fe80::/10). Private and loopback
/// IPv4 addresses stay reachable.
pub proof fn law_forbidden_addresses(a: u8, b: u8, c: u8, d: u8, s0: u16)
    ensures
        forbidden_address(IpAddress::V4([169, 254, c, d])),
        224 <= a <= 239 ==> forbidden_address(IpAddress::V4([a, b, c, d])),
        forbidden_address(IpAddress::V4([255, 255, 255, 255])),
        forbidden_address(IpAddress::V4([0, 0, 0, 0])),
        forbidden_address(IpAddress::V4([192, 0, 2, d])),
        forbidden_address(IpAddress::V4([198, 51, 100, d])),
        forbidden_address(IpAddress::V4([203, 0, 113, d])),
        !forbidden_address(IpAddress::V4([10, b, c, d])),
        !forbidden_address(IpAddress::V4([192, 168, c, d])),
        !forbidden_address(IpAddress::V4([127, b, c, d])),
        s0 >= 0xff00 ==> forbidden_address(IpAddress::V6([s0, 0, 0, 0, 0, 0, 0, 0])),
        forbidden_address(IpAddress::V6([0, 0, 0, 0, 0, 0, 0, 0])),
        0xfe80 <= s0 <= 0xfebf ==> forbidden_address(IpAddress::V6([s0, 0, 0, 0, 0, 0, 0, 1])),
{
    let z: [u16; 8] = [0, 0, 0, 0, 0, 0, 0, 0];
    assert(forall|i: int| 0 <= i < 8 ==> z@[i] == 0);
}

} // verus!
