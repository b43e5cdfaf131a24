//! The decisions of the local HTTP server: who may call it, how a print job is
//! checked and resolved, how printers are configured, tested and removed, and
//! what each refusal answers. The application binds the sockets, parses JSON
//! and sends the bytes.

use vstd::prelude::*;
use vstd::utf8::encode_utf8;
use base64::Engine;
use crate::config::{
    BridgeConfig, BridgeConfigView, PrinterConfig, PrinterConnectionConfig, has_printer,
    is_first_printer, printers_without, same_except_printers, string_views,
};
use crate::text::{decimal, push_decimal, push_str, str_equal, trim, trim_str};
use crate::ticket::{
    dash_line, drawer_kick_bytes, drawer_pulse, generate_test_ticket, has_esc_p, has_infix,
    law_test_ticket_fits_its_paper, paper_line, test_ticket,
};
use crate::usb_scan::UsbDeviceInfo;
use crate::config::{
    default_origins, is_v4_uuid_text, law_merge_accepts_default_origins, merged_config,
    new_uuid_string, printer_index, reconfigured,
};
use crate::types::{
    Connection, ConnectionType, ErrorResponse, HealthResponse, JobResponse, PrintJob,
    clone_opt_string,
};

verus! {

/// The largest accepted request body, and the largest accepted Base64 payload.
pub const MAX_BODY_BYTES: usize = 5242880;

/// The HTTP status of a refusal.
#[derive(Clone, Copy, Debug, PartialEq, Eq, Structural)]
pub enum ErrorStatus {
    BadRequest,
    Forbidden,
    NotFound,
    Internal,
}

/// The numeric HTTP status.
pub open spec fn status_code(s: ErrorStatus) -> u16 {
    match s {
        ErrorStatus::BadRequest => 400,
        ErrorStatus::Forbidden => 403,
        ErrorStatus::NotFound => 404,
        ErrorStatus::Internal => 500,
    }
}

impl ErrorStatus {
    /// The numeric HTTP status.
    pub fn code(&self) -> (r: u16)
        ensures
            r == status_code(*self),
    {
        match self {
            ErrorStatus::BadRequest => 400,
            ErrorStatus::Forbidden => 403,
            ErrorStatus::NotFound => 404,
            ErrorStatus::Internal => 500,
        }
    }
}

/// A refused request: its status and the message put in the error body.
#[derive(Debug)]
pub struct AppError {
    pub status: ErrorStatus,
    pub message: String,
}

/// Whether `r` is a refusal with `status` and message `msg`.
pub open spec fn refused<T>(r: Result<T, AppError>, status: ErrorStatus, msg: Seq<char>) -> bool {
    r matches Err(e) && e.status == status && e.message@ == msg
}

impl AppError {
    /// A 400 refusal.
    pub fn bad_request(message: String) -> (r: AppError)
        ensures
            r.status == ErrorStatus::BadRequest,
            r.message == message,
    {
        AppError { status: ErrorStatus::BadRequest, message }
    }

    /// A 404 refusal.
    pub fn not_found(message: String) -> (r: AppError)
        ensures
            r.status == ErrorStatus::NotFound,
            r.message == message,
    {
        AppError { status: ErrorStatus::NotFound, message }
    }

    /// A 500 refusal carrying the text of the underlying failure.
    pub fn internal(message: String) -> (r: AppError)
        ensures
            r.status == ErrorStatus::Internal,
            r.message == message,
    {
        AppError { status: ErrorStatus::Internal, message }
    }

    /// The body of the answer: `{ ok: false, error: message }`.
    pub fn to_response(&self) -> (r: ErrorResponse)
        ensures
            !r.ok,
            r.error@ == self.message@,
    {
        ErrorResponse { ok: false, error: self.message.clone() }
    }
}

// ---------------------------------------------------------------------------
// Who may call

/// An origin passes when the request carries none (local tools) or when the
/// configuration lists it.
pub open spec fn origin_allowed(allowed: Seq<Seq<char>>, origin: Seq<char>) -> bool {
    origin.len() == 0 || allowed.contains(origin)
}

/// A bridge paired with a business serves only requests whose
/// `X-Cegel-Business` header names that business; an unpaired bridge serves
/// any.
pub open spec fn business_allowed(paired: Option<Seq<char>>, header: Option<Seq<char>>) -> bool {
    match paired {
        None => true,
        Some(b) => header == Some(b),
    }
}

/// The optional header as characters.
pub open spec fn opt_str_view(s: Option<&str>) -> Option<Seq<char>> {
    match s {
        Some(v) => Some(v@),
        None => None,
    }
}

/// Decides whether a request that prints or opens a drawer may proceed.
/// `origin` is the `Origin` header (absent when missing or not visible
/// ASCII), `business` the `X-Cegel-Business` header. A foreign origin is
/// answered 403 "Origin no autorizado"; a request for another business (or
/// for none, once paired) is answered 403 "Negocio no autorizado".
pub fn enforce_business(cfg: &BridgeConfig, origin: Option<&str>, business: Option<&str>) -> (r:
    Result<(), AppError>)
    ensures
        r is Ok <==> origin_allowed(
            cfg@.allowed_origins,
            match origin {
                Some(o) => o@,
                None => Seq::empty(),
            },
        ) && business_allowed(cfg@.paired_business_id, opt_str_view(business)),
        !origin_allowed(
            cfg@.allowed_origins,
            match origin {
                Some(o) => o@,
                None => Seq::empty(),
            },
        ) ==> refused(r, ErrorStatus::Forbidden, "Origin no autorizado"@),
        origin_allowed(
            cfg@.allowed_origins,
            match origin {
                Some(o) => o@,
                None => Seq::empty(),
            },
        ) && !business_allowed(cfg@.paired_business_id, opt_str_view(business)) ==> refused(
            r,
            ErrorStatus::Forbidden,
            "Negocio no autorizado"@,
        ),
{
    let o: &str = match origin {
        Some(o) => o,
        None => "",
    };
    proof {
        reveal_strlit("");
    }
    if !o.is_empty() {
        if !crate::config::contains_string(&cfg.allowed_origins, o) {
            return Err(
                AppError {
                    status: ErrorStatus::Forbidden,
                    message: String::from_str("Origin no autorizado"),
                },
            );
        }
    }
    match &cfg.paired_business_id {
        None => Ok(()),
        Some(b) => {
            let matches = match business {
                Some(h) => str_equal(h, b.as_str()),
                None => false,
            };
            if matches {
                Ok(())
            } else {
                Err(
                    AppError {
                        status: ErrorStatus::Forbidden,
                        message: String::from_str("Negocio no autorizado"),
                    },
                )
            }
        },
    }
}


// ---------------------------------------------------------------------------
// Print jobs

/// Why a Base64 payload was refused, as the `base64` crate reports it.
#[derive(Clone, Copy, Debug, PartialEq, Eq, Structural)]
pub enum Base64Error {
    /// Offset and value of a byte outside the alphabet.
    InvalidByte(usize, u8),
    /// The number of symbols cannot be Base64.
    InvalidLength(usize),
    /// Offset and value of a last symbol with bits that would be dropped.
    InvalidLastSymbol(usize, u8),
    InvalidPadding,
}

/// What `base64::engine::general_purpose::STANDARD.decode` gives for an input:
/// the decoded bytes or the reason for refusing the input.
pub uninterp spec fn base64_standard_decode(input: Seq<u8>) -> Result<Seq<u8>, Base64Error>;

/// Decodes standard, padded Base64 with `base64::engine::general_purpose::STANDARD`.
/// The contract names the result: it is a function of the input bytes alone.
#[verifier::external_body]
fn decode_base64(input: &[u8]) -> (r: Result<Vec<u8>, Base64Error>)
    ensures
        base64_standard_decode(input@) == match r {
            Ok(v) => Ok::<Seq<u8>, Base64Error>(v@),
            Err(e) => Err(e),
        },
{
    match base64::engine::general_purpose::STANDARD.decode(input) {
        Ok(v) => Ok(v),
        Err(base64::DecodeError::InvalidByte(i, b)) => Err(Base64Error::InvalidByte(i, b)),
        Err(base64::DecodeError::InvalidLength(n)) => Err(Base64Error::InvalidLength(n)),
        Err(base64::DecodeError::InvalidLastSymbol(i, b)) => Err(Base64Error::InvalidLastSymbol(i, b)),
        Err(base64::DecodeError::InvalidPadding) => Err(Base64Error::InvalidPadding),
    }
}

/// The text of a Base64 refusal (the `Display` of `base64::DecodeError`).
pub open spec fn base64_error_text(e: Base64Error) -> Seq<char> {
    match e {
        Base64Error::InvalidByte(i, b) => "Invalid symbol "@ + decimal(b as nat) + ", offset "@
            + decimal(i as nat) + "."@,
        Base64Error::InvalidLength(n) => "Invalid input length: "@ + decimal(n as nat),
        Base64Error::InvalidLastSymbol(i, b) => "Invalid last symbol "@ + decimal(b as nat)
            + ", offset "@ + decimal(i as nat) + "."@,
        Base64Error::InvalidPadding => "Invalid padding"@,
    }
}

impl Base64Error {
    /// The text of this refusal.
    pub fn message(&self) -> (r: String)
        ensures
            r@ == base64_error_text(*self),
    {
        match self {
            Base64Error::InvalidByte(i, b) => {
                let mut s = String::from_str("Invalid symbol ");
                push_decimal(&mut s, *b as u64);
                push_str(&mut s, ", offset ");
                push_decimal(&mut s, *i as u64);
                push_str(&mut s, ".");
                s
            },
            Base64Error::InvalidLength(n) => {
                let mut s = String::from_str("Invalid input length: ");
                push_decimal(&mut s, *n as u64);
                s
            },
            Base64Error::InvalidLastSymbol(i, b) => {
                let mut s = String::from_str("Invalid last symbol ");
                push_decimal(&mut s, *b as u64);
                push_str(&mut s, ", offset ");
                push_decimal(&mut s, *i as u64);
                push_str(&mut s, ".");
                s
            },
            Base64Error::InvalidPadding => String::from_str("Invalid padding"),
        }
    }
}

/// What a decoded payload leads to: the bytes to print, or a 400 refusal
/// when the payload was not Base64 or was empty.
pub open spec fn payload_outcome(decoded: Result<Seq<u8>, Base64Error>) -> Result<
    Seq<u8>,
    (ErrorStatus, Seq<char>),
> {
    match decoded {
        Err(e) => Err((ErrorStatus::BadRequest, "bytesBase64 invalido: "@ + base64_error_text(e))),
        Ok(b) => if b.len() == 0 {
            Err((ErrorStatus::BadRequest, "payload vacio"@))
        } else {
            Ok(b)
        },
    }
}

/// Turns the decoded payload of a job into the bytes to print, refusing a
/// payload that is not Base64 or is empty.
pub fn check_decoded_payload(decoded: Result<Vec<u8>, Base64Error>) -> (r: Result<Vec<u8>, AppError>)
    ensures
        match payload_outcome(
            match decoded {
                Ok(v) => Ok(v@),
                Err(e) => Err(e),
            },
        ) {
            Ok(b) => r matches Ok(v) && v@ == b,
            Err((st, msg)) => refused(r, st, msg),
        },
{
    match decoded {
        Err(e) => {
            let mut msg = String::from_str("bytesBase64 invalido: ");
            let t = e.message();
            push_str(&mut msg, t.as_str());
            Err(AppError::bad_request(msg))
        },
        Ok(v) => {
            if v.len() == 0 {
                Err(AppError::bad_request(String::from_str("payload vacio")))
            } else {
                Ok(v)
            }
        },
    }
}

/// The connection kind that a stored printer names; anything unknown is USB.
pub open spec fn connection_type_of(s: Seq<char>) -> ConnectionType {
    if s == "network"@ {
        ConnectionType::Network
    } else if s == "usb"@ {
        ConnectionType::Usb
    } else if s == "serial"@ {
        ConnectionType::Serial
    } else if s == "bluetooth"@ {
        ConnectionType::Bluetooth
    } else {
        ConnectionType::Usb
    }
}

/// The connection kind that a stored printer names.
pub fn connection_type_from_str(s: &str) -> (r: ConnectionType)
    ensures
        r == connection_type_of(s@),
{
    if str_equal(s, "network") {
        ConnectionType::Network
    } else if str_equal(s, "usb") {
        ConnectionType::Usb
    } else if str_equal(s, "serial") {
        ConnectionType::Serial
    } else if str_equal(s, "bluetooth") {
        ConnectionType::Bluetooth
    } else {
        ConnectionType::Usb
    }
}

/// The job connection for a stored printer.
pub open spec fn printer_connection(p: PrinterConfig) -> Connection {
    Connection {
        conn_type: connection_type_of(p.connection.conn_type@),
        host: p.connection.host,
        port: p.connection.port,
        vendor_id: p.connection.vendor_id,
        product_id: p.connection.product_id,
        path: p.connection.path,
        baud_rate: None,
        mac_address: None,
    }
}

/// The job connection for a stored printer.
pub fn printer_connection_to_types(p: &PrinterConfig) -> (r: Connection)
    ensures
        r == printer_connection(*p),
{
    Connection {
        conn_type: connection_type_from_str(p.connection.conn_type.as_str()),
        host: clone_opt_string(&p.connection.host),
        port: p.connection.port,
        vendor_id: clone_opt_string(&p.connection.vendor_id),
        product_id: clone_opt_string(&p.connection.product_id),
        path: clone_opt_string(&p.connection.path),
        baud_rate: None,
        mac_address: None,
    }
}

/// Whether a job names its own printer address (vendor id, host or path).
pub open spec fn has_explicit_connection(c: Connection) -> bool {
    c.vendor_id is Some || c.host is Some || c.path is Some
}

/// The connection a job is printed on: its own when it names one, otherwise
/// that of the first stored printer with the job's printer id.
pub open spec fn resolved_connection(cfg: BridgeConfigView, job: PrintJob) -> Result<
    Connection,
    (ErrorStatus, Seq<char>),
> {
    if has_explicit_connection(job.connection) {
        Ok(job.connection)
    } else if has_printer(cfg.printers, job.printer_id@) {
        let k = choose|k: int| is_first_printer(cfg.printers, job.printer_id@, k);
        Ok(printer_connection(cfg.printers[k]))
    } else {
        Err((ErrorStatus::NotFound, "impresora no encontrada en el bridge"@))
    }
}

proof fn lemma_first_printer_unique(ps: Seq<PrinterConfig>, id: Seq<char>, k: int)
    requires
        is_first_printer(ps, id, k),
    ensures
        (choose|j: int| is_first_printer(ps, id, j)) == k,
{
    let j = choose|j: int| is_first_printer(ps, id, j);
    assert(is_first_printer(ps, id, j));
    if j < k {
        assert(ps[j].id@ != id);
    }
    if k < j {
        assert(ps[k].id@ != id);
    }
}

/// Whether `r` is what `expected` describes.
pub open spec fn outcome_is<T>(r: Result<T, AppError>, expected: Result<T, (ErrorStatus, Seq<char>)>) -> bool {
    match expected {
        Ok(v) => r == Ok::<T, AppError>(v),
        Err((st, msg)) => refused(r, st, msg),
    }
}

/// The connection a job is printed on.
pub fn resolve_connection(cfg: &BridgeConfig, job: &PrintJob) -> (r: Result<Connection, AppError>)
    ensures
        outcome_is(r, resolved_connection(cfg@, *job)),
{
    if job.connection.vendor_id.is_some() || job.connection.host.is_some()
        || job.connection.path.is_some() {
        return Ok(job.connection.clone());
    }
    match crate::config::printer_index(&cfg.printers, job.printer_id.as_str()) {
        Some(k) => {
            proof {
                lemma_first_printer_unique(cfg@.printers, job.printer_id@, k as int);
            }
            Ok(printer_connection_to_types(&cfg.printers[k]))
        },
        None => Err(AppError::not_found(String::from_str("impresora no encontrada en el bridge"))),
    }
}

proof fn lemma_encode_nonempty(chars: Seq<char>)
    ensures
        chars.len() > 0 <==> encode_utf8(chars).len() > 0,
{
    if chars.len() > 0 {
        assert(encode_utf8(chars) == vstd::utf8::encode_scalar(chars[0] as u32) + encode_utf8(
            chars.drop_first(),
        ));
    }
}

/// The number of bytes of a text in UTF-8.
pub open spec fn byte_len(s: Seq<char>) -> nat {
    encode_utf8(s).len()
}

/// How a print job ends before any byte is sent: 400 for a printer id that is
/// empty or longer than 100 bytes, for a payload over the size limit, not
/// Base64 or empty; 404 when no connection is given and no stored printer
/// has the id; otherwise the connection and the bytes to print.
pub open spec fn print_job_outcome(cfg: BridgeConfigView, job: PrintJob) -> Result<
    (Connection, Seq<u8>),
    (ErrorStatus, Seq<char>),
> {
    if byte_len(job.printer_id@) == 0 || byte_len(job.printer_id@) > 100 {
        Err((ErrorStatus::BadRequest, "printerId invalido"@))
    } else if byte_len(job.bytes_base64@) > MAX_BODY_BYTES {
        Err((ErrorStatus::BadRequest, "payload demasiado grande"@))
    } else {
        match payload_outcome(base64_standard_decode(encode_utf8(job.bytes_base64@))) {
            Err(e) => Err(e),
            Ok(bytes) => match resolved_connection(cfg, job) {
                Err(e) => Err(e),
                Ok(c) => Ok((c, bytes)),
            },
        }
    }
}

/// Checks a print or drawer-kick job and resolves where it goes: the
/// connection to use and the decoded bytes.
pub fn prepare_print_job(cfg: &BridgeConfig, job: &PrintJob) -> (r: Result<(Connection, Vec<u8>), AppError>)
    ensures
        match print_job_outcome(cfg@, *job) {
            Ok((c, b)) => r matches Ok((c2, v)) && c2 == c && v@ == b,
            Err((st, msg)) => refused(r, st, msg),
        },
{
    let id_len = job.printer_id.as_str().as_bytes().len();
    if job.printer_id.as_str().is_empty() || id_len > 100 {
        proof {
            if job.printer_id@.len() == 0 {
                assert(encode_utf8(job.printer_id@) =~= Seq::<u8>::empty());
            }
        }
        return Err(AppError::bad_request(String::from_str("printerId invalido")));
    }
    proof {
        lemma_encode_nonempty(job.printer_id@);
    }
    if job.bytes_base64.as_str().as_bytes().len() > MAX_BODY_BYTES {
        return Err(AppError::bad_request(String::from_str("payload demasiado grande")));
    }
    let input = job.bytes_base64.as_str().as_bytes();
    let decoded = decode_base64(input);
    proof {
        assert(input@ == encode_utf8(job.bytes_base64@));
        assert(base64_standard_decode(encode_utf8(job.bytes_base64@)) == match decoded {
            Ok(v) => Ok::<Seq<u8>, Base64Error>(v@),
            Err(e) => Err(e),
        });
    }
    let bytes = match check_decoded_payload(decoded) {
        Ok(b) => b,
        Err(e) => {
            return Err(e);
        },
    };
    match resolve_connection(cfg, job) {
        Ok(c) => Ok((c, bytes)),
        Err(e) => Err(e),
    }
}


// ---------------------------------------------------------------------------
// Printer management

/// The connection of a printer as the printer list shows it.
#[derive(Debug)]
pub struct PrinterConnectionInfo {
    pub conn_type: String,
    pub host: Option<String>,
    pub port: Option<u16>,
    pub vendor_id: Option<String>,
    pub product_id: Option<String>,
    pub path: Option<String>,
}

/// A printer as the printer list shows it.
#[derive(Debug)]
pub struct PrinterInfo {
    pub id: String,
    pub name: String,
    pub paper_width_mm: u8,
    pub drawer_pin: u8,
    pub online: bool,
    pub connection: PrinterConnectionInfo,
}

/// Whether `i` shows exactly the stored printer `p`.
pub open spec fn shows_printer(i: PrinterInfo, p: PrinterConfig) -> bool {
    &&& i.id == p.id
    &&& i.name == p.name
    &&& i.paper_width_mm == p.paper_width_mm
    &&& i.drawer_pin == p.drawer_pin
    &&& i.online == p.online
    &&& i.connection.conn_type == p.connection.conn_type
    &&& i.connection.host == p.connection.host
    &&& i.connection.port == p.connection.port
    &&& i.connection.vendor_id == p.connection.vendor_id
    &&& i.connection.product_id == p.connection.product_id
    &&& i.connection.path == p.connection.path
}

/// The list entry of a stored printer.
pub fn printer_to_info(p: &PrinterConfig) -> (r: PrinterInfo)
    ensures
        shows_printer(r, *p),
{
    PrinterInfo {
        id: p.id.clone(),
        name: p.name.clone(),
        paper_width_mm: p.paper_width_mm,
        drawer_pin: p.drawer_pin,
        online: p.online,
        connection: PrinterConnectionInfo {
            conn_type: p.connection.conn_type.clone(),
            host: clone_opt_string(&p.connection.host),
            port: p.connection.port,
            vendor_id: clone_opt_string(&p.connection.vendor_id),
            product_id: clone_opt_string(&p.connection.product_id),
            path: clone_opt_string(&p.connection.path),
        },
    }
}

/// The list of stored printers, in order.
pub fn list_printers(cfg: &BridgeConfig) -> (r: Vec<PrinterInfo>)
    ensures
        r@.len() == cfg@.printers.len(),
        forall|i: int| 0 <= i < r@.len() ==> shows_printer(#[trigger] r@[i], cfg@.printers[i]),
{
    let mut out: Vec<PrinterInfo> = Vec::new();
    let mut i: usize = 0;
    while i < cfg.printers.len()
        invariant
            i <= cfg.printers.len(),
            out@.len() == i,
            forall|j: int| 0 <= j < i ==> shows_printer(#[trigger] out@[j], cfg@.printers[j]),
        decreases cfg.printers.len() - i,
    {
        out.push(printer_to_info(&cfg.printers[i]));
        i = i + 1;
    }
    out
}

/// The connection part of a configure request.
#[derive(Debug)]
pub struct ConfigureConnectionRequest {
    pub conn_type: String,
    pub host: Option<String>,
    pub port: Option<u16>,
    pub vendor_id: Option<String>,
    pub product_id: Option<String>,
    pub path: Option<String>,
}

/// The body of `POST /printers/configure`. An empty `id` creates a printer.
/// `paper_width_mm` defaults to 80 and `drawer_pin` to 0 when absent.
#[derive(Debug)]
pub struct ConfigurePrinterRequest {
    pub id: String,
    pub name: String,
    pub paper_width_mm: u8,
    pub drawer_pin: u8,
    pub connection: Option<ConfigureConnectionRequest>,
}

/// The stored connection for a requested one.
pub open spec fn requested_connection(c: ConfigureConnectionRequest) -> PrinterConnectionConfig {
    PrinterConnectionConfig {
        conn_type: c.conn_type,
        host: c.host,
        port: c.port,
        vendor_id: c.vendor_id,
        product_id: c.product_id,
        path: c.path,
    }
}

/// Whether `c` is a USB connection to the device with the given identifiers.
pub open spec fn is_usb_connection_to(
    c: PrinterConnectionConfig,
    vendor_id: String,
    product_id: String,
) -> bool {
    &&& c.conn_type@ == "usb"@
    &&& c.host is None
    &&& c.port is None
    &&& c.vendor_id == Some(vendor_id)
    &&& c.product_id == Some(product_id)
    &&& c.path is None
}

/// A USB connection to the device with the given identifiers.
pub fn usb_connection(vendor_id: &String, product_id: &String) -> (r: PrinterConnectionConfig)
    ensures
        is_usb_connection_to(r, *vendor_id, *product_id),
{
    PrinterConnectionConfig {
        conn_type: String::from_str("usb"),
        host: None,
        port: None,
        vendor_id: Some(vendor_id.clone()),
        product_id: Some(product_id.clone()),
        path: None,
    }
}

/// Whether the stored printer `p` is the printer that a configure request
/// leaves: a new one (`created`: fresh random id, not online) or `old`
/// reconfigured, with the trimmed name, the paper width, the drawer pin and
/// the connection `c`.
pub open spec fn configured_as(
    p: PrinterConfig,
    created: bool,
    old: PrinterConfig,
    name: Seq<char>,
    paper_width_mm: u8,
    drawer_pin: u8,
    c: PrinterConnectionConfig,
) -> bool {
    &&& p.name@ == name
    &&& p.paper_width_mm == paper_width_mm
    &&& p.drawer_pin == drawer_pin
    &&& p.connection == c
    &&& created ==> is_v4_uuid_text(p.id@) && !p.online
    &&& !created ==> p.id == old.id && p.online == old.online
}

/// The printers after a successful configure request, the shown entry `info`,
/// the stored printer `p` and its connection `c`.
pub open spec fn configure_outcome(
    before: Seq<PrinterConfig>,
    after: Seq<PrinterConfig>,
    req: ConfigurePrinterRequest,
    detected: Seq<UsbDeviceInfo>,
    info: PrinterInfo,
    p: PrinterConfig,
    c: PrinterConnectionConfig,
) -> bool {
    &&& shows_printer(info, p)
    &&& match req.connection {
        Some(rc) => c == requested_connection(rc),
        None => detected.len() > 0 && is_usb_connection_to(
            c,
            detected[0].vendor_id,
            detected[0].product_id,
        ),
    }
    &&& if req.id@.len() == 0 {
        configured_as(p, true, p, trim(req.name@), req.paper_width_mm, req.drawer_pin, c)
            && after == before.push(p)
    } else {
        exists|k: int|
            is_first_printer(before, req.id@, k) && configured_as(
                p,
                false,
                #[trigger] before[k],
                trim(req.name@),
                req.paper_width_mm,
                req.drawer_pin,
                c,
            ) && after == before.update(k, p)
    }
}

/// What a configure request does, once the business check passed: 400 when
/// the trimmed name is empty, 400 when it names no connection and no USB
/// printer was detected (`detected` is the scan, first entry preferred),
/// 404 when `id` is not empty and names no stored printer. Otherwise the
/// printer is stored (appended, or replacing the first one with that id) and
/// shown.
pub fn configure_printer(
    cfg: &mut BridgeConfig,
    req: ConfigurePrinterRequest,
    detected: &Vec<UsbDeviceInfo>,
) -> (r: Result<PrinterInfo, AppError>)
    ensures
        same_except_printers(final(cfg)@, old(cfg)@),
        trim(req.name@).len() == 0 ==> refused(r, ErrorStatus::BadRequest, "name es requerido"@)
            && final(cfg)@ == old(cfg)@,
        trim(req.name@).len() > 0 && req.connection is None && detected@.len() == 0 ==> refused(
            r,
            ErrorStatus::BadRequest,
            "No se detecto impresora USB. Conectala o especifica connection."@,
        ) && final(cfg)@ == old(cfg)@,
        trim(req.name@).len() > 0 && (req.connection is Some || detected@.len() > 0) && req.id@.len()
            > 0 && !has_printer(old(cfg)@.printers, req.id@) ==> refused(
            r,
            ErrorStatus::NotFound,
            "impresora no encontrada"@,
        ) && final(cfg)@ == old(cfg)@,
        r is Ok ==> exists|p: PrinterConfig, c: PrinterConnectionConfig|
            #[trigger] configure_outcome(
                old(cfg)@.printers,
                final(cfg)@.printers,
                req,
                detected@,
                r->Ok_0,
                p,
                c,
            ),
        trim(req.name@).len() > 0 && (req.connection is Some || detected@.len() > 0) && (req.id@.len()
            == 0 || has_printer(old(cfg)@.printers, req.id@)) ==> r is Ok,
{
    let name = trim_str(req.name.as_str());
    if name.as_str().is_empty() {
        return Err(AppError::bad_request(String::from_str("name es requerido")));
    }
    let connection = match req.connection {
        Some(c) => PrinterConnectionConfig {
            conn_type: c.conn_type,
            host: c.host,
            port: c.port,
            vendor_id: c.vendor_id,
            product_id: c.product_id,
            path: c.path,
        },
        None => {
            if detected.len() == 0 {
                return Err(
                    AppError::bad_request(
                        String::from_str(
                            "No se detecto impresora USB. Conectala o especifica connection.",
                        ),
                    ),
                );
            }
            usb_connection(&detected[0].vendor_id, &detected[0].product_id)
        },
    };
    let ghost c = connection;
    let id: Option<&str> = if req.id.as_str().is_empty() {
        None
    } else {
        Some(req.id.as_str())
    };
    match cfg.upsert_printer(id, name, req.paper_width_mm, req.drawer_pin, connection) {
        None => Err(AppError::not_found(String::from_str("impresora no encontrada"))),
        Some(p) => {
            let info = printer_to_info(&p);
            proof {
                if req.id@.len() == 0 {
                    assert(configured_as(p, true, p, trim(req.name@), req.paper_width_mm, req.drawer_pin, c));
                } else {
                    let k = choose|k: int|
                        is_first_printer(old(cfg)@.printers, req.id@, k) && Some(p) == Some(
                            reconfigured(
                                #[trigger] old(cfg)@.printers[k],
                                p.name,
                                req.paper_width_mm,
                                req.drawer_pin,
                                c,
                            ),
                        ) && cfg@.printers == old(cfg)@.printers.update(k, p);
                    assert(configured_as(
                        p,
                        false,
                        old(cfg)@.printers[k],
                        trim(req.name@),
                        req.paper_width_mm,
                        req.drawer_pin,
                        c,
                    ));
                }
                assert(configure_outcome(old(cfg)@.printers, cfg@.printers, req, detected@, info, p, c));
            }
            let r: Result<PrinterInfo, AppError> = Ok(info);
            proof {
                assert(configure_outcome(old(cfg)@.printers, cfg@.printers, req, detected@, r->Ok_0, p, c));
            }
            r
        },
    }
}


/// Removes the printers with identifier `id`; 404 "impresora no encontrada"
/// when there was none.
pub fn delete_printer(cfg: &mut BridgeConfig, id: &str) -> (r: Result<(), AppError>)
    ensures
        same_except_printers(final(cfg)@, old(cfg)@),
        final(cfg)@.printers == printers_without(old(cfg)@.printers, id@),
        r is Ok <==> has_printer(old(cfg)@.printers, id@),
        !has_printer(old(cfg)@.printers, id@) ==> refused(
            r,
            ErrorStatus::NotFound,
            "impresora no encontrada"@,
        ),
{
    if !cfg.remove_printer(id) {
        return Err(AppError::not_found(String::from_str("impresora no encontrada")));
    }
    Ok(())
}

/// Whether a printer has a cash drawer.
pub open spec fn has_drawer(p: PrinterConfig) -> bool {
    p.drawer_pin > 0
}

/// Whether `b` is a test ticket for `p`, printed at some time.
pub open spec fn is_test_ticket_for(p: PrinterConfig, b: Seq<u8>) -> bool {
    exists|secs: u64| b == #[trigger] test_ticket(p.paper_width_mm, has_drawer(p), secs)
}

/// The test print of a stored printer: a test ticket for its paper width,
/// with a drawer pulse when it has a drawer, on its connection.
pub fn printer_test_job(cfg: &BridgeConfig, id: &str) -> (r: Result<(Vec<u8>, Connection), AppError>)
    ensures
        has_printer(cfg@.printers, id@) ==> exists|k: int|
            is_first_printer(cfg@.printers, id@, k) && (r matches Ok((b, c)) && c
                == printer_connection(#[trigger] cfg@.printers[k]) && is_test_ticket_for(
                cfg@.printers[k],
                b@,
            )),
        !has_printer(cfg@.printers, id@) ==> refused(
            r,
            ErrorStatus::NotFound,
            "impresora no encontrada"@,
        ),
{
    match printer_index(&cfg.printers, id) {
        None => Err(AppError::not_found(String::from_str("impresora no encontrada"))),
        Some(k) => {
            let p = &cfg.printers[k];
            let drawer = p.drawer_pin > 0;
            let bytes = generate_test_ticket(p.paper_width_mm, drawer);
            proof {
                let secs = choose|secs: u64|
                    bytes@ == #[trigger] test_ticket(p.paper_width_mm, drawer, secs);
                assert(bytes@ == test_ticket(p.paper_width_mm, has_drawer(*p), secs));
                assert(is_test_ticket_for(*p, bytes@));
            }
            let c = printer_connection_to_types(p);
            Ok((bytes, c))
        },
    }
}

/// The drawer pulse for a stored printer: 404 when no printer has the id,
/// 400 "Esta impresora no tiene cajon configurado" when its drawer pin is 0,
/// otherwise the pulse for its pin on its connection.
pub fn drawer_printer_job(cfg: &BridgeConfig, id: &str) -> (r: Result<(Vec<u8>, Connection), AppError>)
    ensures
        has_printer(cfg@.printers, id@) ==> exists|k: int|
            is_first_printer(cfg@.printers, id@, k) && if (#[trigger] cfg@.printers[k]).drawer_pin
                == 0 {
                refused(r, ErrorStatus::BadRequest, "Esta impresora no tiene cajon configurado"@)
            } else {
                r matches Ok((b, c)) && c == printer_connection(cfg@.printers[k]) && b@
                    == drawer_pulse(
                    if cfg@.printers[k].drawer_pin == 5 {
                        1u8
                    } else {
                        0u8
                    },
                )
            },
        !has_printer(cfg@.printers, id@) ==> refused(
            r,
            ErrorStatus::NotFound,
            "impresora no encontrada"@,
        ),
{
    match printer_index(&cfg.printers, id) {
        None => Err(AppError::not_found(String::from_str("impresora no encontrada"))),
        Some(k) => {
            let p = &cfg.printers[k];
            if p.drawer_pin == 0 {
                return Err(
                    AppError::bad_request(
                        String::from_str("Esta impresora no tiene cajon configurado"),
                    ),
                );
            }
            let bytes = drawer_kick_bytes(p.drawer_pin);
            let c = printer_connection_to_types(p);
            Ok((bytes, c))
        },
    }
}

/// A USB connection to the device with the given identifier texts.
pub open spec fn is_usb_job_connection(c: Connection, vendor_id: String, product_id: String) -> bool {
    &&& c.conn_type == ConnectionType::Usb
    &&& c.vendor_id == Some(vendor_id)
    &&& c.product_id == Some(product_id)
    &&& c.host is None
    &&& c.port is None
    &&& c.path is None
    &&& c.baud_rate is None
    &&& c.mac_address is None
}

/// The test print sent to a USB device that is not stored yet: an 80 mm test
/// ticket without drawer pulse.
pub fn usb_test_job(vendor_id: String, product_id: String) -> (r: (Connection, Vec<u8>))
    ensures
        is_usb_job_connection(r.0, vendor_id, product_id),
        exists|secs: u64| r.1@ == test_ticket(80, false, secs),
{
    let c = Connection {
        conn_type: ConnectionType::Usb,
        host: None,
        port: None,
        vendor_id: Some(vendor_id),
        product_id: Some(product_id),
        path: None,
        baud_rate: None,
        mac_address: None,
    };
    (c, generate_test_ticket(80, false))
}

/// The answer to a job whose bytes were sent: `ok`, a fresh random job
/// identifier, the number of bytes sent and an optional message.
pub fn job_sent(bytes: usize, message: Option<String>) -> (r: JobResponse)
    ensures
        r.ok,
        is_v4_uuid_text(r.job_id@),
        r.bytes == bytes,
        r.message == message,
{
    JobResponse { ok: true, job_id: new_uuid_string(), bytes, message }
}

/// The name that `GET /health` reports.
pub open spec fn bridge_name() -> Seq<char> {
    "Cegel Print Bridge"@
}

/// The answer of `GET /health` for a configuration and a bridge version.
pub fn health_response(cfg: &BridgeConfig, version: &str) -> (r: HealthResponse)
    ensures
        r.ok,
        r.version@ == version@,
        r.name@ == bridge_name(),
        r.paired == (cfg@.paired_business_id is Some),
        r.business_id == cfg.paired_business_id,
        r.device_id == cfg.device_id,
{
    HealthResponse {
        ok: true,
        version: version.to_owned(),
        name: "Cegel Print Bridge",
        paired: cfg.paired_business_id.is_some(),
        business_id: clone_opt_string(&cfg.paired_business_id),
        device_id: cfg.device_id.clone(),
    }
}

/// Whether every byte of `s` may stand in an HTTP header value: visible ASCII,
/// space, tab or any byte of a non-ASCII character (every byte but control
/// characters and DEL).
pub open spec fn is_header_value_text(s: Seq<char>) -> bool {
    forall|i: int|
        0 <= i < s.len() ==> (((#[trigger] s[i]) as u32 >= 32 && s[i] as u32 != 127) || s[i]
            == '\t')
}

/// Whether `axum::http::HeaderValue::from_str` accepts `s`. The `http`
/// source accepts exactly the strings whose bytes are all `>= 32` and not
/// 127, or a tab; every byte of a multi-byte UTF-8 character is `>= 0x80`,
/// so this is the character-level condition `is_header_value_text`.
#[verifier::external_body]
fn header_value_ok(s: &str) -> (r: bool)
    ensures
        r == is_header_value_text(s@),
{
    axum::http::HeaderValue::from_str(s).is_ok()
}

/// The origins that the CORS layer lets through: the configured ones that can
/// stand in a header, in order.
pub open spec fn cors_origin_list(origins: Seq<Seq<char>>) -> Seq<Seq<char>> {
    origins.filter(|o: Seq<char>| is_header_value_text(o))
}

/// The configured origins that can stand in a header, in order.
pub fn cors_origins(cfg: &BridgeConfig) -> (r: Vec<String>)
    ensures
        string_views(r@) == cors_origin_list(cfg@.allowed_origins),
{
    let mut out: Vec<String> = Vec::new();
    let mut i: usize = 0;
    let ghost all = string_views(cfg.allowed_origins@);
    while i < cfg.allowed_origins.len()
        invariant
            i <= cfg.allowed_origins.len(),
            all == string_views(cfg.allowed_origins@),
            string_views(out@) == cors_origin_list(all.take(i as int)),
        decreases cfg.allowed_origins.len() - i,
    {
        let ghost before = out@;
        proof {
            assert(all.take(i + 1).drop_last() =~= all.take(i as int));
            reveal_with_fuel(Seq::filter, 1);
        }
        if header_value_ok(cfg.allowed_origins[i].as_str()) {
            out.push(cfg.allowed_origins[i].clone());
            proof {
                assert(string_views(out@) =~= string_views(before).push(all[i as int]));
            }
        }
        i = i + 1;
    }
    proof {
        assert(all.take(cfg.allowed_origins.len() as int) =~= all);
    }
    out
}


/// A loaded configuration serves the Cegel web app: every default origin
/// passes the origin check, and a request that names the paired business
/// (any request, while unpaired) passes the business check.
pub proof fn law_loaded_config_serves_cegel_web(
    stored: BridgeConfigView,
    i: int,
    header: Option<Seq<char>>,
)
    requires
        0 <= i < default_origins().len(),
        stored.paired_business_id is None || header == stored.paired_business_id,
    ensures
        origin_allowed(merged_config(stored).allowed_origins, default_origins()[i]),
        business_allowed(merged_config(stored).paired_business_id, header),
{
    law_merge_accepts_default_origins(stored.allowed_origins);
}

/// A stored printer is printed on with the kind of connection it was stored
/// with: `"network"`, `"usb"`, `"serial"` and `"bluetooth"` give those kinds,
/// and its host, port, USB identifiers and path are kept.
pub proof fn law_stored_connection_kind_is_kept(p: PrinterConfig)
    ensures
        p.connection.conn_type@ == "network"@ ==> printer_connection(p).conn_type
            == ConnectionType::Network,
        p.connection.conn_type@ == "usb"@ ==> printer_connection(p).conn_type == ConnectionType::Usb,
        p.connection.conn_type@ == "serial"@ ==> printer_connection(p).conn_type
            == ConnectionType::Serial,
        p.connection.conn_type@ == "bluetooth"@ ==> printer_connection(p).conn_type
            == ConnectionType::Bluetooth,
        printer_connection(p).host == p.connection.host,
        printer_connection(p).port == p.connection.port,
        printer_connection(p).vendor_id == p.connection.vendor_id,
        printer_connection(p).product_id == p.connection.product_id,
        printer_connection(p).path == p.connection.path,
{
    reveal_strlit("network");
    reveal_strlit("usb");
    reveal_strlit("serial");
    reveal_strlit("bluetooth");
    assert("usb"@ != "network"@) by {
        assert("usb"@[0] != "network"@[0]);
    }
    assert("serial"@ != "network"@) by {
        assert("serial"@[0] != "network"@[0]);
    }
    assert("serial"@ != "usb"@) by {
        assert("serial"@[0] != "usb"@[0]);
    }
    assert("bluetooth"@ != "network"@) by {
        assert("bluetooth"@[0] != "network"@[0]);
    }
    assert("bluetooth"@ != "usb"@) by {
        assert("bluetooth"@[0] != "usb"@[0]);
    }
    assert("bluetooth"@ != "serial"@) by {
        assert("bluetooth"@[0] != "serial"@[0]);
    }
}

/// A printer stored as serial on a `/dev/tty*` or `/dev/cu.*` device (Unix)
/// is printed to over that serial port at 9600 baud.
pub proof fn law_stored_serial_printer_prints_serially(p: PrinterConfig)
    requires
        p.connection.conn_type@ == "serial"@,
        p.connection.path matches Some(x) && ("/dev/tty"@.is_prefix_of(x@) || "/dev/cu."@.is_prefix_of(
            x@,
        )) && !crate::adapters::has_double_dot(x@),
    ensures
        crate::adapters::send_plan(printer_connection(p), crate::adapters::OsFamily::Unix) == Ok::<
            crate::adapters::Transport,
            crate::adapters::SendError,
        >(crate::adapters::Transport::Serial { path: p.connection.path->0, baud_rate: 9600 }),
{
    law_stored_connection_kind_is_kept(p);
    crate::adapters::law_unix_tty_devices_are_serial(printer_connection(p));
}

/// A configure request that names a connection stores and shows exactly that
/// connection, field by field (kind, host, port, USB identifiers, path), and
/// the printer it stores is among the printers afterwards.
pub proof fn law_configured_connection_is_the_requested_one(
    before: Seq<PrinterConfig>,
    after: Seq<PrinterConfig>,
    req: ConfigurePrinterRequest,
    detected: Seq<UsbDeviceInfo>,
    info: PrinterInfo,
    p: PrinterConfig,
    c: PrinterConnectionConfig,
)
    requires
        configure_outcome(before, after, req, detected, info, p, c),
        req.connection is Some,
    ensures
        p.connection.conn_type == req.connection->0.conn_type,
        p.connection.host == req.connection->0.host,
        p.connection.port == req.connection->0.port,
        p.connection.vendor_id == req.connection->0.vendor_id,
        p.connection.product_id == req.connection->0.product_id,
        p.connection.path == req.connection->0.path,
        info.connection.conn_type == req.connection->0.conn_type,
        info.connection.host == req.connection->0.host,
        info.connection.port == req.connection->0.port,
        info.connection.vendor_id == req.connection->0.vendor_id,
        info.connection.product_id == req.connection->0.product_id,
        info.connection.path == req.connection->0.path,
        after.contains(p),
{
    if req.id@.len() == 0 {
        assert(after[before.len() as int] == p);
    } else {
        let k = choose|k: int|
            is_first_printer(before, req.id@, k) && configured_as(
                p,
                false,
                #[trigger] before[k],
                trim(req.name@),
                req.paper_width_mm,
                req.drawer_pin,
                c,
            ) && after == before.update(k, p);
        assert(after[k] == p);
    }
}

/// The test print of a stored printer fits that printer: it reports the
/// printer's own paper width (`Papel : <w> mm`), draws 32-dash lines on paper
/// up to 58 mm and 48-dash lines on wider paper, and pulses the drawer
/// (`ESC p`) exactly when the printer has one.
pub proof fn law_printer_test_ticket_fits_the_printer(p: PrinterConfig, b: Seq<u8>)
    requires
        is_test_ticket_for(p, b),
    ensures
        has_infix(b, paper_line(p.paper_width_mm)),
        has_infix(
            b,
            dash_line(
                if p.paper_width_mm <= 58 {
                    32
                } else {
                    48
                },
            ),
        ),
        has_esc_p(b) <==> p.drawer_pin > 0,
{
    let secs = choose|secs: u64| b == #[trigger] test_ticket(p.paper_width_mm, has_drawer(p), secs);
    law_test_ticket_fits_its_paper(p.paper_width_mm, has_drawer(p), secs);
}

/// A printer stored from the USB scan (a USB connection with the identifiers
/// that the scan printed) is sent to as exactly that USB device.
pub proof fn law_scanned_usb_printer_is_addressable(
    p: PrinterConfig,
    vendor_id: u16,
    product_id: u16,
    os: crate::adapters::OsFamily,
)
    requires
        p.connection.conn_type@ == "usb"@,
        p.connection.vendor_id matches Some(v) && v@ == crate::text::hex4_upper(vendor_id),
        p.connection.product_id matches Some(v) && v@ == crate::text::hex4_upper(product_id),
    ensures
        crate::adapters::send_plan(printer_connection(p), os) == Ok::<
            crate::adapters::Transport,
            crate::adapters::SendError,
        >(crate::adapters::Transport::Usb { vendor_id, product_id }),
{
    reveal_strlit("usb");
    reveal_strlit("network");
    assert("usb"@ != "network"@) by {
        assert("usb"@[0] != "network"@[0]);
    }
    crate::text::law_hex4_reads_back(vendor_id);
    crate::text::law_hex4_reads_back(product_id);
}

} // verus!
