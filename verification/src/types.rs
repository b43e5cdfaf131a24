//! The values that the web app sends with each job and the uniform answers
//! of the bridge.

use vstd::prelude::*;

verus! {

/// Physical kind of the link to the printer.
#[derive(Clone, Copy, Debug, PartialEq, Eq, Structural)]
pub enum ConnectionType {
    Network,
    Usb,
    Serial,
    Bluetooth,
}

/// The connection that the web app sends along with each job. Which fields
/// matter depends on the kind: `host`/`port` for a network printer,
/// `vendor_id`/`product_id` (hexadecimal, without `0x`) for USB,
/// `path`/`baud_rate` for a serial port and `mac_address` for Bluetooth.
#[derive(Debug)]
pub struct Connection {
    pub conn_type: ConnectionType,
    pub host: Option<String>,
    pub port: Option<u16>,
    pub vendor_id: Option<String>,
    pub product_id: Option<String>,
    pub path: Option<String>,
    pub baud_rate: Option<u32>,
    pub mac_address: Option<String>,
}

/// A copy of an optional string that equals it.
pub fn clone_opt_string(s: &Option<String>) -> (r: Option<String>)
    ensures
        r == *s,
{
    match s {
        Some(v) => Some(v.clone()),
        None => None,
    }
}

impl Clone for Connection {
    fn clone(&self) -> (r: Self)
        ensures
            r == *self,
    {
        Connection {
            conn_type: self.conn_type,
            host: clone_opt_string(&self.host),
            port: self.port,
            vendor_id: clone_opt_string(&self.vendor_id),
            product_id: clone_opt_string(&self.product_id),
            path: clone_opt_string(&self.path),
            baud_rate: self.baud_rate,
            mac_address: clone_opt_string(&self.mac_address),
        }
    }
}

/// A job received by `POST /print` or `POST /drawer-kick`.
#[derive(Debug)]
pub struct PrintJob {
    pub bytes_base64: String,
    pub connection: Connection,
    pub printer_id: String,
    pub label: Option<String>,
}

/// The uniform answer of the bridge to a job.
#[derive(Debug)]
pub struct JobResponse {
    pub ok: bool,
    pub job_id: String,
    pub bytes: usize,
    pub message: Option<String>,
}

/// The answer of `GET /health`.
#[derive(Debug)]
pub struct HealthResponse {
    pub ok: bool,
    pub version: String,
    pub name: &'static str,
    pub paired: bool,
    pub business_id: Option<String>,
    pub device_id: String,
}

/// The body of every refused request.
#[derive(Debug)]
pub struct ErrorResponse {
    pub ok: bool,
    pub error: String,
}

} // verus!
