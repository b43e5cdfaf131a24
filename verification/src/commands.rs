//! The decisions behind the commands of the desktop window: what the window
//! may read of the configuration, the status line, and configuring a printer
//! from the window.

use vstd::prelude::*;
use crate::config::{
    BridgeConfig, PrinterConfig, PrinterConnectionConfig, clone_strings, has_printer,
    is_first_printer, is_v4_uuid_text, opt_view, reconfigured, same_except_printers,
    string_views,
};
use crate::server::{configured_as, is_usb_connection_to, usb_connection};
use crate::text::{trim, trim_str};
use crate::types::clone_opt_string;
use crate::usb_scan::UsbDeviceInfo;

verus! {

/// What the window may read of the configuration: everything but the device
/// token and the printers.
#[derive(Debug)]
pub struct SafeConfig {
    pub port: u16,
    pub allowed_origins: Vec<String>,
    pub paired_business_id: Option<String>,
    pub device_id: String,
    pub cegel_api_base: String,
}

/// The configuration as the window may read it.
pub fn safe_config(cfg: &BridgeConfig) -> (r: SafeConfig)
    ensures
        r.port == cfg@.port,
        string_views(r.allowed_origins@) == cfg@.allowed_origins,
        opt_view(r.paired_business_id) == cfg@.paired_business_id,
        r.device_id@ == cfg@.device_id,
        r.cegel_api_base@ == cfg@.cegel_api_base,
{
    SafeConfig {
        port: cfg.port,
        allowed_origins: clone_strings(&cfg.allowed_origins),
        paired_business_id: clone_opt_string(&cfg.paired_business_id),
        device_id: cfg.device_id.clone(),
        cegel_api_base: cfg.cegel_api_base.clone(),
    }
}

/// The status line of the window. `paired` tells whether the device holds a
/// token.
#[derive(Debug)]
pub struct BridgeStatus {
    pub ok: bool,
    pub version: String,
    pub port: u16,
    pub paired: bool,
    pub device_id: String,
    pub business_id: Option<String>,
}

/// The status line for a configuration and a bridge version.
pub fn bridge_status(cfg: &BridgeConfig, version: &str) -> (r: BridgeStatus)
    ensures
        r.ok,
        r.version@ == version@,
        r.port == cfg@.port,
        r.paired == (cfg@.device_token is Some),
        r.device_id@ == cfg@.device_id,
        opt_view(r.business_id) == cfg@.paired_business_id,
{
    BridgeStatus {
        ok: true,
        version: version.to_owned(),
        port: cfg.port,
        paired: cfg.device_token.is_some(),
        device_id: cfg.device_id.clone(),
        business_id: clone_opt_string(&cfg.paired_business_id),
    }
}

/// The connection a window request configures: the given USB identifiers when
/// both are given, otherwise the first detected USB printer.
pub open spec fn window_connection_ok(
    c: PrinterConnectionConfig,
    vendor_id: Option<String>,
    product_id: Option<String>,
    detected: Seq<UsbDeviceInfo>,
) -> bool {
    if vendor_id is Some && product_id is Some {
        is_usb_connection_to(c, vendor_id->0, product_id->0)
    } else {
        detected.len() > 0 && is_usb_connection_to(c, detected[0].vendor_id, detected[0].product_id)
    }
}

/// The printers after a successful window request and the printer it stored.
pub open spec fn window_outcome(
    before: Seq<PrinterConfig>,
    after: Seq<PrinterConfig>,
    id: Option<String>,
    name: Seq<char>,
    paper_width_mm: u8,
    drawer_pin: u8,
    p: PrinterConfig,
    c: PrinterConnectionConfig,
) -> bool {
    match id {
        None => configured_as(p, true, p, name, paper_width_mm, drawer_pin, c) && after == before.push(
            p,
        ),
        Some(x) => exists|k: int|
            is_first_printer(before, x@, k) && configured_as(
                p,
                false,
                #[trigger] before[k],
                name,
                paper_width_mm,
                drawer_pin,
                c,
            ) && after == before.update(k, p),
    }
}

/// Creates or reconfigures a printer from the window: the name is trimmed,
/// the paper width defaults to 80 and the drawer pin to 0. Refused with "No
/// se detectó impresora USB" when no identifiers are given and none was
/// detected, and with "Impresora no encontrada" when `id` names no printer.
pub fn configure_printer_command(
    cfg: &mut BridgeConfig,
    id: Option<String>,
    name: String,
    paper_width_mm: Option<u8>,
    drawer_pin: Option<u8>,
    vendor_id: Option<String>,
    product_id: Option<String>,
    detected: &Vec<UsbDeviceInfo>,
) -> (r: Result<PrinterConfig, String>)
    ensures
        same_except_printers(final(cfg)@, old(cfg)@),
        !(vendor_id is Some && product_id is Some) && detected@.len() == 0 ==> (r matches Err(m)
            && m@ == "No se detectó impresora USB"@) && final(cfg)@ == old(cfg)@,
        ((vendor_id is Some && product_id is Some) || detected@.len() > 0) && id is Some
            && !has_printer(old(cfg)@.printers, id->0@) ==> (r matches Err(m) && m@
            == "Impresora no encontrada"@) && final(cfg)@ == old(cfg)@,
        ((vendor_id is Some && product_id is Some) || detected@.len() > 0) && (id is None
            || has_printer(old(cfg)@.printers, id->0@)) ==> r is Ok,
        r matches Ok(p) ==> exists|c: PrinterConnectionConfig|
            #[trigger] window_connection_ok(c, vendor_id, product_id, detected@) && window_outcome(
                old(cfg)@.printers,
                final(cfg)@.printers,
                id,
                trim(name@),
                match paper_width_mm {
                    Some(w) => w,
                    None => 80,
                },
                match drawer_pin {
                    Some(d) => d,
                    None => 0,
                },
                p,
                c,
            ),
{
    let connection = if vendor_id.is_some() && product_id.is_some() {
        let vid = vendor_id.as_ref().unwrap();
        let pid = product_id.as_ref().unwrap();
        usb_connection(vid, pid)
    } else {
        if detected.len() == 0 {
            return Err(String::from_str("No se detectó impresora USB"));
        }
        usb_connection(&detected[0].vendor_id, &detected[0].product_id)
    };
    let ghost c = connection;
    let name = trim_str(name.as_str());
    let pw: u8 = match paper_width_mm {
        Some(w) => w,
        None => 80,
    };
    let dp: u8 = match drawer_pin {
        Some(d) => d,
        None => 0,
    };
    let key: Option<&str> = match &id {
        Some(x) => Some(x.as_str()),
        None => None,
    };
    match cfg.upsert_printer(key, name, pw, dp, connection) {
        None => Err(String::from_str("Impresora no encontrada")),
        Some(p) => {
            proof {
                if id is Some {
                    let k = choose|k: int|
                        is_first_printer(old(cfg)@.printers, id->0@, k) && Some(p) == Some(
                            reconfigured(#[trigger] old(cfg)@.printers[k], p.name, pw, dp, c),
                        ) && cfg@.printers == old(cfg)@.printers.update(k, p);
                    assert(configured_as(p, false, old(cfg)@.printers[k], p.name@, pw, dp, c));
                }
                assert(window_connection_ok(c, vendor_id, product_id, detected@));
            }
            Ok(p)
        },
    }
}

} // verus!
