//! The bridge configuration persisted in `~/.cegel/bridge.json` and the
//! management of the printers it holds.

use vstd::prelude::*;
use crate::text::{push_str, starts_with, str_equal};
use crate::types::clone_opt_string;

verus! {

/// The connection of a printer as the bridge detected it. `conn_type` is one
/// of `"usb"`, `"network"`, `"serial"` or `"winspool"`.
#[derive(Debug)]
pub struct PrinterConnectionConfig {
    pub conn_type: String,
    pub host: Option<String>,
    pub port: Option<u16>,
    pub vendor_id: Option<String>,
    pub product_id: Option<String>,
    pub path: Option<String>,
}

impl Clone for PrinterConnectionConfig {
    fn clone(&self) -> (r: Self)
        ensures
            r == *self,
    {
        PrinterConnectionConfig {
            conn_type: self.conn_type.clone(),
            host: clone_opt_string(&self.host),
            port: self.port,
            vendor_id: clone_opt_string(&self.vendor_id),
            product_id: clone_opt_string(&self.product_id),
            path: clone_opt_string(&self.path),
        }
    }
}

/// A printer managed by the bridge. `paper_width_mm` is 80 or 58;
/// `drawer_pin` is 0 (no cash drawer), 2 or 5; `online` records the outcome
/// of the last test print.
#[derive(Debug)]
pub struct PrinterConfig {
    pub id: String,
    pub name: String,
    pub paper_width_mm: u8,
    pub drawer_pin: u8,
    pub connection: PrinterConnectionConfig,
    pub online: bool,
}

impl Clone for PrinterConfig {
    fn clone(&self) -> (r: Self)
        ensures
            r == *self,
    {
        PrinterConfig {
            id: self.id.clone(),
            name: self.name.clone(),
            paper_width_mm: self.paper_width_mm,
            drawer_pin: self.drawer_pin,
            connection: self.connection.clone(),
            online: self.online,
        }
    }
}

/// The persisted configuration of the bridge.
#[derive(Debug)]
pub struct BridgeConfig {
    pub port: u16,
    pub allowed_origins: Vec<String>,
    pub paired_business_id: Option<String>,
    /// Device token (Bearer) that the backend hands out when pairing is confirmed.
    pub device_token: Option<String>,
    pub device_id: String,
    /// Base URL of the Cegel backend.
    pub cegel_api_base: String,
    pub printers: Vec<PrinterConfig>,
}

/// A copy of a list of strings that equals it.
pub fn clone_strings(v: &Vec<String>) -> (r: Vec<String>)
    ensures
        r@ == v@,
{
    let mut out: Vec<String> = Vec::new();
    let mut i: usize = 0;
    while i < v.len()
        invariant
            i <= v.len(),
            out@ == v@.take(i as int),
        decreases v.len() - i,
    {
        out.push(v[i].clone());
        proof {
            assert(v@.take(i + 1) =~= v@.take(i as int).push(v@[i as int]));
        }
        i = i + 1;
    }
    proof {
        assert(v@.take(v.len() as int) =~= v@);
    }
    out
}

/// A copy of a list of printers that equals it.
pub fn clone_printers(v: &Vec<PrinterConfig>) -> (r: Vec<PrinterConfig>)
    ensures
        r@ == v@,
{
    let mut out: Vec<PrinterConfig> = Vec::new();
    let mut i: usize = 0;
    while i < v.len()
        invariant
            i <= v.len(),
            out@ == v@.take(i as int),
        decreases v.len() - i,
    {
        out.push(v[i].clone());
        proof {
            assert(v@.take(i + 1) =~= v@.take(i as int).push(v@[i as int]));
        }
        i = i + 1;
    }
    proof {
        assert(v@.take(v.len() as int) =~= v@);
    }
    out
}

/// The optional string as characters.
pub open spec fn opt_view(s: Option<String>) -> Option<Seq<char>> {
    match s {
        Some(v) => Some(v@),
        None => None,
    }
}

/// The mathematical value of a [`BridgeConfig`].
pub struct BridgeConfigView {
    pub port: u16,
    pub allowed_origins: Seq<Seq<char>>,
    pub paired_business_id: Option<Seq<char>>,
    pub device_token: Option<Seq<char>>,
    pub device_id: Seq<char>,
    pub cegel_api_base: Seq<char>,
    pub printers: Seq<PrinterConfig>,
}

impl View for BridgeConfig {
    type V = BridgeConfigView;

    open spec fn view(&self) -> BridgeConfigView {
        BridgeConfigView {
            port: self.port,
            allowed_origins: string_views(self.allowed_origins@),
            paired_business_id: opt_view(self.paired_business_id),
            device_token: opt_view(self.device_token),
            device_id: self.device_id@,
            cegel_api_base: self.cegel_api_base@,
            printers: self.printers@,
        }
    }
}

impl Clone for BridgeConfig {
    fn clone(&self) -> (r: Self)
        ensures
            r@ == self@,
    {
        let r = BridgeConfig {
            port: self.port,
            allowed_origins: clone_strings(&self.allowed_origins),
            paired_business_id: clone_opt_string(&self.paired_business_id),
            device_token: clone_opt_string(&self.device_token),
            device_id: self.device_id.clone(),
            cegel_api_base: self.cegel_api_base.clone(),
            printers: clone_printers(&self.printers),
        };
        proof {
            assert(string_views(r.allowed_origins@) =~= string_views(self.allowed_origins@));
            assert(r.printers@ =~= self.printers@);
        }
        r
    }
}

/// What `uuid::Uuid::new_v4().to_string()` gives: 36 characters, hyphens at
/// positions 8, 13, 18 and 23, lower-case hexadecimal digits elsewhere,
/// version digit `4` and an RFC 4122 variant digit.
pub open spec fn is_v4_uuid_text(s: Seq<char>) -> bool {
    &&& s.len() == 36
    &&& forall|i: int|
        0 <= i < 36 ==> if i == 8 || i == 13 || i == 18 || i == 23 {
            #[trigger] s[i] == '-'
        } else {
            ('0' <= s[i] && s[i] <= '9') || ('a' <= s[i] && s[i] <= 'f')
        }
    &&& s[14] == '4'
    &&& (s[19] == '8' || s[19] == '9' || s[19] == 'a' || s[19] == 'b')
}

/// A fresh random identifier: calls `uuid::Uuid::new_v4` and formats it
/// with `to_string`. The value is random; the contract states only its shape,
/// as the `uuid` source formats a version 4 UUID.
#[verifier::external_body]
pub(crate) fn new_uuid_string() -> (r: String)
    ensures
        is_v4_uuid_text(r@),
{
    uuid::Uuid::new_v4().to_string()
}

/// The paper width assumed when none is given.
pub fn default_paper_width() -> (r: u8)
    ensures
        r == 80,
{
    80
}

/// The backend used when the configuration names none.
pub open spec fn default_api_base_text() -> Seq<char> {
    "https://api.cegel.app"@
}

/// The base URL of the production backend.
pub fn default_api_base() -> (r: String)
    ensures
        r@ == default_api_base_text(),
{
    String::from_str("https://api.cegel.app")
}

/// A fresh device identifier.
pub fn default_device_id() -> (r: String)
    ensures
        is_v4_uuid_text(r@),
{
    new_uuid_string()
}

/// The web origins that may always call the bridge: the Cegel web app, the
/// desktop window and the local development server of the web app.
pub open spec fn default_origins() -> Seq<Seq<char>> {
    seq![
        "https://www.cegel.app"@,
        "https://cegel.app"@,
        "tauri://localhost"@,
        "http://localhost:5173"@,
        "http://127.0.0.1:5173"@,
    ]
}

/// The port on which the bridge listens by default.
pub open spec fn default_port() -> u16 {
    9101
}

/// The default origins as strings.
pub fn default_origin_strings() -> (r: Vec<String>)
    ensures
        r@.map_values(|s: String| s@) == default_origins(),
{
    let mut v: Vec<String> = Vec::new();
    v.push(String::from_str("https://www.cegel.app"));
    v.push(String::from_str("https://cegel.app"));
    v.push(String::from_str("tauri://localhost"));
    v.push(String::from_str("http://localhost:5173"));
    v.push(String::from_str("http://127.0.0.1:5173"));
    proof {
        assert(v@.map_values(|s: String| s@) =~= default_origins());
    }
    v
}

/// The views of a list of strings.
pub open spec fn string_views(v: Seq<String>) -> Seq<Seq<char>> {
    v.map_values(|s: String| s@)
}

impl Default for BridgeConfig {
    fn default() -> (r: Self)
        ensures
            is_default_config(r@),
    {
        BridgeConfig {
            port: 9101,
            allowed_origins: default_origin_strings(),
            paired_business_id: None,
            device_token: None,
            device_id: default_device_id(),
            cegel_api_base: default_api_base(),
            printers: Vec::new(),
        }
    }
}

/// A configuration as `BridgeConfig::default` creates it: default port,
/// origins and backend, not paired, no printers and a fresh device id.
pub open spec fn is_default_config(c: BridgeConfigView) -> bool {
    &&& c.port == default_port()
    &&& c.allowed_origins == default_origins()
    &&& c.paired_business_id is None
    &&& c.device_token is None
    &&& is_v4_uuid_text(c.device_id)
    &&& c.cegel_api_base == default_api_base_text()
    &&& c.printers.len() == 0
}

/// Whether `base` is acceptable as backend URL: it must use HTTPS.
pub open spec fn api_base_is_valid(base: Seq<char>) -> bool {
    "https://"@.is_prefix_of(base)
}

/// The refusal of a backend URL that does not use HTTPS.
pub open spec fn api_base_error(base: Seq<char>) -> Seq<char> {
    "cegel_api_base debe usar HTTPS en producción (actual: "@ + base + ")"@
}

impl BridgeConfig {
    /// Checks that the backend URL uses HTTPS, as a production build requires.
    pub fn validate_api_base(&self) -> (r: Result<(), String>)
        ensures
            r is Ok <==> api_base_is_valid(self@.cegel_api_base),
            r matches Err(msg) ==> msg@ == api_base_error(self@.cegel_api_base),
    {
        if !starts_with(self.cegel_api_base.as_str(), "https://") {
            let mut msg = String::from_str("cegel_api_base debe usar HTTPS en producción (actual: ");
            push_str(&mut msg, self.cegel_api_base.as_str());
            push_str(&mut msg, ")");
            return Err(msg);
        }
        Ok(())
    }
}


/// Whether some printer in `ps` has identifier `id`.
pub open spec fn has_printer(ps: Seq<PrinterConfig>, id: Seq<char>) -> bool {
    exists|k: int| 0 <= k < ps.len() && (#[trigger] ps[k]).id@ == id
}

/// Whether `k` is the first position in `ps` of a printer with identifier `id`.
pub open spec fn is_first_printer(ps: Seq<PrinterConfig>, id: Seq<char>, k: int) -> bool {
    &&& 0 <= k < ps.len()
    &&& ps[k].id@ == id
    &&& forall|j: int| 0 <= j < k ==> (#[trigger] ps[j]).id@ != id
}

/// `ps` without the printers whose identifier is `id`, order kept.
pub open spec fn printers_without(ps: Seq<PrinterConfig>, id: Seq<char>) -> Seq<PrinterConfig>
    decreases ps.len(),
{
    if ps.len() == 0 {
        ps
    } else if ps.last().id@ == id {
        printers_without(ps.drop_last(), id)
    } else {
        printers_without(ps.drop_last(), id).push(ps.last())
    }
}

/// `a` and `b` agree on everything but the printers.
pub open spec fn same_except_printers(a: BridgeConfigView, b: BridgeConfigView) -> bool {
    &&& a.port == b.port
    &&& a.allowed_origins == b.allowed_origins
    &&& a.paired_business_id == b.paired_business_id
    &&& a.device_token == b.device_token
    &&& a.device_id == b.device_id
    &&& a.cegel_api_base == b.cegel_api_base
}

/// `p` with identifier `id` and everything else unchanged.
pub open spec fn with_id(p: PrinterConfig, id: String) -> PrinterConfig {
    PrinterConfig { id: id, ..p }
}

/// The position of the first printer with identifier `id`, if any.
pub fn printer_index(ps: &Vec<PrinterConfig>, id: &str) -> (r: Option<usize>)
    ensures
        r is None <==> !has_printer(ps@, id@),
        r matches Some(k) ==> is_first_printer(ps@, id@, k as int),
{
    let mut i: usize = 0;
    while i < ps.len()
        invariant
            i <= ps.len(),
            forall|j: int| 0 <= j < i ==> (#[trigger] ps@[j]).id@ != id@,
        decreases ps.len() - i,
    {
        if str_equal(ps[i].id.as_str(), id) {
            return Some(i);
        }
        i = i + 1;
    }
    None
}

impl BridgeConfig {
    /// The first printer with identifier `id`.
    pub fn find_printer(&self, id: &str) -> (r: Option<&PrinterConfig>)
        ensures
            r is None <==> !has_printer(self@.printers, id@),
            r matches Some(p) ==> exists|k: int|
                is_first_printer(self@.printers, id@, k) && *p == #[trigger] self@.printers[k],
    {
        match printer_index(&self.printers, id) {
            Some(k) => Some(&self.printers[k]),
            None => None,
        }
    }

    /// The first printer with identifier `id`, to be changed in place.
    pub fn find_printer_mut(&mut self, id: &str) -> (r: Option<&mut PrinterConfig>)
        ensures
            r is None <==> !has_printer(old(self)@.printers, id@),
            r is None ==> final(self)@ == old(self)@,
            r matches Some(p) ==> exists|k: int|
                is_first_printer(old(self)@.printers, id@, k) && *p == #[trigger] old(
                    self,
                )@.printers[k] && final(self)@.printers == old(self)@.printers.update(k, *final(p))
                    && same_except_printers(final(self)@, old(self)@),
    {
        match printer_index(&self.printers, id) {
            Some(k) => Some(&mut self.printers[k]),
            None => None,
        }
    }

    /// Appends `printer`, giving it a fresh random identifier when its own is
    /// empty.
    pub fn add_printer(&mut self, printer: PrinterConfig)
        ensures
            same_except_printers(final(self)@, old(self)@),
            final(self)@.printers.len() == old(self)@.printers.len() + 1,
            final(self)@.printers.drop_last() == old(self)@.printers,
            printer.id@.len() > 0 ==> final(self)@.printers.last() == printer,
            printer.id@.len() == 0 ==> final(self)@.printers.last() == with_id(
                printer,
                final(self)@.printers.last().id,
            ) && is_v4_uuid_text(final(self)@.printers.last().id@),
    {
        let mut printer = printer;
        if printer.id.as_str().is_empty() {
            printer.id = new_uuid_string();
        }
        self.printers.push(printer);
        proof {
            assert(self@.printers.drop_last() =~= old(self)@.printers);
        }
    }

    /// Removes every printer with identifier `id`; tells whether one was there.
    pub fn remove_printer(&mut self, id: &str) -> (r: bool)
        ensures
            same_except_printers(final(self)@, old(self)@),
            final(self)@.printers == printers_without(old(self)@.printers, id@),
            r == has_printer(old(self)@.printers, id@),
    {
        let len_before = self.printers.len();
        let mut kept: Vec<PrinterConfig> = Vec::new();
        let mut i: usize = 0;
        while i < self.printers.len()
            invariant
                i <= self.printers.len(),
                len_before == self.printers.len(),
                kept@ == printers_without(self.printers@.take(i as int), id@),
                kept.len() <= i,
                kept.len() < i <==> has_printer(self.printers@.take(i as int), id@),
            decreases self.printers.len() - i,
        {
            let ghost pre = self.printers@.take(i as int);
            let ghost next = self.printers@.take(i + 1);
            proof {
                assert(next.drop_last() =~= pre);
                assert(next.last() == self.printers@[i as int]);
            }
            if !str_equal(self.printers[i].id.as_str(), id) {
                kept.push(self.printers[i].clone());
                proof {
                    if has_printer(next, id@) {
                        let k = choose|k: int| 0 <= k < next.len() && (#[trigger] next[k]).id@ == id@;
                        assert(pre[k].id@ == id@);
                    }
                    if has_printer(pre, id@) {
                        let k = choose|k: int| 0 <= k < pre.len() && (#[trigger] pre[k]).id@ == id@;
                        assert(next[k].id@ == id@);
                    }
                }
            } else {
                proof {
                    assert(next[i as int].id@ == id@);
                }
            }
            i = i + 1;
        }
        proof {
            assert(self.printers@.take(len_before as int) =~= self.printers@);
        }
        self.printers = kept;
        self.printers.len() < len_before
    }
}


/// `existing` followed by each origin of `defaults` that it does not already
/// hold, in order.
pub open spec fn merge_origins(existing: Seq<Seq<char>>, defaults: Seq<Seq<char>>) -> Seq<
    Seq<char>,
>
    decreases defaults.len(),
{
    if defaults.len() == 0 {
        existing
    } else {
        let d = defaults[0];
        let next = if existing.contains(d) {
            existing
        } else {
            existing.push(d)
        };
        merge_origins(next, defaults.drop_first())
    }
}

/// `c` after its origins were completed with the default ones.
pub open spec fn merged_config(c: BridgeConfigView) -> BridgeConfigView {
    BridgeConfigView { allowed_origins: merge_origins(c.allowed_origins, default_origins()), ..c }
}

/// Whether `v` holds a string equal to `s`.
pub fn contains_string(v: &Vec<String>, s: &str) -> (r: bool)
    ensures
        r == string_views(v@).contains(s@),
{
    let mut i: usize = 0;
    while i < v.len()
        invariant
            i <= v.len(),
            forall|j: int| 0 <= j < i ==> (#[trigger] v@[j])@ != s@,
        decreases v.len() - i,
    {
        if str_equal(v[i].as_str(), s) {
            proof {
                assert(string_views(v@)[i as int] == s@);
            }
            return true;
        }
        i = i + 1;
    }
    proof {
        if string_views(v@).contains(s@) {
            let k = choose|k: int| 0 <= k < string_views(v@).len() && string_views(v@)[k] == s@;
            assert(v@[k]@ == s@);
        }
    }
    false
}

/// Adds to `cfg` every default origin that it lacks, keeping the origins it has
/// and their order.
pub fn merge_with_defaults(cfg: BridgeConfig) -> (r: BridgeConfig)
    ensures
        r@ == merged_config(cfg@),
{
    let ghost orig = cfg@;
    let mut cfg = cfg;
    let defaults = default_origin_strings();
    let ghost start = string_views(cfg.allowed_origins@);
    let ghost ds = string_views(defaults@);
    let mut j: usize = 0;
    proof {
        assert(ds.skip(0) =~= ds);
    }
    while j < defaults.len()
        invariant
            j <= defaults.len(),
            ds == string_views(defaults@),
            ds == default_origins(),
            merge_origins(start, ds) == merge_origins(
                string_views(cfg.allowed_origins@),
                ds.skip(j as int),
            ),
            cfg@ == (BridgeConfigView { allowed_origins: string_views(cfg.allowed_origins@), ..orig }),
            start == orig.allowed_origins,
        decreases defaults.len() - j,
    {
        let ghost before = string_views(cfg.allowed_origins@);
        proof {
            assert(ds.skip(j as int).drop_first() =~= ds.skip(j + 1));
            assert(ds.skip(j as int)[0] == defaults@[j as int]@);
        }
        if !contains_string(&cfg.allowed_origins, defaults[j].as_str()) {
            cfg.allowed_origins.push(defaults[j].clone());
            proof {
                assert(string_views(cfg.allowed_origins@) =~= before.push(defaults@[j as int]@));
            }
        }
        j = j + 1;
    }
    proof {
        assert(ds.skip(defaults.len() as int) =~= Seq::<Seq<char>>::empty());
    }
    cfg
}

/// `p` with new name, paper width, drawer pin and connection; identifier and
/// online flag kept.
pub open spec fn reconfigured(
    p: PrinterConfig,
    name: String,
    paper_width_mm: u8,
    drawer_pin: u8,
    connection: PrinterConnectionConfig,
) -> PrinterConfig {
    PrinterConfig { name, paper_width_mm, drawer_pin, connection, ..p }
}

impl BridgeConfig {
    /// Creates a printer (`id` is `None`: fresh random identifier, not
    /// online) or reconfigures the first printer with identifier `id`; gives
    /// the printer as stored, or `None` when `id` names no printer.
    pub fn upsert_printer(
        &mut self,
        id: Option<&str>,
        name: String,
        paper_width_mm: u8,
        drawer_pin: u8,
        connection: PrinterConnectionConfig,
    ) -> (r: Option<PrinterConfig>)
        ensures
            same_except_printers(final(self)@, old(self)@),
            id is None ==> (r matches Some(p) && p.name == name && p.paper_width_mm
                == paper_width_mm && p.drawer_pin == drawer_pin && p.connection == connection
                && !p.online && is_v4_uuid_text(p.id@) && final(self)@.printers == old(
                self,
            )@.printers.push(p)),
            id matches Some(x) ==> (r is Some <==> has_printer(old(self)@.printers, x@)),
            id matches Some(x) && !has_printer(old(self)@.printers, x@) ==> final(self)@ == old(
                self,
            )@,
            id is Some && has_printer(old(self)@.printers, id->0@) ==> exists|k: int|
                is_first_printer(old(self)@.printers, id->0@, k) && r == Some(
                    reconfigured(
                        #[trigger] old(self)@.printers[k],
                        name,
                        paper_width_mm,
                        drawer_pin,
                        connection,
                    ),
                ) && final(self)@.printers == old(self)@.printers.update(k, r->0),
    {
        match id {
            None => {
                let p = PrinterConfig {
                    id: new_uuid_string(),
                    name,
                    paper_width_mm,
                    drawer_pin,
                    connection,
                    online: false,
                };
                let stored = p.clone();
                self.add_printer(p);
                proof {
                    assert(self@.printers =~= old(self)@.printers.push(stored));
                }
                Some(stored)
            },
            Some(x) => {
                match printer_index(&self.printers, x) {
                    None => None,
                    Some(k) => {
                        let p = &mut self.printers[k];
                        p.name = name;
                        p.paper_width_mm = paper_width_mm;
                        p.drawer_pin = drawer_pin;
                        p.connection = connection;
                        let stored = self.printers[k].clone();
                        Some(stored)
                    },
                }
            },
        }
    }

    /// Marks the first printer with identifier `id` as online, after a test
    /// print succeeded.
    pub fn mark_online(&mut self, id: &str)
        ensures
            same_except_printers(final(self)@, old(self)@),
            !has_printer(old(self)@.printers, id@) ==> final(self)@ == old(self)@,
            has_printer(old(self)@.printers, id@) ==> exists|k: int|
                is_first_printer(old(self)@.printers, id@, k) && final(self)@.printers == old(
                    self,
                )@.printers.update(k, PrinterConfig { online: true, ..old(self)@.printers[k] }),
    {
        if let Some(k) = printer_index(&self.printers, id) {
            self.printers[k].online = true;
        }
    }
}

/// The location of the configuration file inside `config_dir`.
pub open spec fn is_config_file_in(path: Seq<char>, dir: Seq<char>) -> bool {
    ||| path == dir + "bridge.json"@
    ||| path == dir + seq!['/'] + "bridge.json"@
    ||| path == dir + seq!['\\'] + "bridge.json"@
}

/// Whether `dir` starts with the Windows verbatim prefix `\\?\`, under
/// which `Path::join` rebuilds the whole path from its components.
pub open spec fn is_verbatim(dir: Seq<char>) -> bool {
    "\\\\?\\"@.is_prefix_of(dir)
}

/// Where `path` puts `bridge.json` relative to `dir`, as `Path::join` does:
/// no separator after an empty directory or one that ends in `/`; after
/// `\` none (Windows) or `/` (Unix); after `:` none (a Windows drive such as
/// `C:`), `\` or `/`; after any other character the platform's separator,
/// `/` on Unix and `\` on Windows.
pub open spec fn joins_config_file(path: Seq<char>, dir: Seq<char>) -> bool {
    let name = "bridge.json"@;
    &&& is_config_file_in(path, dir)
    &&& (dir.len() == 0 || dir.last() == '/') ==> path == dir + name
    &&& (dir.len() > 0 && dir.last() == '\\') ==> (path == dir + name || path == dir + seq!['/']
        + name)
    &&& (dir.len() > 0 && dir.last() != '/' && dir.last() != '\\' && dir.last() != ':') ==> (path
        == dir + seq!['/'] + name || path == dir + seq!['\\'] + name)
}

/// Joins `name` to the directory `dir` (`Path::join`, then `to_string_lossy`).
/// `Path::join` inserts the platform's separator (`/` on Unix, `\` on
/// Windows) unless `dir` is empty, already ends in a separator or is a bare
/// Windows drive; which platform the crate is built for is not known to the
/// contract, so both separators are allowed where they differ. Under a
/// Windows verbatim prefix the path is rebuilt from its components, and the
/// contract states nothing of that case.
#[verifier::external_body]
fn join_path(dir: &str, name: &str) -> (r: String)
    requires
        name@ == "bridge.json"@,
    ensures
        !is_verbatim(dir@) ==> joins_config_file(r@, dir@),
{
    std::path::Path::new(dir).join(name).to_string_lossy().into_owned()
}

/// The path of `bridge.json` inside the configuration directory `dir`.
pub fn config_path(dir: &str) -> (r: String)
    ensures
        !is_verbatim(dir@) ==> joins_config_file(r@, dir@),
{
    join_path(dir, "bridge.json")
}

/// The configuration in effect after loading: the stored one completed with
/// the default origins, or a fresh default one when nothing could be read.
pub fn config_from_loaded(stored: Option<BridgeConfig>) -> (r: BridgeConfig)
    ensures
        stored matches Some(c) ==> r@ == merged_config(c@),
        stored is None ==> is_default_config(r@),
{
    match stored {
        Some(c) => merge_with_defaults(c),
        None => BridgeConfig::default(),
    }
}


proof fn lemma_merge_grows(existing: Seq<Seq<char>>, defaults: Seq<Seq<char>>)
    ensures
        existing.is_prefix_of(merge_origins(existing, defaults)),
        forall|i: int|
            0 <= i < defaults.len() ==> merge_origins(existing, defaults).contains(
                #[trigger] defaults[i],
            ),
        forall|o: Seq<char>|
            #[trigger] merge_origins(existing, defaults).contains(o) ==> existing.contains(o)
                || defaults.contains(o),
    decreases defaults.len(),
{
    if defaults.len() > 0 {
        let d = defaults[0];
        let next = if existing.contains(d) {
            existing
        } else {
            existing.push(d)
        };
        let rest = defaults.drop_first();
        lemma_merge_grows(next, rest);
        let m = merge_origins(existing, defaults);
        assert(m == merge_origins(next, rest));
        assert(next.contains(d)) by {
            if !existing.contains(d) {
                assert(next[existing.len() as int] == d);
            }
        }
        assert forall|i: int| 0 <= i < defaults.len() implies m.contains(#[trigger] defaults[i]) by {
            if i == 0 {
                let k = choose|k: int| 0 <= k < next.len() && next[k] == d;
                assert(m[k] == d);
            } else {
                assert(defaults[i] == rest[i - 1]);
            }
        }
        assert forall|o: Seq<char>| #[trigger] m.contains(o) implies existing.contains(o)
            || defaults.contains(o) by {
            if next.contains(o) && !existing.contains(o) {
                assert(o == d);
                assert(defaults[0] == o);
            }
            if rest.contains(o) {
                let k = choose|k: int| 0 <= k < rest.len() && rest[k] == o;
                assert(defaults[k + 1] == o);
            }
        }
    }
}

proof fn lemma_merge_of_present(existing: Seq<Seq<char>>, defaults: Seq<Seq<char>>)
    requires
        forall|i: int| 0 <= i < defaults.len() ==> existing.contains(#[trigger] defaults[i]),
    ensures
        merge_origins(existing, defaults) == existing,
    decreases defaults.len(),
{
    if defaults.len() > 0 {
        let rest = defaults.drop_first();
        assert(existing.contains(defaults[0]));
        assert forall|i: int| 0 <= i < rest.len() implies existing.contains(#[trigger] rest[i]) by {
            assert(rest[i] == defaults[i + 1]);
        }
        lemma_merge_of_present(existing, rest);
    }
}

/// Loading completes the origins: after the merge every default origin is
/// accepted, whatever the stored configuration held.
pub proof fn law_merge_accepts_default_origins(existing: Seq<Seq<char>>)
    ensures
        forall|i: int|
            0 <= i < default_origins().len() ==> merge_origins(existing, default_origins()).contains(
                #[trigger] default_origins()[i],
            ),
{
    lemma_merge_grows(existing, default_origins());
}

/// Loading keeps the origins that the stored configuration lists, first and in
/// their order, and adds nothing but default origins.
pub proof fn law_merge_keeps_stored_origins(existing: Seq<Seq<char>>)
    ensures
        existing.is_prefix_of(merge_origins(existing, default_origins())),
        forall|o: Seq<char>|
            #[trigger] merge_origins(existing, default_origins()).contains(o) ==> existing.contains(
                o,
            ) || default_origins().contains(o),
{
    lemma_merge_grows(existing, default_origins());
}

/// Completing the origins twice gives what completing them once gives, so a
/// configuration saved after loading loads unchanged.
pub proof fn law_merge_is_idempotent(existing: Seq<Seq<char>>)
    ensures
        merge_origins(merge_origins(existing, default_origins()), default_origins())
            == merge_origins(existing, default_origins()),
{
    lemma_merge_grows(existing, default_origins());
    lemma_merge_of_present(merge_origins(existing, default_origins()), default_origins());
}

proof fn lemma_without_members(ps: Seq<PrinterConfig>, id: Seq<char>)
    ensures
        forall|p: PrinterConfig|
            #[trigger] printers_without(ps, id).contains(p) <==> ps.contains(p) && p.id@ != id,
    decreases ps.len(),
{
    if ps.len() > 0 {
        let init = ps.drop_last();
        lemma_without_members(init, id);
        assert forall|p: PrinterConfig|
            #[trigger] printers_without(ps, id).contains(p) <==> ps.contains(p) && p.id@ != id by {
            if ps.contains(p) {
                let k = choose|k: int| 0 <= k < ps.len() && ps[k] == p;
                if k < init.len() {
                    assert(init[k] == p);
                }
            }
            if init.contains(p) {
                let k = choose|k: int| 0 <= k < init.len() && init[k] == p;
                assert(ps[k] == p);
            }
            if ps.last().id@ != id {
                let w = printers_without(init, id);
                if w.push(ps.last()).contains(p) && !w.contains(p) {
                    let k = choose|k: int| 0 <= k < w.len() + 1 && w.push(ps.last())[k] == p;
                    assert(k == w.len());
                }
                if w.contains(p) {
                    let k = choose|k: int| 0 <= k < w.len() && w[k] == p;
                    assert(w.push(ps.last())[k] == p);
                }
                if p == ps.last() {
                    assert(w.push(ps.last())[w.len() as int] == p);
                }
            }
        }
    }
}

/// After a printer is removed no printer with its identifier is left, and
/// every printer with another identifier stays.
pub proof fn law_remove_printer_removes_only_that_id(ps: Seq<PrinterConfig>, id: Seq<char>)
    ensures
        !has_printer(printers_without(ps, id), id),
        forall|p: PrinterConfig|
            #[trigger] ps.contains(p) && p.id@ != id ==> printers_without(ps, id).contains(p),
        forall|p: PrinterConfig| #[trigger]
            printers_without(ps, id).contains(p) ==> ps.contains(p),
{
    lemma_without_members(ps, id);
    let w = printers_without(ps, id);
    if has_printer(w, id) {
        let k = choose|k: int| 0 <= k < w.len() && (#[trigger] w[k]).id@ == id;
        assert(w.contains(w[k]));
    }
}

/// Removing the same identifier a second time changes nothing more.
pub proof fn law_remove_printer_is_idempotent(ps: Seq<PrinterConfig>, id: Seq<char>)
    ensures
        printers_without(printers_without(ps, id), id) == printers_without(ps, id),
{
    law_remove_printer_removes_only_that_id(ps, id);
    lemma_without_of_absent(printers_without(ps, id), id);
}

proof fn lemma_without_of_absent(ps: Seq<PrinterConfig>, id: Seq<char>)
    requires
        !has_printer(ps, id),
    ensures
        printers_without(ps, id) == ps,
    decreases ps.len(),
{
    if ps.len() > 0 {
        let init = ps.drop_last();
        if has_printer(init, id) {
            let k = choose|k: int| 0 <= k < init.len() && (#[trigger] init[k]).id@ == id;
            assert(ps[k].id@ == id);
        }
        lemma_without_of_absent(init, id);
        assert(ps[ps.len() - 1].id@ != id);
        assert(init.push(ps.last()) =~= ps);
    }
}

/// Deleting a printer that was just created, under an identifier that no
/// other printer has, gives back the printers as they were before.
pub proof fn law_delete_undoes_create(before: Seq<PrinterConfig>, p: PrinterConfig)
    requires
        !has_printer(before, p.id@),
    ensures
        printers_without(before.push(p), p.id@) == before,
{
    let after = before.push(p);
    assert(after.drop_last() =~= before);
    lemma_without_of_absent(before, p.id@);
}

/// A printer appended under an identifier that no other printer has is the
/// one that a lookup of that identifier finds.
pub proof fn law_added_printer_is_found(ps: Seq<PrinterConfig>, p: PrinterConfig)
    requires
        !has_printer(ps, p.id@),
    ensures
        has_printer(ps.push(p), p.id@),
        is_first_printer(ps.push(p), p.id@, ps.len() as int),
{
    let q = ps.push(p);
    assert(q[ps.len() as int] == p);
    assert forall|j: int| 0 <= j < ps.len() implies (#[trigger] q[j]).id@ != p.id@ by {
        assert(q[j] == ps[j]);
        if ps[j].id@ == p.id@ {
            assert(has_printer(ps, p.id@));
        }
    }
}

} // verus!
