//! Pairing with the Cegel backend as a state machine: the application
//! performs each action (HTTP request, sleep, save) and hands back what came
//! of it; the machine decides the next action and the state shown to the
//! user. The heartbeat and unpairing decisions live here too.

use vstd::prelude::*;
use vstd::utf8::{encode_utf8, is_char_boundary};
use crate::config::{BridgeConfig, BridgeConfigView, api_base_is_valid, is_v4_uuid_text, new_uuid_string, opt_view};
use crate::text::{push_str, str_equal};
use crate::types::clone_opt_string;

verus! {

/// What the user sees of the pairing: `status` is `"idle"`, `"waiting"`,
/// `"paired"` or `"error"`.
#[derive(Debug)]
pub struct PairingState {
    pub status: String,
    pub pairing_code: Option<String>,
    pub expires_at: Option<String>,
    pub error: Option<String>,
}

impl Clone for PairingState {
    fn clone(&self) -> (r: Self)
        ensures
            r == *self,
    {
        PairingState {
            status: self.status.clone(),
            pairing_code: clone_opt_string(&self.pairing_code),
            expires_at: clone_opt_string(&self.expires_at),
            error: clone_opt_string(&self.error),
        }
    }
}

/// Whether `s` is a state with the given status and nothing else set.
pub open spec fn is_plain_state(s: PairingState, status: Seq<char>) -> bool {
    &&& s.status@ == status
    &&& s.pairing_code is None
    &&& s.expires_at is None
    &&& s.error is None
}

/// Whether `s` reports a failure with message `msg`.
pub open spec fn is_error_state(s: PairingState, msg: Seq<char>) -> bool {
    &&& s.status@ == "error"@
    &&& s.pairing_code is None
    &&& s.expires_at is None
    &&& s.error matches Some(e) && e@ == msg
}

impl Default for PairingState {
    fn default() -> (r: Self)
        ensures
            is_plain_state(r, "idle"@),
    {
        PairingState {
            status: String::from_str("idle"),
            pairing_code: None,
            expires_at: None,
            error: None,
        }
    }
}

/// The state shown before any pairing was started.
pub fn new_state() -> (r: PairingState)
    ensures
        is_plain_state(r, "idle"@),
{
    PairingState::default()
}

fn error_state(msg: &str) -> (r: PairingState)
    ensures
        is_error_state(r, msg@),
{
    PairingState {
        status: String::from_str("error"),
        pairing_code: None,
        expires_at: None,
        error: Some(msg.to_owned()),
    }
}

/// The body of `POST /api/devices/start-pairing`.
#[derive(Debug)]
pub struct StartBody {
    pub device_id: String,
    pub name: String,
    pub os: String,
    pub hostname: String,
    pub bridge_version: String,
}

/// The `data` of a start-pairing reply.
#[derive(Debug)]
pub struct StartData {
    pub pairing_code: String,
    pub expires_at: String,
}

/// A start-pairing reply.
#[derive(Debug)]
pub struct StartReply {
    pub success: bool,
    pub data: Option<StartData>,
    pub message: Option<String>,
}

/// The `data` of a poll reply; `status` is `"pending"`, `"paired"` or
/// `"revoked"`.
#[derive(Debug)]
pub struct PollData {
    pub status: String,
    pub token: Option<String>,
    pub business_id: Option<String>,
}

/// A poll reply.
#[derive(Debug)]
pub struct PollReply {
    pub success: bool,
    pub data: Option<PollData>,
    pub message: Option<String>,
}

/// Seconds between two polls of the pairing state.
pub const POLL_INTERVAL_SECS: u64 = 3;

/// How long, in nanoseconds, polling goes on after the start-pairing reply
/// before the code is given up as expired: ten minutes.
pub const PAIRING_TIMEOUT_NANOS: u64 = 600000000000;

/// What the application reports back after performing an action.
#[derive(Debug)]
pub enum PairingEvent {
    /// The start-pairing request could not be sent.
    StartUnreachable,
    /// The start-pairing reply was not the expected JSON.
    StartUnparseable,
    /// The start-pairing reply.
    StartReplied(StartReply),
    /// The poll interval elapsed; `elapsed_nanos` is the time, in
    /// nanoseconds, since the start-pairing reply arrived.
    Tick { elapsed_nanos: u64 },
    /// The poll reply, or `None` when the request failed or the reply was not
    /// the expected JSON.
    PollReplied(Option<PollReply>),
    /// Whether the paired configuration was saved.
    Saved(bool),
}

/// What the application is to do next.
#[derive(Debug)]
pub enum PairingAction {
    /// Send the start-pairing request.
    PostStart { url: String, body: StartBody },
    /// Wait `secs` seconds (the poll interval), then report a `Tick`.
    Sleep { secs: u64 },
    /// Send the poll request.
    GetPoll { url: String },
    /// Save this configuration, then report `Saved`.
    Save(BridgeConfig),
    /// The pairing is over, with this outcome.
    Finish(Result<(), String>),
}

/// Where the pairing stands.
#[derive(Debug)]
pub enum PairingPhase {
    AwaitStart,
    Polling { poll_url: String },
    AwaitPoll { poll_url: String },
    AwaitSave { poll_url: String },
    Finished,
}

/// The pairing in progress: the configuration it began with and its phase.
#[derive(Debug)]
pub struct PairingFlow {
    pub cfg: BridgeConfig,
    pub phase: PairingPhase,
}

/// The name under which the device registers: `"Equipo "` followed by the
/// first eight bytes of its identifier.
pub open spec fn is_device_name(name: Seq<char>, device_id: Seq<char>) -> bool {
    exists|p: Seq<char>|
        name == "Equipo "@ + p && #[trigger] encode_utf8(p) == encode_utf8(device_id).take(8)
}

/// The name under which the device registers.
pub fn device_name(device_id: &str) -> (r: String)
    requires
        is_char_boundary(encode_utf8(device_id@), 8),
    ensures
        is_device_name(r@, device_id@),
{
    let (head, _) = device_id.split_at(8);
    let mut name = String::from_str("Equipo ");
    push_str(&mut name, head);
    proof {
        assert(encode_utf8(head@) == encode_utf8(device_id@).take(8));
    }
    name
}

/// The URL of an endpoint of the backend.
pub open spec fn api_url(base: Seq<char>, path: Seq<char>) -> Seq<char> {
    base + path
}

/// The poll URL for a device and a pairing code.
pub open spec fn poll_url_of(base: Seq<char>, device_id: Seq<char>, code: Seq<char>) -> Seq<char> {
    base + "/api/devices/poll-pairing/"@ + device_id + "?code="@ + code
}

/// `cfg` once paired: the token and the business of the reply recorded.
pub open spec fn paired_config(
    cfg: BridgeConfigView,
    token: Seq<char>,
    business: Option<Seq<char>>,
) -> BridgeConfigView {
    BridgeConfigView { device_token: Some(token), paired_business_id: business, ..cfg }
}

/// Whether the flow still expects `e`.
pub open spec fn accepts(phase: PairingPhase, e: PairingEvent) -> bool {
    match phase {
        PairingPhase::AwaitStart => e is StartUnreachable || e is StartUnparseable || e is StartReplied,
        PairingPhase::Polling { .. } => e is Tick,
        PairingPhase::AwaitPoll { .. } => e is PollReplied,
        PairingPhase::AwaitSave { .. } => e is Saved,
        PairingPhase::Finished => false,
    }
}

/// Whether the action ends the pairing with a failure reading `msg`.
pub open spec fn fails_with(a: PairingAction, msg: Seq<char>) -> bool {
    a matches PairingAction::Finish(Err(m)) && m@ == msg
}

impl PairingFlow {
    /// Begins pairing with the stored configuration: refused when the backend
    /// URL does not use HTTPS, otherwise the start-pairing request to send.
    pub fn start(cfg: BridgeConfig, os: String, hostname: String, version: String) -> (r: (
        PairingFlow,
        PairingAction,
    ))
        requires
            api_base_is_valid(cfg@.cegel_api_base) ==> is_char_boundary(encode_utf8(cfg.device_id@), 8),
        ensures
            r.0.cfg@ == cfg@,
            r.0.phase is Finished <==> r.1 is Finish,
            !api_base_is_valid(cfg@.cegel_api_base) ==> r.0.phase is Finished && fails_with(
                r.1,
                "backend URL inválida"@,
            ),
            api_base_is_valid(cfg@.cegel_api_base) ==> r.0.phase is AwaitStart && (r.1 matches PairingAction::PostStart { url, body }
                && url@ == api_url(cfg@.cegel_api_base, "/api/devices/start-pairing"@)
                && body.device_id@ == cfg@.device_id && is_device_name(body.name@, cfg@.device_id)
                && body.os == os && body.hostname == hostname && body.bridge_version == version),
    {
        if cfg.validate_api_base().is_err() {
            return (
                PairingFlow { cfg, phase: PairingPhase::Finished },
                PairingAction::Finish(Err(String::from_str("backend URL inválida"))),
            );
        }
        let name = device_name(cfg.device_id.as_str());
        let body = StartBody {
            device_id: cfg.device_id.clone(),
            name,
            os,
            hostname,
            bridge_version: version,
        };
        let mut url = cfg.cegel_api_base.clone();
        push_str(&mut url, "/api/devices/start-pairing");
        (PairingFlow { cfg, phase: PairingPhase::AwaitStart }, PairingAction::PostStart { url, body })
    }
}


/// The result of one step: the state to show, if it changes, and the next
/// action.
#[derive(Debug)]
pub struct PairingStep {
    pub publish: Option<PairingState>,
    pub action: PairingAction,
}

/// The poll URL of a phase that polls.
pub open spec fn phase_poll_url(p: PairingPhase) -> Seq<char> {
    match p {
        PairingPhase::Polling { poll_url } => poll_url@,
        PairingPhase::AwaitPoll { poll_url } => poll_url@,
        PairingPhase::AwaitSave { poll_url } => poll_url@,
        _ => Seq::empty(),
    }
}

/// Whether `r` is "keep polling": nothing shown, wait, then tick again.
pub open spec fn keeps_polling(old_phase: PairingPhase, phase: PairingPhase, r: PairingStep) -> bool {
    &&& r.publish is None
    &&& r.action == (PairingAction::Sleep { secs: POLL_INTERVAL_SECS })
    &&& phase is Polling
    &&& phase_poll_url(phase) == phase_poll_url(old_phase)
}

/// Whether `r` ends the pairing with failure `msg`, showing an error state
/// with message `shown` when it is `Some` and nothing otherwise.
pub open spec fn ends_failing(
    phase: PairingPhase,
    r: PairingStep,
    msg: Seq<char>,
    shown: Option<Seq<char>>,
) -> bool {
    &&& phase is Finished
    &&& fails_with(r.action, msg)
    &&& match shown {
        Some(m) => r.publish matches Some(st) && is_error_state(st, m),
        None => r.publish is None,
    }
}

impl PairingFlow {
    /// Advances the pairing with what came of the last action.
    pub fn step(&mut self, event: PairingEvent) -> (r: PairingStep)
        requires
            accepts(old(self).phase, event),
        ensures
            final(self).cfg@ == old(self).cfg@,
            final(self).phase is Finished <==> r.action is Finish,
            match event {
                PairingEvent::StartUnreachable => ends_failing(
                    final(self).phase,
                    r,
                    "error contactando backend (start-pairing)"@,
                    None,
                ),
                PairingEvent::StartUnparseable => ends_failing(
                    final(self).phase,
                    r,
                    "respuesta de start-pairing no parseable"@,
                    None,
                ),
                PairingEvent::StartReplied(reply) => if !reply.success {
                    ends_failing(
                        final(self).phase,
                        r,
                        match reply.message {
                            Some(m) => m@,
                            None => "start-pairing falló"@,
                        },
                        Some(
                            match reply.message {
                                Some(m) => m@,
                                None => "start-pairing falló"@,
                            },
                        ),
                    )
                } else {
                    match reply.data {
                        None => ends_failing(
                            final(self).phase,
                            r,
                            "payload start-pairing vacío"@,
                            None,
                        ),
                        Some(d) => r.action == (PairingAction::Sleep { secs: POLL_INTERVAL_SECS }) && (r.publish matches Some(st) && st.status@
                            == "waiting"@ && st.pairing_code == Some(d.pairing_code)
                            && st.expires_at == Some(d.expires_at) && st.error is None)
                            && final(self).phase is Polling && phase_poll_url(final(self).phase)
                            == poll_url_of(
                            old(self).cfg@.cegel_api_base,
                            old(self).cfg@.device_id,
                            d.pairing_code@,
                        ),
                    }
                },
                PairingEvent::Tick { elapsed_nanos } => if elapsed_nanos > PAIRING_TIMEOUT_NANOS {
                    ends_failing(
                        final(self).phase,
                        r,
                        "pairing timeout"@,
                        Some("Código expirado sin vincular"@),
                    )
                } else {
                    r.publish is None && (r.action matches PairingAction::GetPoll { url } && url@
                        == phase_poll_url(old(self).phase)) && final(self).phase is AwaitPoll
                        && phase_poll_url(final(self).phase) == phase_poll_url(old(self).phase)
                },
                PairingEvent::PollReplied(reply) => match reply {
                    None => keeps_polling(old(self).phase, final(self).phase, r),
                    Some(rep) => if !rep.success {
                        keeps_polling(old(self).phase, final(self).phase, r)
                    } else {
                        match rep.data {
                            None => keeps_polling(old(self).phase, final(self).phase, r),
                            Some(d) => if d.status@ == "paired"@ {
                                match d.token {
                                    None => ends_failing(
                                        final(self).phase,
                                        r,
                                        "paired sin token"@,
                                        None,
                                    ),
                                    Some(t) => r.publish is None && (r.action matches PairingAction::Save(c)
                                        && c@ == paired_config(
                                        old(self).cfg@,
                                        t@,
                                        opt_view(d.business_id),
                                    )) && final(self).phase is AwaitSave,
                                }
                            } else if d.status@ == "revoked"@ {
                                ends_failing(
                                    final(self).phase,
                                    r,
                                    "revoked"@,
                                    Some("Dispositivo revocado por el negocio"@),
                                )
                            } else {
                                keeps_polling(old(self).phase, final(self).phase, r)
                            },
                        }
                    },
                },
                PairingEvent::Saved(ok) => final(self).phase is Finished && if ok {
                    (r.action matches PairingAction::Finish(Ok(()))) && (r.publish matches Some(st)
                        && is_plain_state(st, "paired"@))
                } else {
                    fails_with(r.action, "no se pudo persistir bridge.json"@) && r.publish is None
                },
            },
    {
        let mut phase = PairingPhase::Finished;
        std::mem::swap(&mut phase, &mut self.phase);
        match event {
            PairingEvent::StartUnreachable => PairingStep {
                publish: None,
                action: PairingAction::Finish(
                    Err(String::from_str("error contactando backend (start-pairing)")),
                ),
            },
            PairingEvent::StartUnparseable => PairingStep {
                publish: None,
                action: PairingAction::Finish(
                    Err(String::from_str("respuesta de start-pairing no parseable")),
                ),
            },
            PairingEvent::StartReplied(reply) => {
                if !reply.success {
                    let msg = match reply.message {
                        Some(m) => m,
                        None => String::from_str("start-pairing falló"),
                    };
                    let st = error_state(msg.as_str());
                    return PairingStep { publish: Some(st), action: PairingAction::Finish(Err(msg)) };
                }
                match reply.data {
                    None => PairingStep {
                        publish: None,
                        action: PairingAction::Finish(
                            Err(String::from_str("payload start-pairing vacío")),
                        ),
                    },
                    Some(d) => {
                        let mut url = self.cfg.cegel_api_base.clone();
                        push_str(&mut url, "/api/devices/poll-pairing/");
                        push_str(&mut url, self.cfg.device_id.as_str());
                        push_str(&mut url, "?code=");
                        push_str(&mut url, d.pairing_code.as_str());
                        self.phase = PairingPhase::Polling { poll_url: url };
                        PairingStep {
                            publish: Some(
                                PairingState {
                                    status: String::from_str("waiting"),
                                    pairing_code: Some(d.pairing_code),
                                    expires_at: Some(d.expires_at),
                                    error: None,
                                },
                            ),
                            action: PairingAction::Sleep { secs: POLL_INTERVAL_SECS },
                        }
                    },
                }
            },
            PairingEvent::Tick { elapsed_nanos } => {
                let poll_url = match phase {
                    PairingPhase::Polling { poll_url } => poll_url,
                    _ => String::new(),
                };
                if elapsed_nanos > PAIRING_TIMEOUT_NANOS {
                    return PairingStep {
                        publish: Some(error_state("Código expirado sin vincular")),
                        action: PairingAction::Finish(Err(String::from_str("pairing timeout"))),
                    };
                }
                let url = poll_url.clone();
                self.phase = PairingPhase::AwaitPoll { poll_url };
                PairingStep { publish: None, action: PairingAction::GetPoll { url } }
            },
            PairingEvent::PollReplied(reply) => {
                let poll_url = match phase {
                    PairingPhase::AwaitPoll { poll_url } => poll_url,
                    _ => String::new(),
                };
                let keep = PairingStep {
                    publish: None,
                    action: PairingAction::Sleep { secs: POLL_INTERVAL_SECS },
                };
                let rep = match reply {
                    None => {
                        self.phase = PairingPhase::Polling { poll_url };
                        return keep;
                    },
                    Some(rep) => rep,
                };
                if !rep.success {
                    self.phase = PairingPhase::Polling { poll_url };
                    return keep;
                }
                let d = match rep.data {
                    None => {
                        self.phase = PairingPhase::Polling { poll_url };
                        return keep;
                    },
                    Some(d) => d,
                };
                if str_equal(d.status.as_str(), "paired") {
                    match d.token {
                        None => PairingStep {
                            publish: None,
                            action: PairingAction::Finish(Err(String::from_str("paired sin token"))),
                        },
                        Some(t) => {
                            let mut new_cfg = self.cfg.clone();
                            new_cfg.device_token = Some(t);
                            new_cfg.paired_business_id = d.business_id;
                            self.phase = PairingPhase::AwaitSave { poll_url };
                            PairingStep { publish: None, action: PairingAction::Save(new_cfg) }
                        },
                    }
                } else if str_equal(d.status.as_str(), "revoked") {
                    PairingStep {
                        publish: Some(error_state("Dispositivo revocado por el negocio")),
                        action: PairingAction::Finish(Err(String::from_str("revoked"))),
                    }
                } else {
                    self.phase = PairingPhase::Polling { poll_url };
                    keep
                }
            },
            PairingEvent::Saved(ok) => {
                if ok {
                    PairingStep {
                        publish: Some(
                            PairingState {
                                status: String::from_str("paired"),
                                pairing_code: None,
                                expires_at: None,
                                error: None,
                            },
                        ),
                        action: PairingAction::Finish(Ok(())),
                    }
                } else {
                    PairingStep {
                        publish: None,
                        action: PairingAction::Finish(
                            Err(String::from_str("no se pudo persistir bridge.json")),
                        ),
                    }
                }
            },
        }
    }
}


impl PairingFlow {
    /// Whether the flow still expects `e`.
    pub fn accepts_event(&self, e: &PairingEvent) -> (r: bool)
        ensures
            r == accepts(self.phase, *e),
    {
        match self.phase {
            PairingPhase::AwaitStart => match e {
                PairingEvent::StartUnreachable => true,
                PairingEvent::StartUnparseable => true,
                PairingEvent::StartReplied(_) => true,
                _ => false,
            },
            PairingPhase::Polling { .. } => match e {
                PairingEvent::Tick { .. } => true,
                _ => false,
            },
            PairingPhase::AwaitPoll { .. } => match e {
                PairingEvent::PollReplied(_) => true,
                _ => false,
            },
            PairingPhase::AwaitSave { .. } => match e {
                PairingEvent::Saved(_) => true,
                _ => false,
            },
            PairingPhase::Finished => false,
        }
    }
}

/// A finished pairing takes no further event, whatever it is.
pub proof fn law_finished_pairing_takes_no_event(e: PairingEvent)
    ensures
        !accepts(PairingPhase::Finished, e),
{
}

/// An authenticated request to the backend: where to send it and the Bearer
/// token to present.
#[derive(Debug)]
pub struct BackendRequest {
    pub url: String,
    pub token: String,
}

/// The heartbeat a configuration calls for: none when the device holds no
/// token or the backend URL does not use HTTPS, otherwise a POST to
/// `/api/devices/heartbeat` with the device token.
pub open spec fn heartbeat_target(cfg: BridgeConfigView) -> Option<(Seq<char>, Seq<char>)> {
    match cfg.device_token {
        None => None,
        Some(t) => if api_base_is_valid(cfg.cegel_api_base) {
            Some((api_url(cfg.cegel_api_base, "/api/devices/heartbeat"@), t))
        } else {
            None
        },
    }
}

/// Whether `r` is the request that `target` describes.
pub open spec fn request_is(r: Option<BackendRequest>, target: Option<(Seq<char>, Seq<char>)>) -> bool {
    match target {
        None => r is None,
        Some((url, token)) => r matches Some(q) && q.url@ == url && q.token@ == token,
    }
}

/// The heartbeat to send for the configuration as loaded now.
pub fn heartbeat_request(cfg: &BridgeConfig) -> (r: Option<BackendRequest>)
    ensures
        request_is(r, heartbeat_target(cfg@)),
{
    let token = match &cfg.device_token {
        None => {
            return None;
        },
        Some(t) => t,
    };
    if cfg.validate_api_base().is_err() {
        return None;
    }
    let mut url = cfg.cegel_api_base.clone();
    push_str(&mut url, "/api/devices/heartbeat");
    Some(BackendRequest { url, token: token.clone() })
}

/// The revocation to try before unpairing: a POST to `/api/devices/unpair`
/// with the device token, when the device holds one.
pub open spec fn unpair_target(cfg: BridgeConfigView) -> Option<(Seq<char>, Seq<char>)> {
    match cfg.device_token {
        None => None,
        Some(t) => Some((api_url(cfg.cegel_api_base, "/api/devices/unpair"@), t)),
    }
}

/// The revocation request to try before unpairing.
pub fn unpair_request(cfg: &BridgeConfig) -> (r: Option<BackendRequest>)
    ensures
        request_is(r, unpair_target(cfg@)),
{
    match &cfg.device_token {
        None => None,
        Some(t) => {
            let mut url = cfg.cegel_api_base.clone();
            push_str(&mut url, "/api/devices/unpair");
            Some(BackendRequest { url, token: t.clone() })
        },
    }
}

/// Whether `after` is `before` unpaired: no token, no business, no printers
/// and a fresh device identifier; port, origins and backend kept.
pub open spec fn is_unpaired_from(after: BridgeConfigView, before: BridgeConfigView) -> bool {
    &&& after.device_token is None
    &&& after.paired_business_id is None
    &&& after.printers.len() == 0
    &&& is_v4_uuid_text(after.device_id)
    &&& after.port == before.port
    &&& after.allowed_origins == before.allowed_origins
    &&& after.cegel_api_base == before.cegel_api_base
}

/// Forgets the pairing: the local state that unpairing leaves.
pub fn unpaired(cfg: BridgeConfig) -> (r: BridgeConfig)
    ensures
        is_unpaired_from(r@, cfg@),
{
    let mut cfg = cfg;
    cfg.device_token = None;
    cfg.paired_business_id = None;
    cfg.printers = Vec::new();
    cfg.device_id = new_uuid_string();
    cfg
}

/// An unpaired bridge sends no heartbeat and has nothing to revoke.
pub proof fn law_unpaired_bridge_stays_silent(after: BridgeConfigView, before: BridgeConfigView)
    requires
        is_unpaired_from(after, before),
    ensures
        heartbeat_target(after) is None,
        unpair_target(after) is None,
{
}

/// A heartbeat is sent exactly when the device holds a token and the backend
/// URL uses HTTPS, and it always carries that token.
pub proof fn law_heartbeat_needs_token_and_https(cfg: BridgeConfigView)
    ensures
        heartbeat_target(cfg) is Some <==> cfg.device_token is Some && api_base_is_valid(
            cfg.cegel_api_base,
        ),
        heartbeat_target(cfg) matches Some((u, t)) ==> Some(t) == cfg.device_token,
{
}

} // verus!
