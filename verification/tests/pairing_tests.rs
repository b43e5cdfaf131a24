use cegel_print_bridge::config::BridgeConfig;
use cegel_print_bridge::pairing::{
    device_name, heartbeat_request, new_state, unpair_request, unpaired, PairingAction,
    PairingEvent, PairingFlow, PairingPhase, PollData, PollReply, StartData, StartReply,
};

fn config() -> BridgeConfig {
    let mut cfg = BridgeConfig::default();
    cfg.device_id = "0123456789abcdef".to_string();
    cfg.cegel_api_base = "https://api.example.com".to_string();
    cfg
}

fn started() -> PairingFlow {
    let (mut flow, action) = PairingFlow::start(
        config(),
        "linux".to_string(),
        "host-1".to_string(),
        "0.2.6".to_string(),
    );
    assert!(matches!(action, PairingAction::PostStart { .. }));
    let step = flow.step(PairingEvent::StartReplied(StartReply {
        success: true,
        data: Some(StartData { pairing_code: "ABC123".to_string(), expires_at: "soon".to_string() }),
        message: None,
    }));
    assert!(matches!(step.action, PairingAction::Sleep { secs: 3 }));
    flow
}

fn poll(flow: &mut PairingFlow, reply: Option<PollReply>) -> PairingAction {
    let tick = flow.step(PairingEvent::Tick { elapsed_nanos: 3_000_000_000 });
    assert!(matches!(tick.action, PairingAction::GetPoll { .. }));
    flow.step(PairingEvent::PollReplied(reply)).action
}

fn poll_reply(status: &str, token: Option<&str>) -> Option<PollReply> {
    Some(PollReply {
        success: true,
        data: Some(PollData {
            status: status.to_string(),
            token: token.map(|t| t.to_string()),
            business_id: Some("biz-9".to_string()),
        }),
        message: None,
    })
}

#[test]
fn initial_state_is_idle() {
    let s = new_state();
    assert_eq!(s.status, "idle");
    assert!(s.pairing_code.is_none() && s.expires_at.is_none() && s.error.is_none());
}

#[test]
fn device_name_uses_first_eight_bytes() {
    assert_eq!(device_name("0123456789abcdef"), "Equipo 01234567");
}

#[test]
fn start_sends_registration() {
    let (flow, action) =
        PairingFlow::start(config(), "linux".to_string(), "host-1".to_string(), "0.2.6".to_string());
    assert!(matches!(flow.phase, PairingPhase::AwaitStart));
    match action {
        PairingAction::PostStart { url, body } => {
            assert_eq!(url, "https://api.example.com/api/devices/start-pairing");
            assert_eq!(body.device_id, "0123456789abcdef");
            assert_eq!(body.name, "Equipo 01234567");
            assert_eq!(body.os, "linux");
            assert_eq!(body.hostname, "host-1");
            assert_eq!(body.bridge_version, "0.2.6");
        }
        other => panic!("unexpected {:?}", other),
    }
}

#[test]
fn start_refuses_plain_http_backend() {
    let mut cfg = config();
    cfg.cegel_api_base = "http://api.example.com".to_string();
    let (flow, action) = PairingFlow::start(cfg, "linux".to_string(), "h".to_string(), "v".to_string());
    assert!(matches!(flow.phase, PairingPhase::Finished));
    match action {
        PairingAction::Finish(Err(m)) => assert_eq!(m, "backend URL inválida"),
        other => panic!("unexpected {:?}", other),
    }
}

#[test]
fn start_reply_publishes_code_and_polls() {
    let (mut flow, _) =
        PairingFlow::start(config(), "linux".to_string(), "h".to_string(), "v".to_string());
    let step = flow.step(PairingEvent::StartReplied(StartReply {
        success: true,
        data: Some(StartData { pairing_code: "ABC123".to_string(), expires_at: "2030".to_string() }),
        message: None,
    }));
    let st = step.publish.unwrap();
    assert_eq!(st.status, "waiting");
    assert_eq!(st.pairing_code.as_deref(), Some("ABC123"));
    assert_eq!(st.expires_at.as_deref(), Some("2030"));
    let tick = flow.step(PairingEvent::Tick { elapsed_nanos: 3_000_000_000 });
    match tick.action {
        PairingAction::GetPoll { url } => assert_eq!(
            url,
            "https://api.example.com/api/devices/poll-pairing/0123456789abcdef?code=ABC123"
        ),
        other => panic!("unexpected {:?}", other),
    }
}

#[test]
fn start_failures() {
    let (mut flow, _) = PairingFlow::start(config(), "l".to_string(), "h".to_string(), "v".to_string());
    let step = flow.step(PairingEvent::StartReplied(StartReply { success: false, data: None, message: None }));
    let st = step.publish.unwrap();
    assert_eq!(st.status, "error");
    assert_eq!(st.error.as_deref(), Some("start-pairing falló"));
    assert!(matches!(step.action, PairingAction::Finish(Err(ref m)) if m == "start-pairing falló"));
    assert!(!flow.accepts_event(&PairingEvent::Saved(true)));

    let (mut flow, _) = PairingFlow::start(config(), "l".to_string(), "h".to_string(), "v".to_string());
    let step = flow.step(PairingEvent::StartUnreachable);
    assert!(step.publish.is_none());
    assert!(matches!(step.action, PairingAction::Finish(Err(ref m)) if m == "error contactando backend (start-pairing)"));

    let (mut flow, _) = PairingFlow::start(config(), "l".to_string(), "h".to_string(), "v".to_string());
    let step = flow.step(PairingEvent::StartReplied(StartReply { success: true, data: None, message: None }));
    assert!(matches!(step.action, PairingAction::Finish(Err(ref m)) if m == "payload start-pairing vacío"));
}

#[test]
fn pending_and_failed_polls_keep_polling() {
    let mut flow = started();
    assert!(matches!(poll(&mut flow, None), PairingAction::Sleep { secs: 3 }));
    assert!(matches!(poll(&mut flow, poll_reply("pending", None)), PairingAction::Sleep { secs: 3 }));
    assert!(matches!(flow.phase, PairingPhase::Polling { .. }));
}

#[test]
fn paired_poll_saves_token_and_business() {
    let mut flow = started();
    match poll(&mut flow, poll_reply("paired", Some("tok-1"))) {
        PairingAction::Save(cfg) => {
            assert_eq!(cfg.device_token.as_deref(), Some("tok-1"));
            assert_eq!(cfg.paired_business_id.as_deref(), Some("biz-9"));
            assert_eq!(cfg.device_id, "0123456789abcdef");
        }
        other => panic!("unexpected {:?}", other),
    }
    let step = flow.step(PairingEvent::Saved(true));
    assert_eq!(step.publish.unwrap().status, "paired");
    assert!(matches!(step.action, PairingAction::Finish(Ok(()))));
    assert!(matches!(flow.phase, PairingPhase::Finished));
}

#[test]
fn failed_save_ends_pairing() {
    let mut flow = started();
    poll(&mut flow, poll_reply("paired", Some("tok-1")));
    let step = flow.step(PairingEvent::Saved(false));
    assert!(matches!(step.action, PairingAction::Finish(Err(ref m)) if m == "no se pudo persistir bridge.json"));
}

#[test]
fn paired_without_token_and_revoked() {
    let mut flow = started();
    assert!(matches!(poll(&mut flow, poll_reply("paired", None)), PairingAction::Finish(Err(ref m)) if m == "paired sin token"));

    let mut flow = started();
    flow.step(PairingEvent::Tick { elapsed_nanos: 3_000_000_000 });
    let step = flow.step(PairingEvent::PollReplied(poll_reply("revoked", None)));
    let st = step.publish.unwrap();
    assert_eq!(st.error.as_deref(), Some("Dispositivo revocado por el negocio"));
    assert!(matches!(step.action, PairingAction::Finish(Err(ref m)) if m == "revoked"));
}

#[test]
fn polling_times_out() {
    let mut flow = started();
    let step = flow.step(PairingEvent::Tick { elapsed_nanos: 600_000_000_001 });
    assert_eq!(step.publish.unwrap().error.as_deref(), Some("Código expirado sin vincular"));
    assert!(matches!(step.action, PairingAction::Finish(Err(ref m)) if m == "pairing timeout"));
    assert!(!flow.accepts_event(&PairingEvent::Tick { elapsed_nanos: 3_000_000_000 }));
}

#[test]
fn heartbeat_needs_token_and_https() {
    let mut cfg = config();
    assert!(heartbeat_request(&cfg).is_none());
    cfg.device_token = Some("tok".to_string());
    let hb = heartbeat_request(&cfg).unwrap();
    assert_eq!(hb.url, "https://api.example.com/api/devices/heartbeat");
    assert_eq!(hb.token, "tok");
    cfg.cegel_api_base = "http://api.example.com".to_string();
    assert!(heartbeat_request(&cfg).is_none());
}

#[test]
fn unpair_forgets_pairing() {
    let mut cfg = config();
    cfg.device_token = Some("tok".to_string());
    cfg.paired_business_id = Some("biz".to_string());
    let req = unpair_request(&cfg).unwrap();
    assert_eq!(req.url, "https://api.example.com/api/devices/unpair");
    assert_eq!(req.token, "tok");
    let after = unpaired(cfg);
    assert!(after.device_token.is_none());
    assert!(after.paired_business_id.is_none());
    assert!(after.printers.is_empty());
    assert_ne!(after.device_id, "0123456789abcdef");
    assert_eq!(after.device_id.len(), 36);
    assert!(unpair_request(&after).is_none());
    assert!(heartbeat_request(&after).is_none());
}

#[test]
fn polling_lasts_ten_minutes_three_seconds_apart() {
    let mut flow = started();
    let step = flow.step(PairingEvent::Tick { elapsed_nanos: 600_000_000_000 });
    assert!(matches!(step.action, PairingAction::GetPoll { .. }));
    let step = flow.step(PairingEvent::PollReplied(poll_reply("pending", None)));
    assert!(matches!(step.action, PairingAction::Sleep { secs: 3 }));
    let step = flow.step(PairingEvent::Tick { elapsed_nanos: 600_000_000_001 });
    assert!(matches!(step.action, PairingAction::Finish(Err(ref m)) if m == "pairing timeout"));
}
