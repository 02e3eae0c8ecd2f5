use wavefront::frame::encode_audio_frame;
use wavefront::message::{Content, Message};
use wavefront::quantity::Quantity;
use wavefront::relay_uplink::{RelayToMaster, RosterChild, UplinkEvent, UplinkStep, RECONNECT_MS};
use wavefront::state::{AppState, ClientConfig, ClientKind, Pan, Role, DEFAULT_GAIN};

fn q(x: f64) -> Quantity {
    Quantity::new(x.to_bits())
}

fn arrival(id: u32, name: &str, kind: &str) -> RelayToMaster {
    RelayToMaster::ChildJoined { id, name: name.to_string(), kind: kind.to_string() }
}

fn row(id: u32, name: &str) -> RosterChild {
    RosterChild {
        id,
        name: name.to_string(),
        kind: "browser".to_string(),
        latency_ms: q(12.0),
        role: None,
        pan: None,
        gain: None,
    }
}

fn names(app: &AppState) -> Vec<(u32, String)> {
    (0..app.relay_children.len())
        .map(|i| (app.relay_children.at(i).id, app.relay_children.at(i).name.clone()))
        .collect()
}

#[test]
fn relay_is_greeted_with_the_settings() {
    let mut app = AppState::default();
    app.set_buffer(700);
    let Message::Plain(record) = app.uplink_hello() else {
        panic!("a roster");
    };
    assert_eq!(record.fields.len(), 3);
    assert!(matches!(&record.fields[0].value, Content::Text(t) if t == "source_hello"));
    assert!(matches!(&record.fields[1].value, Content::Count(700)));
    assert!(matches!(&record.fields[2].value, Content::Number(n) if *n == q(220.0)));
}

#[test]
fn children_come_and_go() {
    let mut app = AppState::default();
    app.handle_relay(arrival(5, "A", "native"));
    app.handle_relay(arrival(2, "B", "phone"));
    assert_eq!(names(&app), vec![(2, "B".to_string()), (5, "A".to_string())]);
    let child = app.relay_children.get(5).unwrap();
    assert_eq!((child.kind, child.config), (ClientKind::Native, ClientConfig::default()));
    assert_eq!(app.relay_children.get(2).unwrap().kind, ClientKind::Browser);
    app.handle_relay(RelayToMaster::ChildLatency { id: 5, latency_ms: q(31.0) });
    app.handle_relay(RelayToMaster::ChildLatency { id: 77, latency_ms: q(31.0) });
    assert_eq!(app.relay_children.get(5).unwrap().latency_ms, q(31.0));
    assert_eq!(app.relay_children.len(), 2);
    app.handle_relay(RelayToMaster::ChildLeft { id: 5 });
    app.handle_relay(RelayToMaster::ChildLeft { id: 5 });
    assert_eq!(names(&app), vec![(2, "B".to_string())]);
}

#[test]
fn roster_replaces_the_register() {
    let mut app = AppState::default();
    app.handle_relay(arrival(9, "old", "native"));
    let mut full = row(3, "C");
    full.role = Some("sub".to_string());
    full.pan = Some("right".to_string());
    full.gain = Some(q(0.125));
    full.kind = "native".to_string();
    let children = vec![row(4, "first"), full, row(4, "second")];
    app.handle_relay(RelayToMaster::Roster { children });
    assert_eq!(names(&app), vec![(3, "C".to_string()), (4, "second".to_string())]);
    let c = app.relay_children.get(3).unwrap();
    assert_eq!(c.config, ClientConfig { role: Role::Sub, pan: Pan::Right, gain: q(0.125) });
    assert_eq!((c.kind, c.latency_ms), (ClientKind::Native, q(12.0)));
    let d = app.relay_children.get(4).unwrap();
    assert_eq!(
        d.config,
        ClientConfig { role: Role::Full, pan: Pan::Mid, gain: Quantity::new(DEFAULT_GAIN) }
    );
    app.handle_relay(RelayToMaster::Roster { children: Vec::new() });
    assert_eq!(app.relay_children.len(), 0);
}

#[test]
fn lost_uplink_empties_the_register() {
    let mut app = AppState::default();
    app.open_uplink();
    app.handle_relay(arrival(1, "A", "native"));
    assert!(app.uplink_open);
    app.lose_uplink();
    assert!(!app.uplink_open);
    assert_eq!(app.relay_children.len(), 0);
}

#[test]
fn uplink_forwards_audio_and_orders() {
    let mut app = AppState::default();
    app.open_uplink();
    match app.uplink_step(UplinkEvent::Audio { play_at: q(8.0), pcm: vec![5, 6] }) {
        UplinkStep::Frame(bytes) => assert_eq!(bytes, encode_audio_frame(q(8.0), &[5, 6])),
        _ => panic!("no frame"),
    }
    match app.uplink_step(UplinkEvent::Control("{}".to_string())) {
        UplinkStep::Text(text) => assert_eq!(text, "{}"),
        _ => panic!("no text"),
    }
    assert!(app.uplink_open);
}

#[test]
fn uplink_passes_over_what_does_not_matter() {
    let mut app = AppState::default();
    app.open_uplink();
    for event in [
        UplinkEvent::AudioLagged,
        UplinkEvent::ControlClosed,
        UplinkEvent::Noise,
        UplinkEvent::Idle,
        UplinkEvent::Relay(arrival(1, "A", "native")),
    ] {
        assert!(matches!(app.uplink_step(event), UplinkStep::Pass));
        assert!(app.uplink_open);
    }
    assert_eq!(app.relay_children.len(), 1);
}

#[test]
fn uplink_ends_with_its_connection() {
    for event in [
        UplinkEvent::AudioClosed,
        UplinkEvent::Close,
        UplinkEvent::Gone,
        UplinkEvent::SendFailed,
    ] {
        let mut app = AppState::default();
        app.open_uplink();
        app.handle_relay(arrival(1, "A", "native"));
        assert!(matches!(app.uplink_step(event), UplinkStep::Stop));
        assert!(!app.uplink_open);
        assert_eq!(app.relay_children.len(), 1);
    }
}

#[test]
fn lost_uplinks_are_retried_soon() {
    assert_eq!(RECONNECT_MS, 600);
}
