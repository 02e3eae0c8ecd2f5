use wavefront::control::{Action, Playback, Runtime, TaskAction};
use wavefront::message::Message;
use wavefront::quantity::Quantity;
use wavefront::relay_uplink::RelayToMaster;
use wavefront::state::{AppState, ClientConfig, ClientMsg, Mode, Pan, Role};

fn q(x: f64) -> Quantity {
    Quantity::new(x.to_bits())
}

fn hosting() -> AppState {
    let mut app = AppState::default();
    app.start_master("Mic".to_string(), Vec::new());
    app.register("A".to_string(), "native");
    app.register("B".to_string(), "browser");
    app
}

fn relaying() -> AppState {
    let mut app = AppState::default();
    app.start_relay_host("relay.local", "Mic".to_string(), vec!["quiet".to_string()]);
    app.handle_relay(RelayToMaster::ChildJoined {
        id: 4,
        name: "C".to_string(),
        kind: "native".to_string(),
    });
    app.open_uplink();
    app
}

fn uplink_kind(action: &Action) -> String {
    match action {
        Action::Uplink(Message::Plain(record)) => match &record.fields[0].value {
            wavefront::message::Content::Text(kind) => kind.clone(),
            _ => panic!("no type"),
        },
        _ => panic!("not for the relay"),
    }
}

#[test]
fn hosting_begins_and_ends() {
    let mut app = AppState::default();
    assert!(app.can_start_master());
    app.start_client("host".to_string());
    assert!(app.start_master("Mic".to_string(), vec!["quiet".to_string()]));
    assert!(!app.can_start_master());
    assert!(app.can_start_relay_host());
    assert_eq!(app.mode, Mode::Master);
    assert_eq!((app.capture_source.as_str(), app.warnings.len()), ("Mic", 1));
    assert_eq!(app.client_addr, None);
    app.register("A".to_string(), "native");
    app.stop_master();
    assert_eq!(app.mode, Mode::Idle);
    assert_eq!((app.clients.len(), app.warnings.len()), (0, 0));
    assert_eq!(app.capture_source, "");
}

#[test]
fn relay_hosting_shares_the_relay() {
    let mut app = hosting();
    app.set_master_plays(false);
    assert!(!app.start_relay_host("relay.local/", "Mic".to_string(), Vec::new()));
    assert!(!app.can_start_relay_host());
    assert_eq!(app.mode, Mode::RelayHost);
    assert_eq!(app.relay_url.as_deref(), Some("http://relay.local:8927"));
    assert_eq!(app.clients.len(), 0);
    assert_eq!(app.to_view(Some("10.0.0.1")).addr.as_deref(), Some("http://relay.local:8927"));
    app.stop_master();
    assert_eq!(app.relay_url, None);
}

#[test]
fn assignment_reaches_a_client() {
    let mut app = hosting();
    let actions = app.set_client_config(2, Role::Sub, Pan::Left, q(0.5));
    let config = ClientConfig { role: Role::Sub, pan: Pan::Left, gain: q(0.5) };
    assert_eq!(actions.len(), 1);
    match &actions[0] {
        Action::Client(id, message) => assert_eq!((*id, *message), (2, ClientMsg::Config(config))),
        Action::Uplink(_) => panic!("no relay here"),
    }
    assert_eq!(app.clients.get(2).unwrap().config, config);
    assert_eq!(app.clients.get(1).unwrap().config, ClientConfig::default());
    assert!(app.set_client_config(9, Role::Sub, Pan::Left, q(0.5)).is_empty());
}

#[test]
fn assignment_goes_to_the_relay() {
    let mut app = relaying();
    let actions = app.set_client_config(4, Role::Tweeter, Pan::Right, q(1.0));
    assert_eq!(actions.len(), 1);
    assert_eq!(uplink_kind(&actions[0]), "set_config");
    let config = ClientConfig { role: Role::Tweeter, pan: Pan::Right, gain: q(1.0) };
    assert_eq!(app.relay_children.get(4).unwrap().config, config);
    assert_eq!(app.set_client_config(99, Role::Sub, Pan::Mid, q(1.0)).len(), 1);
    app.lose_uplink();
    assert!(app.set_client_config(4, Role::Sub, Pan::Mid, q(1.0)).is_empty());
}

#[test]
fn crossover_and_buffer_reach_every_client() {
    let mut app = hosting();
    app.set_client_config(1, Role::Sub, Pan::Left, q(0.5));
    for actions in [app.set_crossover(q(80.0)), app.set_buffer(500)] {
        let told: Vec<(u32, Role)> = actions
            .iter()
            .map(|action| match action {
                Action::Client(id, ClientMsg::Config(config)) => (*id, config.role),
                _ => panic!("not for a client"),
            })
            .collect();
        assert_eq!(told, vec![(1, Role::Sub), (2, Role::Full)]);
    }
    assert_eq!((app.crossover_hz, app.buffer_ms), (q(80.0), 500));
}

#[test]
fn crossover_and_buffer_go_to_the_relay() {
    let mut app = relaying();
    assert_eq!(uplink_kind(&app.set_crossover(q(80.0))[0]), "set_crossover");
    let actions = app.set_buffer(500);
    assert_eq!(uplink_kind(&actions[0]), "set_buffer");
    match &actions[0] {
        Action::Uplink(message) => {
            assert_eq!(message.text().unwrap(), "{\"ms\":500,\"type\":\"set_buffer\"}")
        }
        Action::Client(_, _) => panic!("not for the relay"),
    }
}

#[test]
fn buffer_is_granted_within_bounds() {
    let mut app = AppState::default();
    for (wish, granted) in
        [(0, 100), (99, 100), (100, 100), (5000, 5000), (10_000, 10_000), (u32::MAX, 10_000)]
    {
        app.set_buffer(wish);
        assert_eq!(app.buffer_ms, granted);
    }
}

#[test]
fn volume_is_clamped() {
    let mut app = AppState::default();
    for (wish, set) in [(-0.5, 0.0), (0.0, 0.0), (0.25, 0.25), (1.0, 1.0), (7.0, 1.0)] {
        app.set_master_volume(q(wish));
        assert_eq!(app.master_volume, q(set));
    }
}

#[test]
fn playback_follows_the_switch_while_hosting() {
    let mut app = AppState::default();
    assert_eq!(app.set_master_plays(false), Playback::Leave);
    assert!(!app.master_plays);
    let mut app = hosting();
    assert_eq!(app.set_master_plays(true), Playback::Start);
    assert_eq!(app.set_master_plays(false), Playback::Stop);
    let mut app = relaying();
    assert_eq!(app.set_master_plays(true), Playback::Start);
    app.start_client("host".to_string());
    assert_eq!(app.set_master_plays(true), Playback::Leave);
}

#[test]
fn client_mode_begins_and_ends() {
    let mut app = AppState::default();
    app.start_client("10.0.0.9".to_string());
    app.report_connected("10.0.0.9");
    assert_eq!((app.mode, app.client_addr.as_deref()), (Mode::Client, Some("10.0.0.9")));
    app.stop_client();
    assert_eq!((app.mode, app.client_addr.is_none()), (Mode::Idle, true));
    assert!(app.client_status.is_none());
}

#[test]
fn own_playback_has_a_target() {
    assert_eq!(AppState::default().playback_target(), "127.0.0.1");
    assert_eq!(hosting().playback_target(), "127.0.0.1");
    let mut app = relaying();
    assert_eq!(app.playback_target(), "relay.local:8927");
    app.relay_url = None;
    assert_eq!(app.playback_target(), "127.0.0.1");
}

#[test]
fn tasks_are_stopped_once() {
    let mut runtime = Runtime::new();
    assert!(runtime.stop_hosting().is_empty());
    runtime.server_started();
    runtime.uplink_started();
    runtime.client_started();
    assert!(runtime.start_local_playback());
    assert!(!runtime.start_local_playback());
    assert_eq!(
        runtime.stop_hosting(),
        vec![
            TaskAction::AbortServer,
            TaskAction::AbortUplink,
            TaskAction::SignalUplink,
            TaskAction::SignalPlayback,
        ]
    );
    assert!(runtime.stop_hosting().is_empty());
    assert!(!runtime.stop_local_playback());
    assert_eq!(runtime.stop_client(), vec![TaskAction::AbortClient, TaskAction::SignalClient]);
    assert!(runtime.stop_client().is_empty());
}
