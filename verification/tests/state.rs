use wavefront::quantity::Quantity;
use wavefront::registry::Registry;
use wavefront::relay_uplink::RelayToMaster;
use wavefront::state::{
    kind_from_str, pan_from_str, pan_str, role_from_str, role_str, AppState, ClientConfig,
    ClientEntry, ClientKind, ClientStatus, ClientView, Mode, Pan, RelayChild, Role,
};

fn q(x: f64) -> Quantity {
    Quantity::new(x.to_bits())
}

fn entry(id: u32, name: &str) -> ClientEntry {
    ClientEntry {
        id,
        name: name.to_string(),
        kind: ClientKind::Native,
        latency_ms: q(0.0),
        config: ClientConfig::default(),
    }
}

#[test]
fn application_starts_idle() {
    let app = AppState::default();
    assert_eq!(app.mode, Mode::Idle);
    assert_eq!((app.next_client_id, app.buffer_ms, app.master_plays), (1, 250, true));
    assert_eq!((app.crossover_hz, app.master_volume), (q(220.0), q(1.0)));
    assert!(!app.uplink_open);
    let view = app.to_view(Some("10.0.0.1"));
    assert_eq!(view.addr, None);
    assert!(view.clients.is_empty() && view.warnings.is_empty() && view.client.is_none());
    assert!(view.wifi_ok);
}

#[test]
fn words_are_read_back() {
    for role in [Role::Sub, Role::Tweeter, Role::Full] {
        assert_eq!(role_from_str(Some(role_str(role))), role);
    }
    for pan in [Pan::Left, Pan::Mid, Pan::Right] {
        assert_eq!(pan_from_str(Some(pan_str(pan))), pan);
    }
    assert_eq!((role_str(Role::Tweeter), pan_str(Pan::Mid)), ("tweeter", "mid"));
}

#[test]
fn strange_words_have_a_meaning() {
    assert_eq!((role_from_str(None), role_from_str(Some("Sub"))), (Role::Full, Role::Full));
    assert_eq!((pan_from_str(None), pan_from_str(Some("centre"))), (Pan::Mid, Pan::Mid));
    assert_eq!(kind_from_str("native"), ClientKind::Native);
    assert_eq!(kind_from_str("Native"), ClientKind::Browser);
    assert_eq!((Role::default(), Pan::default()), (Role::Full, Pan::Mid));
}

#[test]
fn view_lists_speakers_by_their_numbers() {
    let mut app = AppState::default();
    app.clients.insert(entry(5, "five"));
    app.clients.insert(entry(2, "two"));
    for id in [7, 1, 5] {
        app.handle_relay(RelayToMaster::ChildJoined {
            id,
            name: format!("child {id}"),
            kind: "browser".to_string(),
        });
    }
    let view = app.to_view(None);
    let names: Vec<String> = view.clients.iter().map(|c| c.name.clone()).collect();
    assert_eq!(names, vec!["child 1", "two", "five", "child 5", "child 7"]);
    let ids: Vec<u32> = view.clients.iter().map(|c| c.id).collect();
    assert_eq!(ids, vec![1, 2, 5, 5, 7]);
}

#[test]
fn join_address_depends_on_the_mode() {
    let mut app = AppState::default();
    app.start_master("Mic".to_string(), Vec::new());
    assert_eq!(app.to_view(Some("10.0.0.1")).addr.as_deref(), Some("http://10.0.0.1:8927"));
    assert_eq!(app.to_view(None).addr, None);
    app.start_client("host".to_string());
    assert_eq!(app.to_view(Some("10.0.0.1")).addr, None);
}

#[test]
fn network_is_weak_above_sixty_milliseconds() {
    for (latency, ok) in [(0.0, true), (-5.0, true), (59.9, true), (60.0, true), (60.1, false)] {
        let mut app = AppState::default();
        app.clients.insert(entry(1, "a"));
        app.clients.insert(entry(2, "b"));
        app.time_client(2, q(latency));
        assert_eq!(app.to_view(None).wifi_ok, ok, "{latency}");
    }
}

#[test]
fn view_copies_the_settings() {
    let mut app = AppState::default();
    app.start_master("Mic".to_string(), vec!["quiet".to_string(), "far".to_string()]);
    app.set_buffer(300);
    app.report_connected("host");
    let view = app.to_view(None);
    assert_eq!((view.mode, view.buffer_ms), (Mode::Master, 300));
    assert_eq!(view.capture_source, "Mic");
    assert_eq!(view.warnings, vec!["quiet", "far"]);
    assert_eq!((view.crossover_hz, view.master_volume), (q(220.0), q(1.0)));
    assert!(view.master_plays);
    let status = view.client.unwrap();
    assert_eq!((status.connected, status.master_addr.as_str()), (true, "host"));
}

#[test]
fn status_starts_empty() {
    let status = ClientStatus::default();
    assert_eq!((status.connected, status.master_addr.as_str()), (false, ""));
    assert_eq!((status.role, status.pan), (Role::Full, Pan::Mid));
    assert_eq!((status.gain, status.crossover_hz, status.latency_ms), (q(0.0), q(0.0), q(0.0)));
}

#[test]
fn clients_and_children_are_shown_alike() {
    let client = entry(3, "x");
    let child = RelayChild {
        id: 3,
        name: "x".to_string(),
        kind: ClientKind::Native,
        latency_ms: q(0.0),
        config: ClientConfig::default(),
    };
    let (a, b) = (ClientView::from(&client), ClientView::from(&child));
    assert_eq!((a.id, a.name, a.kind, a.config), (b.id, b.name, b.kind, b.config));
}

#[test]
fn registry_files_in_order() {
    let mut registry: Registry<ClientEntry> = Registry::new();
    for id in [4, 1, 9, 4] {
        registry.insert(entry(id, &format!("e{id}")));
    }
    registry.insert(entry(9, "again"));
    let ids: Vec<u32> = (0..registry.len()).map(|i| registry.at(i).id).collect();
    assert_eq!(ids, vec![1, 4, 9]);
    assert_eq!(registry.get(9).unwrap().name, "again");
    assert_eq!(registry.position(4), Some(1));
    assert_eq!(registry.position(5), None);
    registry.get_mut(1).unwrap().latency_ms = q(3.0);
    assert_eq!(registry.at(0).latency_ms, q(3.0));
    registry.remove(4);
    registry.remove(4);
    assert!(registry.get(4).is_none());
    assert_eq!(registry.len(), 2);
    registry.clear();
    assert_eq!(registry.len(), 0);
}
