use wavefront::frame::encode_audio_frame;
use wavefront::message::{Content, Message};
use wavefront::quantity::Quantity;
use wavefront::server::{Event, Reply, Session};
use wavefront::state::{AppState, ClientConfig, ClientKind, ClientMsg, Pan, Role, DEFAULT_GAIN};

fn q(x: f64) -> Quantity {
    Quantity::new(x.to_bits())
}

fn texts(replies: &Vec<Reply>) -> Vec<String> {
    replies
        .iter()
        .map(|reply| match reply {
            Reply::Text(Message::Plain(record)) => record
                .fields
                .iter()
                .map(|field| match &field.value {
                    Content::Text(text) => format!("{}={}", field.key, text),
                    Content::Count(count) => format!("{}={}", field.key, count),
                    Content::Flag(flag) => format!("{}={}", field.key, flag),
                    Content::Number(n) => format!("{}={:?}", field.key, f64::from_bits(n.bits) as f32),
                })
                .collect::<Vec<String>>()
                .join(" "),
            Reply::Text(Message::Roster(_)) => panic!("a roster"),
            Reply::Frame(bytes) => format!("{} bytes", bytes.len()),
        })
        .collect()
}

fn hello(name: &str) -> Event {
    Event::Hello { name: name.to_string(), kind: "native".to_string() }
}

fn live(app: &mut AppState) -> Session {
    let mut session = Session::Waiting;
    session.step(app, hello("A"));
    session
}

#[test]
fn hello_registers_and_welcomes() {
    let mut app = AppState::default();
    let mut session = Session::Waiting;
    let replies = session.step(&mut app, hello("Desk"));
    assert_eq!(
        texts(&replies),
        vec![
            "type=welcome id=1 sample_rate=48000 buffer_ms=250",
            "type=config role=full pan=mid gain=0.8 crossover_hz=220.0 buffer_ms=250",
        ]
    );
    assert_eq!(session, Session::Live { id: 1 });
    let client = app.clients.get(1).unwrap();
    assert_eq!((client.name.as_str(), client.kind), ("Desk", ClientKind::Native));
    assert_eq!(client.config, ClientConfig::default());
    assert_eq!(client.latency_ms, q(0.0));
    assert_eq!(app.next_client_id, 2);
}

#[test]
fn kinds_other_than_native_are_browsers() {
    let mut app = AppState::default();
    let mut session = Session::Waiting;
    session.step(&mut app, Event::Hello { name: "x".to_string(), kind: "phone".to_string() });
    assert_eq!(app.clients.get(1).unwrap().kind, ClientKind::Browser);
}

#[test]
fn nothing_happens_before_the_hello() {
    let mut app = AppState::default();
    let mut session = Session::Waiting;
    for event in [
        Event::Ping { t0: q(1.0), t1: q(2.0), rtt_half: q(0.5) },
        Event::Noise,
        Event::Close,
        Event::Audio { play_at: q(1.0), pcm: vec![1] },
        Event::SendFailed,
    ] {
        assert!(session.step(&mut app, event).is_empty());
        assert_eq!(session, Session::Waiting);
    }
    assert!(session.step(&mut app, Event::Gone).is_empty());
    assert_eq!(session, Session::Ended);
    assert_eq!(app.clients.len(), 0);
}

#[test]
fn pings_are_answered_and_timed() {
    let mut app = AppState::default();
    let mut session = live(&mut app);
    let replies =
        session.step(&mut app, Event::Ping { t0: q(10.0), t1: q(16.0), rtt_half: q(3.0) });
    assert_eq!(texts(&replies), vec!["type=pong t0=10.0 t1=16.0"]);
    assert_eq!(app.clients.get(1).unwrap().latency_ms, q(3.0));
}

#[test]
fn settings_name_the_buffer_in_force() {
    let mut app = AppState::default();
    let mut session = live(&mut app);
    app.set_buffer(900);
    app.set_crossover(q(90.0));
    let config = ClientConfig { role: Role::Sub, pan: Pan::Left, gain: q(0.25) };
    let replies = session.step(&mut app, Event::Control(ClientMsg::Config(config)));
    assert_eq!(
        texts(&replies),
        vec!["type=config role=sub pan=left gain=0.25 crossover_hz=90.0 buffer_ms=900"]
    );
}

#[test]
fn audio_is_the_same_for_every_client() {
    let mut app = AppState::default();
    let mut one = live(&mut app);
    let mut other = live(&mut app);
    let expected = encode_audio_frame(q(55.0), &[1, -2, 3, -4]);
    for session in [&mut one, &mut other] {
        let replies =
            session.step(&mut app, Event::Audio { play_at: q(55.0), pcm: vec![1, -2, 3, -4] });
        assert_eq!(replies.len(), 1);
        match &replies[0] {
            Reply::Frame(bytes) => assert_eq!(*bytes, expected),
            Reply::Text(_) => panic!("no frame"),
        }
    }
}

#[test]
fn every_end_takes_the_client_off_the_register() {
    for event in [
        Event::Close,
        Event::Gone,
        Event::ControlClosed,
        Event::SendFailed,
        Event::Control(ClientMsg::Disconnect),
    ] {
        let mut app = AppState::default();
        let mut first = live(&mut app);
        live(&mut app);
        assert!(first.step(&mut app, event).is_empty());
        assert_eq!(first, Session::Ended);
        assert!(app.clients.get(1).is_none());
        assert!(app.clients.get(2).is_some());
        assert!(first.step(&mut app, hello("again")).is_empty());
        assert_eq!(app.clients.len(), 1);
        assert_eq!(app.next_client_id, 3);
    }
}

#[test]
fn lags_and_noise_leave_a_session_alone() {
    let mut app = AppState::default();
    let mut session = live(&mut app);
    for event in [Event::AudioLagged, Event::AudioClosed, Event::Noise, hello("again")] {
        assert!(session.step(&mut app, event).is_empty());
        assert_eq!(session, Session::Live { id: 1 });
    }
    assert_eq!(app.clients.len(), 1);
}

#[test]
fn numbers_are_not_given_out_twice() {
    let mut app = AppState::default();
    let first = app.register("a".to_string(), "native");
    app.deregister(first);
    let second = app.register("b".to_string(), "native");
    assert_eq!((first, second), (1, 2));
    app.time_client(first, q(9.0));
    assert_eq!(app.clients.get(second).unwrap().latency_ms, q(0.0));
    assert_eq!(app.clients.get(second).unwrap().config.gain, Quantity::new(DEFAULT_GAIN));
}
