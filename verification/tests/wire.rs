use wavefront::client::{hello_text, read_text, Heard};
use wavefront::control::Action;
use wavefront::message::{
    child_joined_record, child_left_record, hello_record, ping_record, pong_record,
    set_buffer_record, set_config_record, set_crossover_record, source_hello_record,
    welcome_record, Content, Message, Record,
};
use wavefront::quantity::Quantity;
use wavefront::relay::{read_hello, read_order, read_report, Order, Post, Relay, Report};
use wavefront::server::config_to_json;
use wavefront::state::{AppState, ClientConfig, Pan, Role, DEFAULT_CROSSOVER, DEFAULT_GAIN};

fn q(x: f64) -> Quantity {
    Quantity::new(x.to_bits())
}

/// Writes a record down, numbers included, as the application does.
fn written(record: &Record) -> String {
    let mut object = serde_json::Map::new();
    for field in &record.fields {
        let value = match &field.value {
            Content::Text(text) => serde_json::Value::from(text.as_str()),
            Content::Count(count) => serde_json::Value::from(*count),
            Content::Flag(flag) => serde_json::Value::from(*flag),
            Content::Number(number) => serde_json::Value::from(f64::from_bits(number.bits)),
        };
        object.insert(field.key.clone(), value);
    }
    serde_json::Value::Object(object).to_string()
}

fn plain(message: &Message) -> &Record {
    match message {
        Message::Plain(record) => record,
        Message::Roster(_) => panic!("a roster"),
    }
}

#[test]
fn records_without_numbers_are_written_down() {
    assert_eq!(
        welcome_record(7, 250).text().unwrap(),
        "{\"buffer_ms\":250,\"id\":7,\"sample_rate\":48000,\"type\":\"welcome\"}"
    );
    assert_eq!(child_left_record(3).text().unwrap(), "{\"id\":3,\"type\":\"child_left\"}");
    assert_eq!(
        child_joined_record(u32::MAX, "a \"b\"\n", "browser").text().unwrap(),
        "{\"id\":4294967295,\"kind\":\"browser\",\"name\":\"a \\\"b\\\"\\n\",\"type\":\"child_joined\"}"
    );
    assert_eq!(set_buffer_record(900).text().unwrap(), "{\"ms\":900,\"type\":\"set_buffer\"}");
}

#[test]
fn flags_and_repeated_fields_are_written_down() {
    let mut record = Record::empty();
    record.put_flag("suspect", true);
    record.put_count("n", 1);
    record.put_count("n", 2);
    assert_eq!(record.text().unwrap(), "{\"n\":2,\"suspect\":true}");
    assert_eq!(Record::empty().text().unwrap(), "{}");
}

#[test]
fn records_with_numbers_are_left_to_the_caller() {
    assert!(ping_record(q(1.0)).text().is_none());
    assert!(Message::Plain(pong_record(q(1.0), q(2.0))).text().is_none());
    assert!(Message::Roster(Vec::new()).text().is_none());
    assert!(Message::Plain(child_left_record(3)).text().is_some());
}

#[test]
fn native_hello_is_read_by_a_relay() {
    let text = hello_text("K\u{fc}che \"1\"");
    assert_eq!(
        read_hello(&text),
        Some(("K\u{fc}che \"1\"".to_string(), "native".to_string()))
    );
    assert_eq!(text, hello_record("K\u{fc}che \"1\"").text().unwrap());
}

#[test]
fn hello_has_defaults() {
    assert_eq!(
        read_hello("{\"type\":\"hello\"}"),
        Some(("Speaker".to_string(), "browser".to_string()))
    );
    assert_eq!(
        read_hello("{\"type\":\"hello\",\"name\":5,\"kind\":\"x\"}"),
        Some(("Speaker".to_string(), "x".to_string()))
    );
    assert_eq!(read_hello("{\"type\":\"ping\"}"), None);
    assert_eq!(read_hello("{\"name\":\"a\"}"), None);
    assert_eq!(read_hello("[\"hello\"]"), None);
    assert_eq!(read_hello("hello"), None);
}

#[test]
fn pings_are_read_with_what_they_report() {
    let Report::Ping { t0, rtt, jitter } =
        read_report("{\"type\":\"ping\",\"t0\":12.5,\"rtt\":40,\"jitter\":-1.5e1}")
    else {
        panic!("no ping");
    };
    assert_eq!((t0, rtt, jitter), (q(12.5), Some(q(40.0)), Some(q(-15.0))));
    let Report::Ping { t0, rtt, jitter } = read_report("{\"type\":\"ping\",\"rtt\":\"40\"}") else {
        panic!("no ping");
    };
    assert_eq!((t0, rtt, jitter), (q(0.0), None, None));
    assert!(matches!(read_report("{\"type\":\"pong\"}"), Report::Ignored));
    assert!(matches!(read_report("{\"t0\":1}"), Report::Ignored));
    assert!(matches!(read_report("{"), Report::Ignored));
}

#[test]
fn ping_is_understood_by_a_relay() {
    let Report::Ping { t0, rtt, jitter } = read_report(&written(&ping_record(q(1.25)))) else {
        panic!("no ping");
    };
    assert_eq!((t0, rtt, jitter), (q(1.25), None, None));
}

#[test]
fn pong_is_understood_by_a_speaker() {
    assert_eq!(
        read_text(&written(&pong_record(q(1.5), q(2.5)))),
        Heard::Pong { t0: q(1.5), t1: q(2.5) }
    );
    assert_eq!(read_text("{\"type\":\"pong\"}"), Heard::Pong { t0: q(0.0), t1: q(0.0) });
}

#[test]
fn config_is_understood_by_a_speaker() {
    let config = ClientConfig { role: Role::Tweeter, pan: Pan::Right, gain: q(0.5) };
    let message = config_to_json(&config, q(300.0), 250);
    assert_eq!(
        written(plain(&message)),
        "{\"buffer_ms\":250,\"crossover_hz\":300.0,\"gain\":0.5,\"pan\":\"right\",\"role\":\"tweeter\",\"type\":\"config\"}"
    );
    assert_eq!(
        read_text(&written(plain(&message))),
        Heard::Config { config, crossover_hz: q(300.0), suspect: false }
    );
}

#[test]
fn config_has_defaults() {
    assert_eq!(
        read_text("{\"type\":\"config\",\"role\":\"woofer\",\"pan\":1,\"suspect\":1}"),
        Heard::Config {
            config: ClientConfig {
                role: Role::Full,
                pan: Pan::Mid,
                gain: Quantity::new(DEFAULT_GAIN),
            },
            crossover_hz: Quantity::new(DEFAULT_CROSSOVER),
            suspect: false,
        }
    );
}

#[test]
fn suspects_are_told_in_their_config() {
    let heard = read_text("{\"type\":\"config\",\"role\":\"sub\",\"pan\":\"left\",\"suspect\":true}");
    let Heard::Config { config, suspect, .. } = heard else {
        panic!("no config");
    };
    assert_eq!((config.role, config.pan, suspect), (Role::Sub, Pan::Left, true));
}

#[test]
fn other_texts_are_ignored_by_a_speaker() {
    for text in ["", "{}", "17", "{\"type\":\"welcome\",\"id\":1}", "{\"type\":7}", "[1,2"] {
        assert_eq!(read_text(text), Heard::Ignored);
    }
}

#[test]
fn source_hello_is_understood_by_a_relay() {
    let Order::Hello { buffer_ms, crossover_hz } =
        read_order(&written(&source_hello_record(400, q(180.0))))
    else {
        panic!("no hello");
    };
    assert_eq!((buffer_ms, crossover_hz), (Some(400), Some(q(180.0))));
}

#[test]
fn source_hello_takes_whole_numbers_only() {
    let Order::Hello { buffer_ms, crossover_hz } =
        read_order("{\"type\":\"source_hello\",\"buffer_ms\":-4,\"crossover_hz\":\"x\"}")
    else {
        panic!("no hello");
    };
    assert_eq!((buffer_ms, crossover_hz), (None, None));
    let Order::Hello { buffer_ms, .. } =
        read_order("{\"type\":\"source_hello\",\"buffer_ms\":4.0}")
    else {
        panic!("no hello");
    };
    assert_eq!(buffer_ms, None);
}

#[test]
fn assignment_is_understood_by_a_relay() {
    let text = written(&set_config_record(9, "sub", "left", q(0.25)));
    let Order::SetConfig { id, role, pan, gain } = read_order(&text) else {
        panic!("no assignment");
    };
    assert_eq!(id, 9);
    assert_eq!((role.as_deref(), pan.as_deref(), gain), (Some("sub"), Some("left"), Some(q(0.25))));
}

#[test]
fn assignment_without_a_number_is_for_nobody() {
    let Order::SetConfig { id, role, pan, gain } = read_order("{\"type\":\"set_config\"}") else {
        panic!("no assignment");
    };
    assert_eq!((id, role, pan, gain), (0, None, None, None));
    let Order::SetConfig { id, .. } = read_order("{\"type\":\"set_config\",\"id\":4294967299}") else {
        panic!("no assignment");
    };
    assert_eq!(id, 3);
}

#[test]
fn crossover_is_understood_by_a_relay() {
    let Order::SetCrossover { hz } = read_order(&written(&set_crossover_record(q(99.5)))) else {
        panic!("no crossover");
    };
    assert_eq!(hz, Some(q(99.5)));
}

#[test]
fn other_texts_are_ignored_by_a_relay() {
    for text in ["", "null", "{\"type\":\"set_buffer\",\"ms\":5}", "{\"id\":1}", "{\"type\":}"] {
        assert!(matches!(read_order(text), Order::Ignored));
    }
}

#[test]
fn defaults_are_the_binary32_numbers() {
    assert_eq!(f64::from_bits(DEFAULT_GAIN), 0.8f32 as f64);
    assert_eq!(f64::from_bits(DEFAULT_CROSSOVER), 220.0);
}

#[test]
fn relay_works_with_the_settings_of_its_master() {
    let mut relay = Relay::new();
    relay.carry_out(read_order(&written(&source_hello_record(640, q(150.0)))));
    assert_eq!((relay.buffer_ms, relay.crossover_hz), (640, q(150.0)));
    let (_, posts) = relay.join("A".to_string(), "native".to_string());
    let Post::Child(1, welcome) = &posts[0] else {
        panic!("no welcome");
    };
    assert_eq!(
        welcome.text().unwrap(),
        "{\"buffer_ms\":640,\"id\":1,\"sample_rate\":48000,\"type\":\"welcome\"}"
    );
}

#[test]
fn assignment_reaches_the_speaker() {
    let mut app = AppState::default();
    app.start_relay_host("relay", "Mic".to_string(), Vec::new());
    app.open_uplink();
    let mut relay = Relay::new();
    relay.join("A".to_string(), "native".to_string());

    let actions = app.set_client_config(1, Role::Sub, Pan::Right, q(0.375));
    let Action::Uplink(order) = &actions[0] else {
        panic!("not for the relay");
    };
    let posts = relay.carry_out(read_order(&written(plain(order))));
    let Post::Child(1, config) = &posts[0] else {
        panic!("not for the speaker");
    };
    assert_eq!(
        read_text(&written(plain(config))),
        Heard::Config {
            config: ClientConfig { role: Role::Sub, pan: Pan::Right, gain: q(0.375) },
            crossover_hz: q(220.0),
            suspect: false,
        }
    );
}

#[test]
fn no_key_is_special_to_the_reader() {
    for key in ["$serde_json::private::RawValue", "$serde_json::private::Number"] {
        let mut record = Record::new("hello");
        record.put_text(key, "x");
        record.put_text("name", "A");
        let text = record.text().unwrap();
        assert_eq!(read_hello(&text), Some(("A".to_string(), "browser".to_string())));
    }
}
