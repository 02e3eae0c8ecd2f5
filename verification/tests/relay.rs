use wavefront::frame::{encode_audio_frame, encode_payload};
use wavefront::history::History;
use wavefront::message::{Content, Message, Record};
use wavefront::quantity::Quantity;
use wavefront::relay::{greet, Order, Post, Relay, SourceStep};
use wavefront::socket::Incoming;
use wavefront::state::{DEFAULT_CROSSOVER, DEFAULT_GAIN};

fn q(x: f64) -> Quantity {
    Quantity::new(x.to_bits())
}

fn shown(record: &Record) -> String {
    let mut out = String::new();
    for field in &record.fields {
        let value = match &field.value {
            Content::Text(text) => text.clone(),
            Content::Count(count) => format!("{count}"),
            Content::Flag(flag) => format!("{flag}"),
            Content::Number(number) => format!("{:?}", f64::from_bits(number.bits) as f32),
        };
        out.push_str(&format!("{}={} ", field.key, value));
    }
    out.trim_end().to_string()
}

fn said(message: &Message) -> String {
    match message {
        Message::Plain(record) => shown(record),
        Message::Roster(rows) => {
            let rows: Vec<String> = rows.iter().map(shown).collect();
            format!("roster [{}]", rows.join("; "))
        }
    }
}

fn posts(list: &Vec<Post>) -> Vec<String> {
    list.iter()
        .map(|post| match post {
            Post::Child(id, message) => format!("{id}: {}", said(message)),
            Post::Audio(id, bytes) => format!("{id}: {bytes:?}"),
            Post::Master(message) => format!("master: {}", said(message)),
        })
        .collect()
}

fn joined(relay: &mut Relay, name: &str) -> u32 {
    relay.join(name.to_string(), "browser".to_string()).0
}

fn ping(relay: &mut Relay, id: u32, rtt: f64, jitter: f64) -> Vec<String> {
    let text = format!("{{\"type\":\"ping\",\"t0\":1.5,\"rtt\":{rtt},\"jitter\":{jitter}}}");
    let (list, gone) = relay.child_step(id, &Incoming::Text(text), q(9.0));
    assert!(!gone);
    posts(&list)
}

fn suspects(relay: &Relay) -> Vec<u32> {
    (0..relay.children.len())
        .map(|i| relay.children.at(i))
        .filter(|child| child.suspect)
        .map(|child| child.id)
        .collect()
}

#[test]
fn new_relay_has_the_defaults() {
    let relay = Relay::new();
    assert_eq!((relay.next_id, relay.source_gen, relay.active_source), (1, 0, None));
    assert_eq!(relay.buffer_ms, 1000);
    assert_eq!(relay.crossover_hz, Quantity::new(DEFAULT_CROSSOVER));
    assert_eq!(relay.master_offset, None);
    assert_eq!(relay.children.len(), 0);
}

#[test]
fn children_are_welcomed_and_given_settings() {
    let mut relay = Relay::new();
    let (id, list) = relay.join("Desk".to_string(), "native".to_string());
    assert_eq!(id, 1);
    assert_eq!(
        posts(&list),
        vec![
            "1: type=welcome id=1 sample_rate=48000 buffer_ms=1000",
            "1: type=config role=full pan=left gain=0.8 crossover_hz=220.0 buffer_ms=1000 suspect=false",
        ]
    );
    let child = relay.children.get(1).unwrap();
    assert_eq!((child.name.as_str(), child.kind.as_str()), ("Desk", "native"));
    assert_eq!(child.gain, Quantity::new(DEFAULT_GAIN));
}

#[test]
fn neighbours_alternate_between_the_channels() {
    let mut relay = Relay::new();
    for _ in 0..4 {
        joined(&mut relay, "x");
    }
    let pans: Vec<String> = (0..4).map(|i| relay.children.at(i).pan.clone()).collect();
    assert_eq!(pans, vec!["left", "right", "left", "right"]);
}

#[test]
fn master_is_told_of_arrivals_and_departures() {
    let mut relay = Relay::new();
    let (gen, list) = relay.source_connect();
    assert_eq!(gen, 1);
    assert_eq!(posts(&list), vec!["master: roster []"]);
    let (id, list) = relay.join("A".to_string(), "native".to_string());
    assert_eq!(posts(&list)[0], "master: type=child_joined id=1 name=A kind=native");
    assert_eq!(posts(&relay.leave(id)), vec!["master: type=child_left id=1"]);
    assert_eq!(relay.children.len(), 0);
    assert_eq!(relay.next_id, 2);
    relay.source_gone(gen);
    let second = joined(&mut relay, "B");
    assert!(relay.leave(second).is_empty());
}

#[test]
fn numbers_start_over_after_the_last() {
    let mut relay = Relay::new();
    relay.next_id = u32::MAX;
    assert_eq!(joined(&mut relay, "last"), u32::MAX);
    assert_eq!(joined(&mut relay, "first"), 0);
    assert_eq!(relay.children.at(0).name, "first");
    assert_eq!(relay.children.at(0).pan, "right");
}

#[test]
fn only_a_hello_admits_a_child() {
    let hello = "{\"type\":\"hello\",\"name\":\"A\",\"kind\":\"native\"}".to_string();
    assert_eq!(greet(&Incoming::Text(hello)), Some(("A".to_string(), "native".to_string())));
    assert!(greet(&Incoming::Text("{\"type\":\"ping\"}".to_string())).is_none());
    assert!(greet(&Incoming::Binary(vec![1])).is_none());
    assert!(greet(&Incoming::Other).is_none());
    assert!(greet(&Incoming::Close).is_none());
    assert!(greet(&Incoming::Gone).is_none());
}

#[test]
fn ping_is_answered_and_recorded() {
    let mut relay = Relay::new();
    let id = joined(&mut relay, "A");
    assert_eq!(ping(&mut relay, id, 42.0, 3.0), vec!["1: type=pong t0=1.5 t1=9.0"]);
    let child = relay.children.get(id).unwrap();
    assert_eq!((child.latency_ms, child.jitter_ms), (q(42.0), q(3.0)));
}

#[test]
fn jitter_counts_only_along_with_a_round_trip_time() {
    let mut relay = Relay::new();
    let id = joined(&mut relay, "A");
    let text = "{\"type\":\"ping\",\"t0\":1,\"jitter\":9}".to_string();
    relay.child_step(id, &Incoming::Text(text), q(0.0));
    assert_eq!(relay.children.get(id).unwrap().jitter_ms, q(0.0));
    relay.report(id, Some(q(5.0)), None);
    assert_eq!(relay.children.get(id).unwrap().latency_ms, q(5.0));
    assert_eq!(relay.children.get(id).unwrap().jitter_ms, q(0.0));
    relay.report(99, Some(q(5.0)), Some(q(5.0)));
    assert_eq!(relay.children.len(), 1);
}

#[test]
fn noise_from_a_child_is_ignored() {
    let mut relay = Relay::new();
    let id = joined(&mut relay, "A");
    for incoming in [
        Incoming::Text("nonsense".to_string()),
        Incoming::Text("{\"type\":\"hello\"}".to_string()),
        Incoming::Binary(vec![1, 2]),
        Incoming::Other,
    ] {
        let (list, gone) = relay.child_step(id, &incoming, q(0.0));
        assert!(list.is_empty() && !gone);
    }
    assert_eq!(relay.children.len(), 1);
}

#[test]
fn children_that_close_or_vanish_are_removed() {
    let mut relay = Relay::new();
    relay.source_connect();
    let a = joined(&mut relay, "A");
    let b = joined(&mut relay, "B");
    let (list, gone) = relay.child_step(a, &Incoming::Gone, q(0.0));
    assert!(gone);
    assert_eq!(posts(&list), vec!["master: type=child_left id=1"]);
    assert!(relay.children.get(a).is_none());
    assert!(relay.children.get(b).is_some());
    assert!(relay.child_step(b, &Incoming::Close, q(0.0)).1);
    assert_eq!(relay.children.len(), 0);
}

#[test]
fn newest_source_is_the_only_one() {
    let mut relay = Relay::new();
    let (first, _) = relay.source_connect();
    let (second, _) = relay.source_connect();
    assert_eq!((first, second), (1, 2));
    let audio = Incoming::Binary(encode_audio_frame(q(1.0), &[1, 2]));
    assert!(matches!(relay.source_step(first, &audio), SourceStep::Stop));
    assert!(matches!(relay.source_step(second, &audio), SourceStep::Audio { .. }));
    relay.source_gone(first);
    assert_eq!(relay.active_source, Some(second));
    relay.source_gone(second);
    assert_eq!(relay.active_source, None);
    assert!(matches!(relay.source_step(second, &audio), SourceStep::Stop));
}

#[test]
fn audio_of_the_source_is_unpacked() {
    let mut relay = Relay::new();
    let (gen, _) = relay.source_connect();
    let bin = encode_audio_frame(q(77.0), &[258]);
    match relay.source_step(gen, &Incoming::Binary(bin)) {
        SourceStep::Audio { master_ts, payload } => {
            assert_eq!(master_ts, q(77.0));
            assert_eq!(payload, vec![2, 1]);
        }
        _ => panic!("no audio"),
    }
    let empty = Incoming::Binary(encode_audio_frame(q(77.0), &[]));
    assert!(matches!(relay.source_step(gen, &empty), SourceStep::Pass));
    assert!(matches!(relay.source_step(gen, &Incoming::Binary(vec![2; 30])), SourceStep::Pass));
    assert!(matches!(relay.source_step(gen, &Incoming::Other), SourceStep::Pass));
    assert!(matches!(relay.source_step(gen, &Incoming::Close), SourceStep::Stop));
    assert!(matches!(relay.source_step(gen, &Incoming::Gone), SourceStep::Stop));
}

#[test]
fn reconnecting_source_gets_the_roster() {
    let mut relay = Relay::new();
    joined(&mut relay, "A");
    joined(&mut relay, "B");
    let (_, list) = relay.source_connect();
    assert_eq!(
        posts(&list),
        vec![
            "master: roster [id=1 name=A kind=browser latency_ms=0.0 jitter_ms=0.0 suspect=false role=full pan=left gain=0.8; id=2 name=B kind=browser latency_ms=0.0 jitter_ms=0.0 suspect=false role=full pan=right gain=0.8]"
        ]
    );
}

#[test]
fn master_settings_are_taken_over() {
    let mut relay = Relay::new();
    let order = Order::Hello { buffer_ms: Some(400), crossover_hz: Some(q(150.0)) };
    assert!(relay.carry_out(order).is_empty());
    assert_eq!((relay.buffer_ms, relay.crossover_hz), (400, q(150.0)));
    assert!(relay.carry_out(Order::Hello { buffer_ms: None, crossover_hz: None }).is_empty());
    assert_eq!((relay.buffer_ms, relay.crossover_hz), (400, q(150.0)));
    let wide = Order::Hello { buffer_ms: Some(0x1_0000_0005), crossover_hz: None };
    relay.carry_out(wide);
    assert_eq!(relay.buffer_ms, 5);
}

#[test]
fn assignment_reaches_one_child() {
    let mut relay = Relay::new();
    let a = joined(&mut relay, "A");
    let b = joined(&mut relay, "B");
    let order = Order::SetConfig {
        id: b,
        role: Some("sub".to_string()),
        pan: None,
        gain: Some(q(0.5)),
    };
    assert_eq!(
        posts(&relay.carry_out(order)),
        vec!["2: type=config role=sub pan=right gain=0.5 crossover_hz=220.0 buffer_ms=1000 suspect=false"]
    );
    assert_eq!(relay.children.get(b).unwrap().role, "sub");
    assert_eq!(relay.children.get(a).unwrap().role, "full");
    let stray = Order::SetConfig { id: 9, role: None, pan: None, gain: None };
    assert!(relay.carry_out(stray).is_empty());
    assert!(relay.carry_out(Order::Ignored).is_empty());
}

#[test]
fn crossover_reaches_everybody() {
    let mut relay = Relay::new();
    joined(&mut relay, "A");
    joined(&mut relay, "B");
    let list = posts(&relay.carry_out(Order::SetCrossover { hz: Some(q(100.0)) }));
    assert_eq!(list.len(), 2);
    assert!(list[0].starts_with("1: type=config role=full pan=left gain=0.8 crossover_hz=100.0"));
    assert!(list[1].starts_with("2: type=config role=full pan=right gain=0.8 crossover_hz=100.0"));
    let again = posts(&relay.carry_out(Order::SetCrossover { hz: None }));
    assert_eq!(again, list);
}

#[test]
fn offset_snaps_down_and_leaks_up() {
    let mut relay = Relay::new();
    assert_eq!(relay.update_master_offset(q(10.0), q(99.0)), q(10.0));
    assert_eq!(relay.update_master_offset(q(8.0), q(99.0)), q(8.0));
    assert_eq!(relay.update_master_offset(q(50.0), q(8.05)), q(8.05));
    assert_eq!(relay.update_master_offset(q(8.05), q(8.05)), q(8.05));
    assert_eq!(relay.master_offset, Some(q(8.05)));
}

#[test]
fn jitter_median_needs_three_measured_children() {
    let mut relay = Relay::new();
    for _ in 0..4 {
        joined(&mut relay, "x");
    }
    relay.report(1, Some(q(10.0)), Some(q(2.0)));
    relay.report(2, Some(q(10.0)), Some(q(90.0)));
    assert_eq!(relay.jitter_median(), None);
    relay.report(3, Some(q(0.0)), Some(q(5.0)));
    assert_eq!(relay.jitter_median(), None);
    relay.report(3, Some(q(10.0)), Some(q(5.0)));
    assert_eq!(relay.jitter_median(), Some(q(5.0)));
    relay.report(4, Some(q(10.0)), Some(q(7.0)));
    assert_eq!(relay.jitter_median(), Some(q(7.0)));
}

#[test]
fn outliers_are_flagged_and_told_once() {
    let mut relay = Relay::new();
    for _ in 0..4 {
        joined(&mut relay, "x");
    }
    for (id, jitter) in [(1, 2.0), (2, 90.0), (3, 3.0)] {
        relay.report(id, Some(q(10.0)), Some(q(jitter)));
    }
    let list = posts(&relay.recompute_suspects(q(28.0)));
    assert_eq!(
        list,
        vec!["2: type=config role=full pan=right gain=0.8 crossover_hz=220.0 buffer_ms=1000 suspect=true"]
    );
    assert_eq!(suspects(&relay), vec![2]);
    assert!(relay.recompute_suspects(q(28.0)).is_empty());
    relay.report(2, Some(q(10.0)), Some(q(28.0)));
    assert_eq!(posts(&relay.recompute_suspects(q(28.0))).len(), 1);
    assert!(suspects(&relay).is_empty());
}

#[test]
fn small_jitter_is_never_held_against_a_child() {
    let mut relay = Relay::new();
    for id in 1..4 {
        joined(&mut relay, "x");
        relay.report(id, Some(q(10.0)), Some(q(30.0)));
    }
    assert!(relay.recompute_suspects(q(25.0)).is_empty());
    relay.report(1, Some(q(10.0)), Some(q(30.5)));
    assert_eq!(relay.recompute_suspects(q(25.0)).len(), 1);
    assert_eq!(suspects(&relay), vec![1]);
}

#[test]
fn flags_are_cleared_without_a_quorum() {
    let mut relay = Relay::new();
    for id in 1..4 {
        joined(&mut relay, "x");
        relay.report(id, Some(q(10.0)), Some(q(90.0)));
    }
    relay.recompute_suspects(q(40.0));
    assert_eq!(suspects(&relay), vec![1, 2, 3]);
    relay.report(1, Some(q(0.0)), None);
    let list = relay.recompute_suspects(q(40.0));
    assert_eq!(list.len(), 3);
    assert!(suspects(&relay).is_empty());
}

#[test]
fn unmeasured_child_keeps_its_flag_in_a_quorum() {
    let mut relay = Relay::new();
    for id in 1..5 {
        joined(&mut relay, "x");
        relay.report(id, Some(q(10.0)), Some(q(90.0)));
    }
    relay.recompute_suspects(q(40.0));
    relay.report(4, Some(q(0.0)), Some(q(1.0)));
    assert!(relay.recompute_suspects(q(40.0)).is_empty());
    assert_eq!(suspects(&relay), vec![1, 2, 3, 4]);
}

#[test]
fn tick_shows_the_judged_roster() {
    let mut relay = Relay::new();
    relay.source_connect();
    for id in 1..4 {
        joined(&mut relay, "x");
        relay.report(id, Some(q(10.0)), Some(q(if id == 2 { 90.0 } else { 1.0 })));
    }
    let list = posts(&relay.tick(q(26.0)));
    assert_eq!(list.len(), 2);
    assert!(list[0].starts_with("2: type=config"));
    assert!(list[1].starts_with("master: roster [id=1 "));
    assert!(list[1].contains("id=2 name=x kind=browser latency_ms=10.0 jitter_ms=90.0 suspect=true"));
}

#[test]
fn chunks_are_fanned_out_with_one_time() {
    let mut relay = Relay::new();
    let frame = relay.fan_out(q(50.0), vec![1, 0, 2, 0], q(-950.0), q(1050.0));
    assert_eq!(frame, encode_audio_frame(q(50.0), &[1, 2]));
}

#[test]
fn newcomers_are_sent_the_history() {
    let mut relay = Relay::new();
    relay.fan_out(q(1000.0), vec![1, 0], q(0.0), q(2000.0));
    relay.fan_out(q(1500.0), vec![2, 0], q(500.0), q(2500.0));
    relay.fan_out(q(2020.0), vec![3, 0], q(1020.0), q(3020.0));
    let (id, list) = relay.join("A".to_string(), "native".to_string());
    assert_eq!((id, list.len()), (1, 4));
    for (post, (time, sample)) in list[2..].iter().zip([(1500.0, 2), (2020.0, 3)]) {
        match post {
            Post::Audio(child, bytes) => {
                assert_eq!((*child, bytes), (1, &encode_audio_frame(q(time), &[sample])))
            }
            _ => panic!("no audio"),
        }
    }
}

#[test]
fn history_holds_one_buffer() {
    let mut history = History::new();
    assert!(history.frames().is_empty());
    for i in 0..200 {
        let time = i as f64 * 20.0;
        history.push(q(time), vec![i as u8], q(time - 250.0), q(time + 250.0));
    }
    let times: Vec<f64> = history.chunks.iter().map(|c| f64::from_bits(c.play_at.bits)).collect();
    let expected: Vec<f64> = (187..200).map(|i| i as f64 * 20.0).collect();
    assert_eq!(times, expected);
    history.push(q(10.0), vec![9], q(-240.0), q(260.0));
    assert_eq!(history.frames(), vec![encode_payload(q(10.0), &[9])]);
}

#[test]
fn burst_raises_the_offset_by_one_leak_per_chunk() {
    let mut relay = Relay::new();
    relay.update_master_offset(q(100.0), q(100.0));
    let mut current: f64 = 100.0;
    for late in [5000.0, 4000.0, 3000.0, 2000.0] {
        let leaked = current + f64::min(late - current, 0.05);
        current = f64::from_bits(relay.update_master_offset(q(late), q(leaked)).bits);
    }
    assert!(100.0 <= current && current <= 100.21);
}
