use std::collections::VecDeque;
use wavefront::client::{
    choose_rate, client_step, fill_output, sample_to_u16, speaker_name, ClientStep, Clock,
    Pipeline, PlayQueue, RateRange,
};
use wavefront::dsp::FilterKind;
use wavefront::frame::{decode_payload, encode_audio_frame, encode_payload};
use wavefront::quantity::Quantity;
use wavefront::relay::{Relay, SourceStep};
use wavefront::socket::Incoming;
use wavefront::state::{AppState, ClientConfig, Pan, Role};

fn q(x: f64) -> Quantity {
    Quantity::new(x.to_bits())
}

fn queue(times: &[f64]) -> PlayQueue {
    let mut queue = PlayQueue::new();
    for (i, time) in times.iter().enumerate() {
        queue.push(q(*time), q(0.0), vec![i as i16]);
    }
    queue
}

#[test]
fn clock_takes_the_median() {
    let mut clock = Clock::new();
    assert_eq!(clock.offset_ms, q(0.0));
    for (sample, estimate) in [(5.0, 5.0), (-1.0, 5.0), (3.0, 3.0), (4.0, 4.0)] {
        clock.record(q(sample));
        assert_eq!(clock.offset_ms, q(estimate));
    }
}

#[test]
fn clock_keeps_the_last_fifteen_samples() {
    let mut clock = Clock::new();
    for i in 0..20 {
        clock.record(q(i as f64));
    }
    let kept: Vec<f64> = clock.samples.iter().map(|s| f64::from_bits(s.bits)).collect();
    let expected: Vec<f64> = (5..20).map(|i| i as f64).collect();
    assert_eq!(kept, expected);
    assert_eq!(clock.offset_ms, q(12.0));
}

#[test]
fn chunks_come_out_in_the_order_of_their_times() {
    let mut waiting = queue(&[30.0, 10.0, 20.0, 10.0]);
    assert_eq!(waiting.take_due(q(25.0), q(0.0)), vec![vec![1], vec![3], vec![2]]);
    assert_eq!(waiting.chunks.len(), 1);
    assert!(waiting.take_due(q(29.9), q(0.0)).is_empty());
    assert_eq!(waiting.take_due(q(30.0), q(0.0)), vec![vec![0]]);
    assert!(waiting.chunks.is_empty());
}

#[test]
fn chunks_of_the_past_are_dropped() {
    let mut waiting = PlayQueue::new();
    waiting.push(q(99.9), q(100.0), vec![1]);
    waiting.push(q(100.0), q(100.0), vec![2]);
    assert_eq!(waiting.chunks.len(), 1);
    assert_eq!(waiting.take_due(q(120.0), q(0.0)), vec![vec![2]]);
}

#[test]
fn chunks_that_are_too_late_are_skipped() {
    let mut waiting = queue(&[10.0, 50.0, 60.0]);
    assert_eq!(waiting.take_due(q(60.0), q(50.0)), vec![vec![1], vec![2]]);
    assert!(waiting.chunks.is_empty());
}

#[test]
fn arrival_order_does_not_matter() {
    let mut one = queue(&[1.0, 2.0, 3.0]);
    let mut other = PlayQueue::new();
    for (time, sample) in [(3.0, 2), (1.0, 0), (2.0, 1)] {
        other.push(q(time), q(0.0), vec![sample]);
    }
    assert_eq!(one.take_due(q(9.0), q(0.0)), other.take_due(q(9.0), q(0.0)));
}

#[test]
fn stereo_devices_play_both_sides() {
    let mut carry: VecDeque<i16> = VecDeque::from(vec![1, 2, 3, 4, 5, 6]);
    let mut data = [9i16; 4];
    fill_output(&mut carry, &mut data, 2, |s: i16| s);
    assert_eq!(data, [1, 2, 3, 4]);
    assert_eq!(carry, VecDeque::from(vec![5, 6]));
}

#[test]
fn mono_devices_play_the_mean() {
    let mut carry: VecDeque<i16> = VecDeque::from(vec![3, 4, -3, -4, i16::MIN, i16::MIN]);
    let mut data = [9i16; 3];
    fill_output(&mut carry, &mut data, 1, |s: i16| s);
    assert_eq!(data, [3, -3, i16::MIN]);
    assert!(carry.is_empty());
}

#[test]
fn further_channels_are_silent() {
    let mut carry: VecDeque<i16> = VecDeque::from(vec![1, 2, 3, 4]);
    let mut data = [9u16; 9];
    fill_output(&mut carry, &mut data, 4, sample_to_u16);
    assert_eq!(data, [32769, 32770, 32768, 32768, 32771, 32772, 32768, 32768, 9]);
}

#[test]
fn silence_follows_when_samples_run_out() {
    let mut carry: VecDeque<i16> = VecDeque::from(vec![1, 2, 3]);
    let mut data = [9.0f32; 6];
    fill_output(&mut carry, &mut data, 2, |s: i16| s as f32);
    assert_eq!(data, [1.0, 2.0, 0.0, 0.0, 0.0, 0.0]);
    assert!(carry.is_empty());
}

#[test]
fn unsigned_samples_are_shifted() {
    assert_eq!(sample_to_u16(i16::MIN), 0);
    assert_eq!(sample_to_u16(0), 32768);
    assert_eq!(sample_to_u16(i16::MAX), u16::MAX);
}

#[test]
fn speaker_acts_on_what_arrives() {
    let audio = Incoming::Binary(encode_audio_frame(q(4.0), &[7, 8]));
    match client_step(&audio) {
        ClientStep::Audio { play_at, pcm } => assert_eq!((play_at, pcm), (q(4.0), vec![7, 8])),
        _ => panic!("no audio"),
    }
    let pong = Incoming::Text("{\"type\":\"pong\",\"t0\":1,\"t1\":2}".to_string());
    match client_step(&pong) {
        ClientStep::Pong { t0, t1 } => assert_eq!((t0, t1), (q(1.0), q(2.0))),
        _ => panic!("no pong"),
    }
    let config = Incoming::Text("{\"type\":\"config\",\"role\":\"sub\",\"gain\":1}".to_string());
    match client_step(&config) {
        ClientStep::Config { config, crossover_hz, suspect } => {
            assert_eq!((config.role, config.gain), (Role::Sub, q(1.0)));
            assert_eq!((crossover_hz, suspect), (q(220.0), false));
        }
        _ => panic!("no config"),
    }
    assert!(matches!(client_step(&Incoming::Binary(vec![1, 2])), ClientStep::Pass));
    assert!(matches!(client_step(&Incoming::Text("?".to_string())), ClientStep::Pass));
    assert!(matches!(client_step(&Incoming::Other), ClientStep::Pass));
    assert!(matches!(client_step(&Incoming::Close), ClientStep::Stop));
    assert!(matches!(client_step(&Incoming::Gone), ClientStep::Stop));
}

#[test]
fn relayed_audio_arrives_as_it_was_sent() {
    let mut relay = Relay::new();
    let (gen, _) = relay.source_connect();
    let upload = encode_audio_frame(q(100.0), &[11, -12, 13, -14]);
    let SourceStep::Audio { payload, .. } = relay.source_step(gen, &Incoming::Binary(upload)) else {
        panic!("no audio");
    };
    let download = encode_payload(q(1250.0), &payload);
    assert!(decode_payload(&download).is_some());
    match client_step(&Incoming::Binary(download)) {
        ClientStep::Audio { play_at, pcm } => {
            assert_eq!((play_at, pcm), (q(1250.0), vec![11, -12, 13, -14]))
        }
        _ => panic!("no audio"),
    }
}

#[test]
fn speaker_has_a_name() {
    assert_eq!(speaker_name(Some("desk".to_string())), "desk");
    assert_eq!(speaker_name(None), "wavefront-client");
}

#[test]
fn pipeline_starts_with_the_defaults() {
    let pipeline = Pipeline::new();
    assert_eq!(pipeline.dsp.config, ClientConfig::default());
    assert_eq!((pipeline.dsp.kind, pipeline.dsp.freq), (FilterKind::PassThrough, q(220.0)));
    assert!(!pipeline.muted && pipeline.carry.is_empty() && pipeline.queue.chunks.is_empty());
    assert_eq!(pipeline.clock.offset_ms, q(0.0));
}

#[test]
fn pipeline_takes_settings() {
    let mut pipeline = Pipeline::new();
    let config = ClientConfig { role: Role::Sub, pan: Pan::Left, gain: q(0.5) };
    assert!(pipeline.configure(config, q(100.0), true, false));
    assert_eq!((pipeline.dsp.config, pipeline.dsp.freq), (config, q(100.0)));
    assert!(!pipeline.configure(config, q(100.0), false, true));
    assert!(pipeline.muted);
}

#[test]
fn suspects_keep_time_in_silence() {
    let mut pipeline = Pipeline::new();
    pipeline.line_up(&[1, 2]);
    pipeline.configure(ClientConfig::default(), q(220.0), false, true);
    pipeline.line_up(&[3, 4, 5]);
    pipeline.configure(ClientConfig::default(), q(220.0), false, false);
    pipeline.line_up(&[6]);
    assert_eq!(pipeline.carry, VecDeque::from(vec![1, 2, 0, 0, 0, 6]));
}

#[test]
fn stream_rate_is_preferred() {
    let range = |min: u32, max: u32, same_format: bool| RateRange { min, max, same_format };
    assert_eq!(choose_rate(44_100, &vec![range(8_000, 48_000, true)]), (48_000, false));
    assert_eq!(choose_rate(44_100, &vec![range(48_000, 96_000, true)]), (48_000, false));
    assert_eq!(choose_rate(44_100, &vec![range(8_000, 96_000, false)]), (44_100, true));
    assert_eq!(choose_rate(44_100, &vec![range(8_000, 44_100, true)]), (44_100, true));
    assert_eq!(choose_rate(48_000, &Vec::new()), (48_000, false));
}

#[test]
fn status_follows_the_pipeline() {
    let mut app = AppState::default();
    app.report_rtt(q(5.0));
    app.report_config(ClientConfig::default(), q(100.0));
    assert!(app.client_status.is_none());
    app.report_disconnected();
    assert!(!app.client_status.as_ref().unwrap().connected);
    app.report_connected("host");
    app.report_rtt(q(5.0));
    let config = ClientConfig { role: Role::Tweeter, pan: Pan::Left, gain: q(0.5) };
    app.report_config(config, q(100.0));
    let status = app.client_status.as_ref().unwrap();
    assert!(status.connected);
    assert_eq!((status.master_addr.as_str(), status.latency_ms), ("host", q(5.0)));
    assert_eq!((status.role, status.pan), (Role::Tweeter, Pan::Left));
    assert_eq!((status.gain, status.crossover_hz), (q(0.5), q(100.0)));
    app.report_disconnected();
    let status = app.client_status.as_ref().unwrap();
    assert_eq!((status.connected, status.master_addr.as_str()), (false, "host"));
}
