use wavefront::dsp::{DspChain, FilterKind, Tap};
use wavefront::quantity::Quantity;
use wavefront::state::{ClientConfig, Pan, Role};

fn q(x: f64) -> Quantity {
    Quantity::new(x.to_bits())
}

fn settings(role: Role, pan: Pan) -> ClientConfig {
    ClientConfig { role, pan, gain: q(0.8) }
}

#[test]
fn roles_have_their_filters() {
    for (role, kind) in [
        (Role::Sub, FilterKind::LowPass),
        (Role::Tweeter, FilterKind::HighPass),
        (Role::Full, FilterKind::PassThrough),
    ] {
        let chain = DspChain::new(settings(role, Pan::Mid), q(220.0));
        assert_eq!((chain.kind, chain.freq), (kind, q(220.0)));
    }
}

#[test]
fn gain_and_channel_keep_the_filters_running() {
    let mut chain = DspChain::new(settings(Role::Sub, Pan::Mid), q(220.0));
    let config = ClientConfig { role: Role::Sub, pan: Pan::Left, gain: q(0.1) };
    assert!(!chain.set_config(config, q(220.0), false));
    assert_eq!((chain.config, chain.freq), (config, q(220.0)));
}

#[test]
fn role_and_crossover_build_the_filters_anew() {
    let mut chain = DspChain::new(settings(Role::Sub, Pan::Mid), q(220.0));
    assert!(chain.set_config(settings(Role::Tweeter, Pan::Mid), q(220.0), false));
    assert_eq!(chain.kind, FilterKind::HighPass);
    assert!(chain.set_config(settings(Role::Tweeter, Pan::Mid), q(300.0), true));
    assert_eq!(chain.freq, q(300.0));
}

#[test]
fn channels_are_tapped() {
    let samples = [1, 2, 3, 4, 5];
    let chain = |pan: Pan| DspChain::new(settings(Role::Full, pan), q(220.0));
    assert_eq!(chain(Pan::Left).taps(&samples), vec![Tap::One(1), Tap::One(3)]);
    assert_eq!(chain(Pan::Right).taps(&samples), vec![Tap::One(2), Tap::One(4)]);
    assert_eq!(chain(Pan::Mid).taps(&samples), vec![Tap::Mix(1, 2), Tap::Mix(3, 4)]);
    assert_eq!(chain(Pan::Mid).taps(&[2, 1, 3, 4]), vec![Tap::Mix(1, 2), Tap::Mix(3, 4)]);
    assert!(chain(Pan::Mid).taps(&[1]).is_empty());
}

#[test]
fn levels_are_written_back_to_both_sides() {
    let mut samples = vec![1, 2, 3, 4, 5];
    DspChain::put_back(&mut samples, &vec![10, -30]);
    assert_eq!(samples, vec![10, 10, -30, -30, 5]);
}

#[test]
fn levels_are_clipped_and_never_wrapped() {
    let mut samples = vec![0; 12];
    DspChain::put_back(&mut samples, &vec![32767, 32768, i32::MAX, -32767, -32768, i32::MIN]);
    assert_eq!(
        samples,
        vec![
            32767, 32767, 32767, 32767, 32767, 32767, -32767, -32767, -32767, -32767, -32767,
            -32767
        ]
    );
}

/// A filter that remembers the sum of what it has heard.
fn process(chain: &DspChain, memory: &mut i32, samples: &mut Vec<i16>) {
    let levels: Vec<i32> = chain
        .taps(samples)
        .iter()
        .map(|tap| {
            *memory += match tap {
                Tap::One(s) => *s as i32,
                Tap::Mix(a, b) => (*a as i32 + *b as i32) / 2,
            };
            *memory
        })
        .collect();
    DspChain::put_back(samples, &levels);
}

#[test]
fn cuts_are_not_audible() {
    for pan in [Pan::Left, Pan::Mid, Pan::Right] {
        let chain = DspChain::new(settings(Role::Full, pan), q(220.0));
        let stream: Vec<i16> = vec![5, -7, 100, 30000, 12, 30000, 9];
        let (mut whole, mut memory) = (stream.clone(), 0);
        process(&chain, &mut memory, &mut whole);
        let (mut first, mut second) = (stream[..4].to_vec(), stream[4..].to_vec());
        let mut other = 0;
        process(&chain, &mut other, &mut first);
        process(&chain, &mut other, &mut second);
        first.extend(second);
        assert_eq!((whole, memory), (first, other));
    }
}

#[test]
fn unheard_sides_do_not_matter() {
    let run = |pan: Pan, samples: &[i16]| {
        let chain = DspChain::new(settings(Role::Full, pan), q(220.0));
        let (mut out, mut memory) = (samples.to_vec(), 0);
        process(&chain, &mut memory, &mut out);
        (out, memory)
    };
    assert_eq!(run(Pan::Left, &[1, 2, 3, 4]), run(Pan::Left, &[1, 99, 3, -99]));
    assert_eq!(run(Pan::Right, &[1, 2, 3, 4]), run(Pan::Right, &[99, 2, -99, 4]));
    assert_eq!(run(Pan::Mid, &[1, 2, 3, 4]), run(Pan::Mid, &[2, 1, 3, 4]));
}
