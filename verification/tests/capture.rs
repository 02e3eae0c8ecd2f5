use wavefront::capture::{
    convert_to_stereo_48k, interleave, neighbours, pick_device, to_stereo, Chunker, Converted,
    Platform, Source, CHUNK_FRAMES, CHUNK_SAMPLES, TARGET_SAMPLE_RATE,
};

#[test]
fn chunks_last_twenty_milliseconds() {
    assert_eq!(CHUNK_SAMPLES, CHUNK_FRAMES * 2);
    assert_eq!(CHUNK_FRAMES * 50, TARGET_SAMPLE_RATE as usize);
}

#[test]
fn mono_is_heard_on_both_sides() {
    assert_eq!(to_stereo(&[1.5f32, 2.5], 1), vec![(1.5, 1.5), (2.5, 2.5)]);
}

#[test]
fn the_first_two_of_several_channels_are_used() {
    assert_eq!(to_stereo(&[1, 2, 3, 4, 5, 6, 7], 3), vec![(1, 2), (4, 5)]);
    assert_eq!(to_stereo(&[1, 2, 3], 2), vec![(1, 2)]);
    assert!(to_stereo(&[1, 2, 3], 0).is_empty());
    assert!(to_stereo(&[1, 2, 3], 4).is_empty());
}

#[test]
fn stereo_is_interleaved() {
    assert_eq!(interleave(&vec![(1, 2), (3, 4)]), vec![1, 2, 3, 4]);
}

#[test]
fn input_at_the_target_rate_is_ready() {
    match convert_to_stereo_48k(&[1.0f32, 2.0], 1, 48_000) {
        Converted::Ready(out) => assert_eq!(out, vec![1.0, 1.0, 2.0, 2.0]),
        Converted::Resample(_) => panic!("no need to resample"),
    }
}

#[test]
fn empty_input_is_ready_at_any_rate() {
    for channels in [0, 2] {
        match convert_to_stereo_48k(&[1.0f32], channels, 44_100) {
            Converted::Ready(out) => assert!(out.is_empty()),
            Converted::Resample(_) => panic!("nothing to resample"),
        }
    }
}

#[test]
fn input_at_another_rate_is_to_be_resampled() {
    match convert_to_stereo_48k(&[1.0f32, 2.0, 3.0, 4.0], 2, 44_100) {
        Converted::Ready(_) => panic!("needs resampling"),
        Converted::Resample(frames) => assert_eq!(frames, vec![(1.0, 2.0), (3.0, 4.0)]),
    }
}

#[test]
fn last_frame_is_its_own_neighbour() {
    let frames = vec![(1, 2), (3, 4)];
    assert_eq!(neighbours(&frames, 0), ((1, 2), (3, 4)));
    assert_eq!(neighbours(&frames, 1), ((3, 4), (3, 4)));
}

#[test]
fn chunks_and_remainder_are_what_went_in() {
    let mut chunker: Chunker<i32> = Chunker::new();
    let mut given: Vec<i32> = Vec::new();
    let mut taken: Vec<i32> = Vec::new();
    let mut next = 0;
    for size in [0, 1, 1918, 1, 5000, 1920, 39] {
        let input: Vec<i32> = (next..next + size).collect();
        next += size;
        given.extend_from_slice(&input);
        for chunk in chunker.handle_input(&input) {
            assert_eq!(chunk.len(), CHUNK_SAMPLES);
            taken.extend(chunk);
        }
        assert!(chunker.pending.len() < CHUNK_SAMPLES);
    }
    taken.extend_from_slice(&chunker.pending);
    assert_eq!(taken, given);
}

#[test]
fn full_chunks_come_out_at_once() {
    let mut chunker: Chunker<u8> = Chunker::new();
    assert!(chunker.handle_input(&[1; 1919]).is_empty());
    assert_eq!(chunker.handle_input(&[2; 1]).len(), 1);
    assert_eq!(chunker.handle_input(&[3; 3840]).len(), 2);
    assert!(chunker.pending.is_empty());
}

fn inputs(names: &[&str]) -> Vec<Option<String>> {
    names
        .iter()
        .map(|name| if name.is_empty() { None } else { Some(name.to_string()) })
        .collect()
}

#[test]
fn windows_captures_its_output() {
    let pick = pick_device(Platform::Windows, &Some(Some("Speakers".to_string())), &inputs(&[]), &None);
    assert_eq!((pick.source, pick.label.as_str()), (Source::Output, "WASAPI loopback: Speakers"));
    assert!(pick.warnings.is_empty());
    let pick = pick_device(Platform::Windows, &Some(None), &inputs(&[]), &None);
    assert_eq!(pick.label, "WASAPI loopback: default output");
    let pick = pick_device(Platform::Windows, &None, &inputs(&["x.monitor"]), &Some("Mic".to_string()));
    assert_eq!((pick.source, pick.label.as_str()), (Source::DefaultInput, "Microphone: Mic"));
    assert!(pick.warnings.is_empty());
}

#[test]
fn macos_looks_for_blackhole() {
    let found = inputs(&["Mic", "", "BlackHole 2ch", "BlackHole 16ch"]);
    let pick = pick_device(Platform::MacOs, &None, &found, &None);
    assert_eq!((pick.source, pick.label.as_str()), (Source::Input(2), "BlackHole: BlackHole 2ch"));
    assert!(pick.warnings.is_empty());
    let pick = pick_device(Platform::MacOs, &None, &inputs(&["Mic"]), &None);
    assert_eq!((pick.source, pick.label.as_str()), (Source::DefaultInput, "Microphone: default input"));
    assert_eq!(
        pick.warnings,
        vec!["Install BlackHole (existential.audio/blackhole) and set it as a Multi-Output to capture system audio \u{2014} currently using the microphone"]
    );
}

#[test]
fn linux_looks_for_a_monitor() {
    let found = inputs(&["Mic", "alsa_output.pci.monitor", "BlackHole"]);
    let pick = pick_device(Platform::Linux, &None, &found, &None);
    assert_eq!(pick.source, Source::Input(1));
    assert_eq!(pick.label, "Monitor source: alsa_output.pci.monitor");
    let pick = pick_device(Platform::Linux, &None, &inputs(&["monitor"]), &Some("Mic".to_string()));
    assert_eq!((pick.source, pick.label.as_str()), (Source::DefaultInput, "Microphone: Mic"));
    assert_eq!(
        pick.warnings,
        vec!["Using microphone \u{2014} select a monitor source in pavucontrol"]
    );
}

#[test]
fn other_platforms_use_the_microphone() {
    let pick = pick_device(Platform::Other, &Some(None), &inputs(&["a.monitor"]), &None);
    assert_eq!((pick.source, pick.label.as_str()), (Source::DefaultInput, "Microphone: default input"));
    assert!(pick.warnings.is_empty());
}
