use wavefront::frame::{decode_audio_frame, decode_payload, encode_audio_frame, encode_payload};
use wavefront::quantity::Quantity;

fn q(x: f64) -> Quantity {
    Quantity::new(x.to_bits())
}

#[test]
fn frame_has_the_layout_of_the_protocol() {
    let pcm: Vec<i16> = vec![1, -1, 256, i16::MIN, i16::MAX];
    let bytes = encode_audio_frame(q(1234.5), &pcm);
    let mut expected: Vec<u8> = vec![1, 0, 0, 0];
    expected.extend_from_slice(&1234.5f64.to_le_bytes());
    for s in &pcm {
        expected.extend_from_slice(&s.to_le_bytes());
    }
    assert_eq!(bytes, expected);
    assert_eq!(&bytes[12..], &[1, 0, 255, 255, 0, 1, 0, 128, 255, 127]);
}

#[test]
fn audio_is_read_back() {
    let pcm: Vec<i16> = (0..1920).map(|i: i32| (i * 37 - 30000) as i16).collect();
    let bytes = encode_audio_frame(q(-7.25), &pcm);
    assert_eq!(bytes.len(), 12 + 3840);
    let (time, samples) = decode_audio_frame(&bytes).unwrap();
    assert_eq!(f64::from_bits(time.bits), -7.25);
    assert_eq!(samples, pcm);
}

#[test]
fn what_is_no_audio_frame_is_refused() {
    assert!(decode_audio_frame(&[]).is_none());
    assert!(decode_audio_frame(&[1; 11]).is_none());
    assert!(decode_audio_frame(&[2; 20]).is_none());
    assert!(decode_payload(&[1; 11]).is_none());
    assert!(decode_payload(&[0; 20]).is_none());
}

#[test]
fn empty_frame_counts_for_speakers_only() {
    let bytes = encode_audio_frame(q(5.0), &[]);
    assert_eq!(bytes.len(), 12);
    assert_eq!(decode_audio_frame(&bytes).unwrap().1, Vec::<i16>::new());
    assert!(decode_payload(&bytes).is_none());
}

#[test]
fn single_byte_at_the_end_is_no_sample() {
    let mut bytes = encode_audio_frame(q(5.0), &[9, 8]);
    bytes.push(77);
    assert_eq!(decode_audio_frame(&bytes).unwrap().1, vec![9, 8]);
    assert_eq!(decode_payload(&bytes).unwrap().1, vec![9, 0, 8, 0, 77]);
}

#[test]
fn flags_and_reserved_bytes_are_ignored() {
    let mut bytes = encode_audio_frame(q(5.0), &[3]);
    bytes[1] = 9;
    bytes[2] = 9;
    bytes[3] = 9;
    assert_eq!(decode_audio_frame(&bytes).unwrap(), (q(5.0), vec![3]));
}

#[test]
fn relay_passes_the_payload_on() {
    let upload = encode_audio_frame(q(100.0), &[1, 2, 3, 4]);
    let (time, payload) = decode_payload(&upload).unwrap();
    assert_eq!(time, q(100.0));
    let download = encode_payload(q(1100.0), &payload);
    assert_eq!(download[12..], upload[12..]);
    assert_eq!(decode_audio_frame(&download).unwrap(), (q(1100.0), vec![1, 2, 3, 4]));
}
