//! Binary audio frames: a header of twelve bytes and PCM behind it.
//!
//! | offset | size | field                                      |
//! |--------|------|--------------------------------------------|
//! | 0      | 1    | frame kind, 1 for audio                    |
//! | 1      | 1    | flags, reserved                            |
//! | 2      | 2    | reserved                                   |
//! | 4      | 8    | the time to play at, binary64              |
//! | 12     |      | interleaved stereo PCM, 16 bits per sample |
//!
//! Everything is little-endian.

use crate::quantity::Quantity;
use vstd::prelude::*;

verus! {

/// The kind of a frame that carries audio.
pub const AUDIO: u8 = 1;

/// How many bytes stand before the PCM.
pub const HEADER: usize = 12;

/// The `n` bytes of `x`, the lowest first.
pub open spec fn le_bytes(x: nat, n: nat) -> Seq<u8>
    decreases n,
{
    if n == 0 {
        Seq::empty()
    } else {
        seq![(x % 256) as u8] + le_bytes(x / 256, (n - 1) as nat)
    }
}

/// The number that the bytes write, the lowest first.
pub open spec fn le_value(s: Seq<u8>) -> nat
    decreases s.len(),
{
    if s.len() == 0 {
        0
    } else {
        s[0] as nat + 256 * le_value(s.skip(1))
    }
}

/// 256 to the power of `n`.
pub open spec fn weight(n: nat) -> nat
    decreases n,
{
    if n == 0 {
        1
    } else {
        256 * weight((n - 1) as nat)
    }
}

/// A number that fits is read back from its bytes.
pub proof fn bytes_read_back(x: nat, n: nat)
    requires
        x < weight(n),
    ensures
        le_bytes(x, n).len() == n,
        le_value(le_bytes(x, n)) == x,
    decreases n,
{
    if n > 0 {
        bytes_read_back(x / 256, (n - 1) as nat);
        assert(le_bytes(x, n).skip(1) =~= le_bytes(x / 256, (n - 1) as nat));
    }
}

/// What some bytes write fits into as many bytes.
proof fn value_fits(s: Seq<u8>)
    ensures
        le_value(s) < weight(s.len()),
    decreases s.len(),
{
    if s.len() > 0 {
        value_fits(s.skip(1));
    }
}

/// Eight bytes hold 64 bits.
proof fn eight_bytes()
    ensures
        weight(8) == 0x1_0000_0000_0000_0000,
{
    reveal_with_fuel(weight, 9);
}

/// A sample as an unsigned number, in two's complement.
pub open spec fn unsigned(sample: i16) -> nat {
    if sample >= 0 {
        sample as nat
    } else {
        (sample + 0x1_0000) as nat
    }
}

/// The sample with these two bytes.
pub open spec fn sample_of(low: u8, high: u8) -> i16 {
    let value = low + 256 * high;
    if value < 0x8000 {
        value as i16
    } else {
        (value - 0x1_0000) as i16
    }
}

/// The bytes of the samples, the lower byte of each first.
pub open spec fn pcm_bytes(pcm: Seq<i16>) -> Seq<u8> {
    Seq::new(
        2 * pcm.len(),
        |i: int|
            if i % 2 == 0 {
                (unsigned(pcm[i / 2]) % 256) as u8
            } else {
                (unsigned(pcm[i / 2]) / 256) as u8
            },
    )
}

/// The samples in the bytes; a single byte at the end is no sample.
pub open spec fn pcm_samples(bytes: Seq<u8>) -> Seq<i16> {
    Seq::new(bytes.len() / 2, |i: int| sample_of(bytes[2 * i], bytes[2 * i + 1]))
}

/// The frame that carries `payload`, to be played at `play_at`.
pub open spec fn frame(play_at: Quantity, payload: Seq<u8>) -> Seq<u8> {
    seq![AUDIO, 0u8, 0u8, 0u8] + le_bytes(play_at.bits as nat, 8) + payload
}

/// The bytes are those of an audio frame, with its whole header.
pub open spec fn is_audio(bytes: Seq<u8>) -> bool {
    bytes.len() >= HEADER && bytes[0] == AUDIO
}

/// When a frame is to be played.
pub open spec fn frame_time(bytes: Seq<u8>) -> Quantity {
    Quantity { bits: le_value(bytes.subrange(4, 12)) as u64 }
}

/// What a frame carries.
pub open spec fn frame_payload(bytes: Seq<u8>) -> Seq<u8> {
    bytes.skip(HEADER as int)
}

/// Samples are read back from their bytes.
pub proof fn pcm_reads_back(pcm: Seq<i16>)
    ensures
        pcm_samples(pcm_bytes(pcm)) == pcm,
{
    let bytes = pcm_bytes(pcm);
    assert forall|i: int| 0 <= i < pcm.len() implies pcm_samples(bytes)[i] == pcm[i] by {
        assert((2 * i) / 2 == i && (2 * i + 1) / 2 == i);
    }
    assert(pcm_samples(bytes) =~= pcm);
}

/// A receiver reads out of a frame the time and the payload that the sender put in.
pub proof fn frame_reads_back(play_at: Quantity, payload: Seq<u8>)
    ensures
        is_audio(frame(play_at, payload)),
        frame(play_at, payload).len() == HEADER + payload.len(),
        frame_time(frame(play_at, payload)) == play_at,
        frame_payload(frame(play_at, payload)) == payload,
{
    let bytes = frame(play_at, payload);
    eight_bytes();
    bytes_read_back(play_at.bits as nat, 8);
    assert(bytes.subrange(4, 12) =~= le_bytes(play_at.bits as nat, 8));
    assert(bytes.skip(HEADER as int) =~= payload);
}

/// A speaker plays the samples that the master captured.
pub proof fn audio_reads_back(play_at: Quantity, pcm: Seq<i16>)
    ensures
        frame_time(frame(play_at, pcm_bytes(pcm))) == play_at,
        pcm_samples(frame_payload(frame(play_at, pcm_bytes(pcm)))) == pcm,
{
    frame_reads_back(play_at, pcm_bytes(pcm));
    pcm_reads_back(pcm);
}

/// A relay that stamps a frame anew passes its audio on byte for byte.
pub proof fn relayed_audio_is_identical(received: Seq<u8>, play_at: Quantity)
    requires
        is_audio(received),
    ensures
        frame_payload(frame(play_at, frame_payload(received))) == frame_payload(received),
        frame_time(frame(play_at, frame_payload(received))) == play_at,
        frame(play_at, frame_payload(received)).len() == received.len(),
{
    frame_reads_back(play_at, frame_payload(received));
}

/// Appends the header of an audio frame.
fn push_header(out: &mut Vec<u8>, play_at: Quantity)
    ensures
        final(out)@ == old(out)@ + frame(play_at, Seq::empty()),
{
    out.push(AUDIO);
    out.push(0);
    out.push(0);
    out.push(0);
    let ghost start = out@;
    let mut rest: u64 = play_at.bits;
    let mut i: usize = 0;
    while i < 8
        invariant
            i <= 8,
            start + le_bytes(play_at.bits as nat, 8) == out@ + le_bytes(
                rest as nat,
                (8 - i) as nat,
            ),
        decreases 8 - i,
    {
        let ghost before = out@;
        out.push((rest % 256) as u8);
        proof {
            assert(before + le_bytes(rest as nat, (8 - i) as nat) =~= out@ + le_bytes(
                rest as nat / 256,
                (8 - i - 1) as nat,
            ));
        }
        rest = rest / 256;
        i = i + 1;
    }
    assert(out@ =~= old(out)@ + frame(play_at, Seq::empty()));
}

/// Encodes a chunk into the frame that carries it.
pub fn encode_audio_frame(play_at: Quantity, pcm: &[i16]) -> (r: Vec<u8>)
    ensures
        r@ == frame(play_at, pcm_bytes(pcm@)),
{
    let mut out: Vec<u8> = Vec::new();
    push_header(&mut out, play_at);
    let ghost header = out@;
    let mut i: usize = 0;
    while i < pcm.len()
        invariant
            i <= pcm@.len(),
            out@ == header + pcm_bytes(pcm@.take(i as int)),
        decreases pcm@.len() - i,
    {
        let sample: i32 = pcm[i] as i32;
        let value: i32 = if sample >= 0 { sample } else { sample + 0x1_0000 };
        out.push((value % 256) as u8);
        out.push((value / 256) as u8);
        proof {
            let t = pcm@.take(i + 1);
            assert(pcm_bytes(t) =~= pcm_bytes(pcm@.take(i as int)) + seq![
                (unsigned(pcm@[i as int]) % 256) as u8,
                (unsigned(pcm@[i as int]) / 256) as u8,
            ]);
            assert(out@ =~= header + pcm_bytes(t));
        }
        i = i + 1;
    }
    proof {
        assert(pcm@.take(i as int) =~= pcm@);
        assert(out@ =~= frame(play_at, pcm_bytes(pcm@)));
    }
    out
}

/// Encodes PCM bytes into the frame that carries them.
pub fn encode_payload(play_at: Quantity, payload: &[u8]) -> (r: Vec<u8>)
    ensures
        r@ == frame(play_at, payload@),
{
    let mut out: Vec<u8> = Vec::new();
    push_header(&mut out, play_at);
    let ghost header = out@;
    let mut i: usize = 0;
    while i < payload.len()
        invariant
            i <= payload@.len(),
            out@ == header + payload@.take(i as int),
        decreases payload@.len() - i,
    {
        out.push(payload[i]);
        assert(payload@.take(i + 1) =~= payload@.take(i as int).push(payload@[i as int]));
        i = i + 1;
    }
    assert(payload@.take(i as int) =~= payload@);
    assert(out@ =~= frame(play_at, payload@));
    out
}

/// When a frame is to be played.
fn read_time(bytes: &[u8]) -> (r: Quantity)
    requires
        bytes@.len() >= HEADER,
    ensures
        r == frame_time(bytes@),
{
    let mut value: u64 = 0;
    let mut i: usize = 12;
    proof {
        eight_bytes();
        value_fits(bytes@.subrange(4, 12));
    }
    while i > 4
        invariant
            4 <= i <= 12,
            bytes@.len() >= HEADER,
            value == le_value(bytes@.subrange(i as int, 12)),
            le_value(bytes@.subrange(4, 12)) < 0x1_0000_0000_0000_0000,
        decreases i,
    {
        proof {
            let k = i - 1;
            assert(bytes@.subrange(k, 12).skip(1) =~= bytes@.subrange(i as int, 12));
            value_fits(bytes@.subrange(k, 12));
            weight_fits((12 - k) as nat);
        }
        value = bytes[i - 1] as u64 + 256 * value;
        i = i - 1;
    }
    Quantity { bits: value }
}

/// Up to eight bytes hold at most 64 bits.
proof fn weight_fits(n: nat)
    requires
        n <= 8,
    ensures
        weight(n) <= 0x1_0000_0000_0000_0000,
{
    reveal_with_fuel(weight, 9);
}

/// The bytes behind the header of a frame.
fn read_payload(bytes: &[u8]) -> (r: Vec<u8>)
    requires
        bytes@.len() >= HEADER,
    ensures
        r@ == frame_payload(bytes@),
{
    let mut out: Vec<u8> = Vec::new();
    let mut i: usize = HEADER;
    while i < bytes.len()
        invariant
            HEADER <= i <= bytes@.len(),
            out@ == bytes@.subrange(HEADER as int, i as int),
        decreases bytes@.len() - i,
    {
        out.push(bytes[i]);
        assert(bytes@.subrange(HEADER as int, i + 1) =~= bytes@.subrange(
            HEADER as int,
            i as int,
        ).push(bytes@[i as int]));
        i = i + 1;
    }
    assert(bytes@.subrange(HEADER as int, i as int) =~= frame_payload(bytes@));
    out
}

/// The time and the samples of an audio frame; `None` where the bytes are none.
pub fn decode_audio_frame(bin: &[u8]) -> (r: Option<(Quantity, Vec<i16>)>)
    ensures
        match r {
            Some((time, pcm)) => {
                &&& is_audio(bin@)
                &&& time == frame_time(bin@)
                &&& pcm@ == pcm_samples(frame_payload(bin@))
            },
            None => !is_audio(bin@),
        },
{
    if bin.len() < HEADER || bin[0] != AUDIO {
        return None;
    }
    let time = read_time(bin);
    let payload = read_payload(bin);
    let mut pcm: Vec<i16> = Vec::new();
    let size = payload.len() / 2;
    let mut i: usize = 0;
    while i < size
        invariant
            size == payload@.len() / 2,
            2 * size <= payload.len(),
            i <= size,
            pcm@ == pcm_samples(payload@).take(i as int),
        decreases size - i,
    {
        let value: i32 = payload[2 * i] as i32 + 256 * payload[2 * i + 1] as i32;
        let sample: i16 = if value < 0x8000 { value as i16 } else { (value - 0x1_0000) as i16 };
        pcm.push(sample);
        assert(pcm_samples(payload@).take(i + 1) =~= pcm_samples(payload@).take(i as int).push(
            pcm_samples(payload@)[i as int],
        ));
        i = i + 1;
    }
    assert(pcm_samples(payload@).take(i as int) =~= pcm_samples(payload@));
    Some((time, pcm))
}

/// The time and the payload of an audio frame that carries something; `None` where the
/// bytes are none.
pub fn decode_payload(bin: &[u8]) -> (r: Option<(Quantity, Vec<u8>)>)
    ensures
        match r {
            Some((time, payload)) => {
                &&& is_audio(bin@)
                &&& bin@.len() > HEADER
                &&& time == frame_time(bin@)
                &&& payload@ == frame_payload(bin@)
            },
            None => !is_audio(bin@) || bin@.len() == HEADER,
        },
{
    if bin.len() > HEADER && bin[0] == AUDIO {
        Some((read_time(bin), read_payload(bin)))
    } else {
        None
    }
}

/// The bytes of an audio frame stand where the protocol puts them: the kind, three zeros, the
/// eight bytes of the time with the lowest first, and the payload.
pub proof fn frames_have_the_layout(play_at: Quantity, payload: Seq<u8>)
    ensures
        ({
            let bytes = frame(play_at, payload);
            &&& bytes.len() == 12 + payload.len()
            &&& bytes[0] == 1 && bytes[1] == 0 && bytes[2] == 0 && bytes[3] == 0
            &&& play_at.bits == bytes[4] + 0x100 * bytes[5] + 0x1_0000 * bytes[6] + 0x100_0000
                * bytes[7] + 0x1_0000_0000 * bytes[8] + 0x100_0000_0000 * bytes[9]
                + 0x1_0000_0000_0000 * bytes[10] + 0x100_0000_0000_0000 * bytes[11]
            &&& forall|i: int| 0 <= i < payload.len() ==> bytes[12 + i] == #[trigger] payload[i]
        }),
{
    let bytes = frame(play_at, payload);
    frame_reads_back(play_at, payload);
    times_are_little_endian(bytes);
    assert forall|i: int| 0 <= i < payload.len() implies bytes[12 + i] == #[trigger] payload[i] by {
        assert(frame_payload(bytes)[i] == bytes[12 + i]);
    }
}

/// What counts as an audio frame has a whole header of the audio kind. Its time is what the eight
/// bytes from the fourth on write, the lowest first, and it carries all bytes behind the header.
pub proof fn times_are_little_endian(bytes: Seq<u8>)
    ensures
        is_audio(bytes) <==> bytes.len() >= 12 && bytes[0] == 1,
        is_audio(bytes) ==> {
            &&& frame_time(bytes).bits == bytes[4] + 0x100 * bytes[5] + 0x1_0000 * bytes[6]
                + 0x100_0000 * bytes[7] + 0x1_0000_0000 * bytes[8] + 0x100_0000_0000 * bytes[9]
                + 0x1_0000_0000_0000 * bytes[10] + 0x100_0000_0000_0000 * bytes[11]
            &&& frame_payload(bytes) == bytes.subrange(12, bytes.len() as int)
        },
{
    if is_audio(bytes) {
        reveal_with_fuel(le_value, 9);
        let time = bytes.subrange(4, 12);
        let s1 = time.skip(1);
        let s2 = s1.skip(1);
        let s3 = s2.skip(1);
        let s4 = s3.skip(1);
        let s5 = s4.skip(1);
        let s6 = s5.skip(1);
        let s7 = s6.skip(1);
        assert(s7.skip(1).len() == 0);
        assert(s1[0] == bytes[5] && s2[0] == bytes[6] && s3[0] == bytes[7] && s4[0] == bytes[8]);
        assert(s5[0] == bytes[9] && s6[0] == bytes[10] && s7[0] == bytes[11]);
        value_fits(time);
        eight_bytes();
        assert(frame_payload(bytes) =~= bytes.subrange(12, bytes.len() as int));
    }
}

/// A sample is two bytes, the lower one first, in two's complement, whether it is written or read.
pub proof fn samples_are_little_endian(pcm: Seq<i16>, bytes: Seq<u8>, i: int)
    ensures
        pcm_bytes(pcm).len() == 2 * pcm.len(),
        0 <= i < pcm.len() ==> {
            let value = pcm_bytes(pcm)[2 * i] + 256 * pcm_bytes(pcm)[2 * i + 1];
            value == pcm[i] || value == pcm[i] + 0x1_0000
        },
        pcm_samples(bytes).len() == bytes.len() / 2,
        0 <= i < bytes.len() / 2 ==> {
            let value = bytes[2 * i] + 256 * bytes[2 * i + 1];
            value == pcm_samples(bytes)[i] || value == pcm_samples(bytes)[i] + 0x1_0000
        },
{
    assert((2 * i) / 2 == i && (2 * i + 1) / 2 == i);
}

} // verus!
