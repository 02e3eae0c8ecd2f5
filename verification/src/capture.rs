//! From whatever a sound device delivers to chunks of stereo.
//!
//! The samples are of any type here: nothing but their places matters.

use crate::text::{contains, join};
#[allow(unused_imports)]
use crate::text::{holds, parts_stand_between};
use vstd::prelude::*;
use vstd::string::*;

verus! {

/// The rate of the stream.
pub const TARGET_SAMPLE_RATE: u32 = 48_000;

/// How many frames a chunk holds: 20 ms.
pub const CHUNK_FRAMES: usize = 960;

/// How many samples a chunk holds.
pub const CHUNK_SAMPLES: usize = 1920;

/// One captured chunk: interleaved stereo, and when it was captured.
pub struct AudioChunk {
    pub capture_ts_ms: crate::quantity::Quantity,
    pub pcm: Vec<i16>,
}

/// The frame at the place `f` of interleaved samples, as stereo: a single channel on both
/// sides, and the first two of several.
pub open spec fn stereo_frame<T>(input: Seq<T>, channels: int, f: int) -> (T, T) {
    if channels == 1 {
        (input[f], input[f])
    } else {
        (input[f * channels], input[f * channels + 1])
    }
}

/// Interleaved samples as stereo frames; samples that fill no frame are left out.
pub open spec fn stereo<T>(input: Seq<T>, channels: int) -> Seq<(T, T)> {
    if channels <= 0 {
        Seq::empty()
    } else {
        Seq::new((input.len() as int / channels) as nat, |f: int| stereo_frame(input, channels, f))
    }
}

/// Stereo frames as interleaved samples.
pub open spec fn interleaved<T>(frames: Seq<(T, T)>) -> Seq<T> {
    Seq::new(2 * frames.len(), |i: int| if i % 2 == 0 { frames[i / 2].0 } else { frames[i / 2].1 })
}

/// Mixes interleaved samples down or up to stereo.
pub fn to_stereo<T: Copy>(input: &[T], in_channels: usize) -> (r: Vec<(T, T)>)
    ensures
        r@ == stereo(input@, in_channels as int),
{
    let mut out: Vec<(T, T)> = Vec::new();
    if in_channels == 0 {
        assert(out@ =~= stereo(input@, 0));
        return out;
    }
    let frames = input.len() / in_channels;
    let ghost all = stereo(input@, in_channels as int);
    let mut f: usize = 0;
    let mut base: usize = 0;
    while f < frames
        invariant
            in_channels > 0,
            frames == input@.len() as int / in_channels as int,
            f <= frames,
            base == f * in_channels,
            base <= input.len(),
            all == stereo(input@, in_channels as int),
            out@ == all.take(f as int),
        decreases frames - f,
    {
        proof {
            frame_fits(input@.len() as int, in_channels as int, f as int);
        }
        if in_channels == 1 {
            out.push((input[base], input[base]));
        } else {
            out.push((input[base], input[base + 1]));
        }
        assert(all.take(f + 1) =~= all.take(f as int).push(all[f as int]));
        f = f + 1;
        base = base + in_channels;
    }
    assert(all.take(f as int) =~= all);
    out
}

/// A whole frame lies within the samples.
pub(crate) proof fn frame_fits(len: int, channels: int, f: int)
    requires
        channels > 0,
        0 <= f < len / channels,
    ensures
        0 <= f * channels,
        f * channels + channels <= len,
        (f + 1) * channels == f * channels + channels,
{
    assert(f * channels + channels <= len && 0 <= f * channels && (f + 1) * channels == f * channels
        + channels) by (nonlinear_arith)
        requires
            channels > 0,
            0 <= f < len / channels,
    ;
}

/// Writes stereo frames as interleaved samples.
pub fn interleave<T: Copy>(frames: &Vec<(T, T)>) -> (r: Vec<T>)
    ensures
        r@ == interleaved(frames@),
{
    let mut out: Vec<T> = Vec::new();
    let mut f: usize = 0;
    while f < frames.len()
        invariant
            f <= frames@.len(),
            out@ == interleaved(frames@.take(f as int)),
        decreases frames@.len() - f,
    {
        let (l, r) = frames[f];
        out.push(l);
        out.push(r);
        assert(out@ =~= interleaved(frames@.take(f + 1)));
        f = f + 1;
    }
    assert(frames@.take(f as int) =~= frames@);
    out
}

/// Captured samples on their way to the target rate.
pub enum Converted<T> {
    /// Interleaved stereo at the target rate.
    Ready(Vec<T>),
    /// Stereo frames at another rate, to be resampled.
    Resample(Vec<(T, T)>),
}

/// Converts interleaved samples of any channel count to interleaved stereo, as far as that
/// takes no arithmetic.
pub fn convert_to_stereo_48k<T: Copy>(input: &[T], in_channels: usize, in_rate: u32) -> (r:
    Converted<T>)
    ensures
        match r {
            Converted::Ready(out) => {
                &&& in_rate == TARGET_SAMPLE_RATE || stereo(input@, in_channels as int).len() == 0
                &&& out@ == interleaved(stereo(input@, in_channels as int))
            },
            Converted::Resample(frames) => {
                &&& in_rate != TARGET_SAMPLE_RATE
                &&& frames@.len() > 0
                &&& frames@ == stereo(input@, in_channels as int)
            },
        },
{
    let frames = to_stereo(input, in_channels);
    if in_rate == TARGET_SAMPLE_RATE || frames.len() == 0 {
        Converted::Ready(interleave(&frames))
    } else {
        Converted::Resample(frames)
    }
}

/// The two frames between which the resampler interpolates at the place `idx`; the last one
/// has itself for a neighbour.
pub fn neighbours<T: Copy>(frames: &Vec<(T, T)>, idx: usize) -> (r: ((T, T), (T, T)))
    requires
        idx < frames@.len(),
    ensures
        r.0 == frames@[idx as int],
        r.1 == frames@[if idx + 1 < frames@.len() { idx + 1 } else { idx as int }],
{
    let next = if idx < frames.len() - 1 { idx + 1 } else { idx };
    (frames[idx], frames[next])
}

/// The whole chunks that `samples` fill.
pub open spec fn chunk_count(samples: nat) -> nat {
    samples / (CHUNK_SAMPLES as nat)
}

/// The chunk at the place `k`.
pub open spec fn chunk_at<T>(samples: Seq<T>, k: int) -> Seq<T> {
    samples.subrange(k * CHUNK_SAMPLES, (k + 1) * CHUNK_SAMPLES)
}

/// What is left behind the whole chunks.
pub open spec fn remainder<T>(samples: Seq<T>) -> Seq<T> {
    samples.skip(chunk_count(samples.len()) * CHUNK_SAMPLES)
}

/// Chunks, one behind the other.
pub open spec fn chained<T>(chunks: Seq<Vec<T>>) -> Seq<T>
    decreases chunks.len(),
{
    if chunks.len() == 0 {
        Seq::empty()
    } else {
        chained(chunks.drop_last()) + chunks.last()@
    }
}

/// Samples that do not fill a chunk yet.
pub struct Chunker<T> {
    pub pending: Vec<T>,
}

impl<T: Copy> Chunker<T> {
    /// What is pending does not fill a chunk.
    pub open spec fn wf(&self) -> bool {
        self.pending@.len() < CHUNK_SAMPLES
    }

    /// Nothing is pending.
    pub fn new() -> (r: Chunker<T>)
        ensures
            r.wf(),
            r.pending@ == Seq::<T>::empty(),
    {
        Chunker { pending: Vec::new() }
    }

    /// Takes samples in and returns the chunks that are full. No sample is lost, repeated or
    /// moved.
    pub fn handle_input(&mut self, samples: &[T]) -> (r: Vec<Vec<T>>)
        requires
            old(self).wf(),
        ensures
            final(self).wf(),
            ({
                let all = old(self).pending@ + samples@;
                &&& r@.len() == chunk_count(all.len())
                &&& forall|k: int| 0 <= k < r@.len() ==> (#[trigger] r@[k])@ == chunk_at(all, k)
                &&& final(self).pending@ == remainder(all)
            }),
    {
        let ghost start = self.pending@;
        let ghost all = start + samples@;
        let mut chunks: Vec<Vec<T>> = Vec::new();
        let mut i: usize = 0;
        proof {
            assert(samples@.take(0) =~= Seq::empty());
            assert(start + samples@.take(0) =~= start);
            assert(start.skip(0) =~= start);
        }
        while i < samples.len()
            invariant
                i <= samples@.len(),
                all == start + samples@,
                start.len() < CHUNK_SAMPLES,
                self.pending@.len() < CHUNK_SAMPLES,
                start.len() + i == chunks@.len() * CHUNK_SAMPLES + self.pending@.len(),
                self.pending@ == all.subrange(
                    chunks@.len() * CHUNK_SAMPLES,
                    start.len() + i,
                ),
                forall|k: int|
                    0 <= k < chunks@.len() ==> (#[trigger] chunks@[k])@ == chunk_at(all, k),
            decreases samples@.len() - i,
        {
            self.pending.push(samples[i]);
            i = i + 1;
            assert(self.pending@ =~= all.subrange(
                chunks@.len() * CHUNK_SAMPLES,
                start.len() + i,
            ));
            if self.pending.len() == CHUNK_SAMPLES {
                let mut full: Vec<T> = Vec::new();
                full.append(&mut self.pending);
                let ghost done = chunks@.len();
                assert(full@ =~= chunk_at(all, done as int));
                chunks.push(full);
                assert(self.pending@ =~= all.subrange(
                    chunks@.len() * CHUNK_SAMPLES,
                    start.len() + i,
                ));
            }
        }
        assert(self.pending@ =~= remainder(all));
        chunks
    }
}

/// Cutting into chunks is lossless: the chunks and the remainder, one behind the other, are
/// what went in.
pub proof fn chunks_chain_up<T>(samples: Seq<T>, chunks: Seq<Vec<T>>)
    requires
        chunks.len() == chunk_count(samples.len()),
        forall|k: int| 0 <= k < chunks.len() ==> (#[trigger] chunks[k])@ == chunk_at(samples, k),
    ensures
        chained(chunks) + remainder(samples) == samples,
        forall|k: int| 0 <= k < chunks.len() ==> (#[trigger] chunks[k])@.len() == CHUNK_SAMPLES,
{
    chain_prefix(samples, chunks, chunks.len() as int);
    assert(chunks.take(chunks.len() as int) =~= chunks);
    assert(chained(chunks) + remainder(samples) =~= samples);
}

/// The first `n` chunks, one behind the other, are the start of the samples.
proof fn chain_prefix<T>(samples: Seq<T>, chunks: Seq<Vec<T>>, n: int)
    requires
        0 <= n <= chunks.len(),
        chunks.len() == chunk_count(samples.len()),
        forall|k: int| 0 <= k < chunks.len() ==> (#[trigger] chunks[k])@ == chunk_at(samples, k),
    ensures
        chained(chunks.take(n)) == samples.take(n * CHUNK_SAMPLES),
    decreases n,
{
    if n == 0 {
        assert(samples.take(0) =~= Seq::empty());
    } else {
        chain_prefix(samples, chunks, n - 1);
        assert(chunks.take(n).drop_last() =~= chunks.take(n - 1));
        assert(chunks.take(n).last() == chunks[n - 1]);
        assert(samples.take((n - 1) * CHUNK_SAMPLES) + chunk_at(samples, n - 1) =~= samples.take(
            n * CHUNK_SAMPLES,
        ));
    }
}

/// The operating system, as far as it matters how it lets its own sound be captured.
#[derive(Debug, Clone, Copy, PartialEq, Eq, Structural)]
pub enum Platform {
    Windows,
    MacOs,
    Linux,
    Other,
}

/// The device to capture from.
#[derive(Debug, Clone, Copy, PartialEq, Eq, Structural)]
pub enum Source {
    /// The default output, in loopback.
    Output,
    /// One of the inputs.
    Input(usize),
    DefaultInput,
}

/// The input at the place `i` has a name with `mark` in it.
pub open spec fn marked(inputs: Seq<Option<String>>, mark: Seq<char>, i: int) -> bool {
    inputs[i] matches Some(name) && holds(name@, mark)
}

/// The input at the place `i` is the first with `mark` in its name.
pub open spec fn first_marked(inputs: Seq<Option<String>>, mark: Seq<char>, i: int) -> bool {
    &&& 0 <= i < inputs.len()
    &&& marked(inputs, mark, i)
    &&& forall|j: int| 0 <= j < i ==> !marked(inputs, mark, j)
}

/// No input has `mark` in its name.
pub open spec fn none_marked(inputs: Seq<Option<String>>, mark: Seq<char>) -> bool {
    forall|j: int| 0 <= j < inputs.len() ==> !marked(inputs, mark, j)
}

/// The first input with `mark` in its name.
fn find_marked(inputs: &Vec<Option<String>>, mark: &str) -> (r: Option<usize>)
    ensures
        match r {
            Some(i) => first_marked(inputs@, mark@, i as int),
            None => none_marked(inputs@, mark@),
        },
{
    let mut i: usize = 0;
    while i < inputs.len()
        invariant
            i <= inputs@.len(),
            forall|j: int| 0 <= j < i ==> !marked(inputs@, mark@, j),
        decreases inputs@.len() - i,
    {
        if let Some(name) = &inputs[i] {
            if contains(name.as_str(), mark) {
                return Some(i);
            }
        }
        i = i + 1;
    }
    None
}

/// A name, where one is known.
pub open spec fn name_or(name: Option<String>, otherwise: Seq<char>) -> Seq<char> {
    match name {
        Some(name) => name@,
        None => otherwise,
    }
}

/// The warning of a platform on which no loopback device was found.
pub open spec fn no_loopback_warning(platform: Platform) -> Seq<Seq<char>> {
    match platform {
        Platform::MacOs => seq![
            "Install BlackHole (existential.audio/blackhole) and set it as a Multi-Output to capture system audio \u{2014} currently using the microphone"@,
        ],
        Platform::Linux => seq![
            "Using microphone \u{2014} select a monitor source in pavucontrol"@,
        ],
        _ => Seq::empty(),
    }
}

/// A device that was picked.
pub struct Pick {
    pub source: Source,
    pub label: String,
    pub warnings: Vec<String>,
}

impl Pick {
    /// The pick is the microphone, for want of a loopback device.
    pub open spec fn fallback(
        self,
        platform: Platform,
        default_input: Option<String>,
    ) -> bool {
        &&& self.source == Source::DefaultInput
        &&& self.label@ == "Microphone: "@ + name_or(default_input, "default input"@)
        &&& crate::state::texts(self.warnings@) == no_loopback_warning(platform)
    }
}

/// Picks the device to capture from: on Windows the default output, if there is one (`output`
/// is its name, where it has one); elsewhere the first loopback device among `inputs`; and
/// the default input where there is none.
pub fn pick_device(
    platform: Platform,
    output: &Option<Option<String>>,
    inputs: &Vec<Option<String>>,
    default_input: &Option<String>,
) -> (r: Pick)
    ensures
        match platform {
            Platform::Windows => match *output {
                Some(name) => {
                    &&& r.source == Source::Output
                    &&& r.label@ == "WASAPI loopback: "@ + name_or(name, "default output"@)
                    &&& r.warnings@.len() == 0
                },
                None => r.fallback(platform, *default_input),
            },
            Platform::MacOs => (none_marked(inputs@, "BlackHole"@) && r.fallback(
                platform,
                *default_input,
            )) || exists|i: int|
                {
                    &&& #[trigger] first_marked(inputs@, "BlackHole"@, i)
                    &&& r.source == Source::Input(i as usize)
                    &&& r.label@ == "BlackHole: "@ + inputs@[i]->0@
                    &&& r.warnings@.len() == 0
                },
            Platform::Linux => (none_marked(inputs@, ".monitor"@) && r.fallback(
                platform,
                *default_input,
            )) || exists|i: int|
                {
                    &&& #[trigger] first_marked(inputs@, ".monitor"@, i)
                    &&& r.source == Source::Input(i as usize)
                    &&& r.label@ == "Monitor source: "@ + inputs@[i]->0@
                    &&& r.warnings@.len() == 0
                },
            Platform::Other => r.fallback(platform, *default_input),
        },
{
    let mut warnings: Vec<String> = Vec::new();
    match platform {
        Platform::Windows => {
            if let Some(name) = output {
                let shown = match name {
                    Some(name) => name.as_str(),
                    None => "default output",
                };
                return Pick {
                    source: Source::Output,
                    label: join("WASAPI loopback: ", shown),
                    warnings,
                };
            }
        },
        Platform::MacOs => {
            if let Some(i) = find_marked(inputs, "BlackHole") {
                if let Some(name) = &inputs[i] {
                    return Pick {
                        source: Source::Input(i),
                        label: join("BlackHole: ", name.as_str()),
                        warnings,
                    };
                }
            }
            warnings.push(
                "Install BlackHole (existential.audio/blackhole) and set it as a Multi-Output to capture system audio \u{2014} currently using the microphone".to_owned(),
            );
        },
        Platform::Linux => {
            if let Some(i) = find_marked(inputs, ".monitor") {
                if let Some(name) = &inputs[i] {
                    return Pick {
                        source: Source::Input(i),
                        label: join("Monitor source: ", name.as_str()),
                        warnings,
                    };
                }
            }
            warnings.push(
                "Using microphone \u{2014} select a monitor source in pavucontrol".to_owned(),
            );
        },
        Platform::Other => {},
    }
    let shown = match default_input {
        Some(name) => name.as_str(),
        None => "default input",
    };
    assert(crate::state::texts(warnings@) =~= no_loopback_warning(platform));
    Pick { source: Source::DefaultInput, label: join("Microphone: ", shown), warnings }
}

/// A single channel is heard on both sides; of several the first two are the sides. Frames that
/// are not whole are left out, and a device without channels delivers nothing.
pub proof fn channels_become_stereo<T>(input: Seq<T>, channels: int, f: int)
    ensures
        channels <= 0 ==> stereo(input, channels).len() == 0,
        channels > 0 ==> stereo(input, channels).len() == input.len() as int / channels,
        channels == 1 && 0 <= f < input.len() ==> stereo(input, 1)[f] == (input[f], input[f]),
        channels > 1 && 0 <= f < input.len() as int / channels ==> stereo(input, channels)[f] == (
            input[f * channels],
            input[f * channels + 1],
        ),
{
    if channels > 0 {
        assert(input.len() as int / channels >= 0) by (nonlinear_arith)
            requires
                channels > 0,
                input.len() >= 0,
        ;
    }
}

/// Stereo is read back from its interleaved samples.
pub proof fn stereo_reads_back<T>(frames: Seq<(T, T)>)
    ensures
        interleaved(frames).len() == 2 * frames.len(),
        stereo(interleaved(frames), 2) == frames,
{
    assert forall|f: int| 0 <= f < frames.len() implies stereo(interleaved(frames), 2)[f]
        == frames[f] by {
        assert((f * 2) / 2 == f && (f * 2 + 1) / 2 == f);
        assert(frames[f] == (frames[f].0, frames[f].1));
    }
    assert(stereo(interleaved(frames), 2) =~= frames);
}

/// An input whose name has the mark in it is not passed over: the one that is picked is that one,
/// or one before it that has the mark in its name too.
pub proof fn loopback_devices_are_found(
    inputs: Seq<Option<String>>,
    mark: Seq<char>,
    before: Seq<char>,
    after: Seq<char>,
    i: int,
    j: int,
)
    requires
        0 <= j < inputs.len(),
        inputs[j] matches Some(name) && name@ == (before + mark) + after,
    ensures
        !none_marked(inputs, mark),
        first_marked(inputs, mark, i) ==> 0 <= i <= j && (inputs[i] matches Some(name) && exists|
            a: Seq<char>,
            b: Seq<char>,
        |
            name@ == #[trigger] ((a + mark) + b)),
{
    parts_stand_between(inputs[j]->0@, mark);
    assert(marked(inputs, mark, j));
    if first_marked(inputs, mark, i) {
        parts_stand_between(inputs[i]->0@, mark);
    }
}

/// The microphone is the choice for want of a better one, by its name, and where the platform has
/// loopback devices the user is warned.
pub proof fn microphones_are_named(pick: Pick, platform: Platform, default_input: Option<String>)
    requires
        pick.fallback(platform, default_input),
    ensures
        pick.source is DefaultInput,
        default_input matches Some(name) ==> pick.label@ == "Microphone: "@ + name@,
        default_input is None ==> pick.label@ == "Microphone: "@ + "default input"@,
        pick.warnings@.len() == if platform is MacOs || platform is Linux {
            1int
        } else {
            0
        },
{
    assert(crate::state::texts(pick.warnings@).len() == pick.warnings@.len());
}

/// A device that has a name is called by it, and one that has none by what it is.
pub proof fn devices_are_called_by_their_name(name: String, otherwise: Seq<char>)
    ensures
        name_or(Some(name), otherwise) == name@,
        name_or(None, otherwise) == otherwise,
{
}

} // verus!
