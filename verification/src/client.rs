//! A native speaker: its clock, its queue and its output.
//!
//! The speaker estimates the master's clock from its pings, keeps the chunks it receives in
//! the order of their times, and feeds what is due to the sound device.

#[allow(unused_imports)]
use crate::capture::frame_fits;
use crate::dsp::DspChain;
use crate::frame::decode_audio_frame;
#[allow(unused_imports)]
use crate::frame::{frame_payload, frame_time, is_audio, pcm_samples};
#[allow(unused_imports)]
use crate::json::{flag_of, number_of, object_text, text_members, text_of};
use crate::json::{flag_member, number_member, parse, text_member, Parsed};
use crate::message::hello_record;
#[allow(unused_imports)]
use crate::message::hello_members;
use crate::order::median;
#[allow(unused_imports)]
use crate::order::middle;
use crate::quantity::{Quantity, ZERO};
#[allow(unused_imports)]
use crate::relay::{native_hello_is_understood, text_hello};
use crate::socket::Incoming;
use crate::state::{
    borrowed, pan_from_str, role_from_str, App, AppState, ClientConfig, ClientStatus, Status,
    DEFAULT_CROSSOVER, DEFAULT_GAIN,
};
#[allow(unused_imports)]
use crate::state::{
    default_config, initial_status, pan_meant, role_meant, words_of_the_protocol, words_read_back,
    Pan, Role,
};
use crate::text::same;
use std::collections::VecDeque;
use vstd::prelude::*;
use vstd::string::*;

verus! {

/// How many samples of the clock are kept.
pub const CLOCK_SAMPLES: usize = 15;

/// The window after another sample: the oldest one makes room.
pub open spec fn slid(window: Seq<Quantity>, sample: Quantity) -> Seq<Quantity> {
    if window.len() >= CLOCK_SAMPLES {
        window.skip(1).push(sample)
    } else {
        window.push(sample)
    }
}

/// The window after all these samples.
pub open spec fn window_after(history: Seq<Quantity>) -> Seq<Quantity>
    decreases history.len(),
{
    if history.len() == 0 {
        Seq::empty()
    } else {
        slid(window_after(history.drop_last()), history.last())
    }
}

/// The window holds the last fifteen samples, or all of them while there are fewer.
pub proof fn window_holds_the_latest(history: Seq<Quantity>)
    ensures
        window_after(history) == if history.len() <= 15 {
            history
        } else {
            history.skip(history.len() - 15)
        },
    decreases history.len(),
{
    if history.len() > 0 {
        window_holds_the_latest(history.drop_last());
        if history.len() <= CLOCK_SAMPLES {
            assert(history.drop_last().push(history.last()) =~= history);
        } else if history.len() == CLOCK_SAMPLES + 1 {
            assert(history.drop_last().skip(1).push(history.last()) =~= history.skip(1));
        } else {
            let n = history.len() - 1 - CLOCK_SAMPLES;
            assert(history.drop_last().skip(n).skip(1).push(history.last()) =~= history.skip(
                n + 1,
            ));
        }
    } else {
        assert(window_after(history) =~= history);
    }
}

/// An estimate of how far the master's clock is ahead.
pub struct Clock {
    pub samples: VecDeque<Quantity>,
    pub offset_ms: Quantity,
}

impl Clock {
    /// The window is not overfull.
    pub open spec fn wf(&self) -> bool {
        self.samples@.len() <= CLOCK_SAMPLES
    }

    /// A clock that has not been compared yet.
    pub fn new() -> (r: Clock)
        ensures
            r.wf(),
            r.samples@ == Seq::<Quantity>::empty(),
            r.offset_ms == (Quantity { bits: ZERO }),
    {
        Clock { samples: VecDeque::new(), offset_ms: Quantity::new(ZERO) }
    }

    /// Takes in another measurement; the estimate is the median of the window.
    pub fn record(&mut self, offset: Quantity)
        requires
            old(self).wf(),
            !offset.nan(),
        ensures
            final(self).wf(),
            final(self).samples@ == slid(old(self).samples@, offset),
            middle(final(self).offset_ms, final(self).samples@),
    {
        if self.samples.len() >= CLOCK_SAMPLES {
            let _ = self.samples.pop_front();
        }
        self.samples.push_back(offset);
        assert(self.samples@ =~= slid(old(self).samples@, offset));
        let mut list: Vec<Quantity> = Vec::new();
        let mut i: usize = 0;
        while i < self.samples.len()
            invariant
                i <= self.samples@.len(),
                list@ == self.samples@.take(i as int),
            decreases self.samples@.len() - i,
        {
            list.push(self.samples[i]);
            assert(self.samples@.take(i + 1) =~= self.samples@.take(i as int).push(
                self.samples@[i as int],
            ));
            i = i + 1;
        }
        assert(list@ =~= self.samples@);
        self.offset_ms = median(&list);
    }
}

/// A chunk that waits for its time.
pub struct QueuedChunk {
    pub play_at_local_ms: Quantity,
    pub pcm: Vec<i16>,
}

/// A chunk that waits for its time.
pub struct Queued {
    pub play_at: Quantity,
    pub pcm: Seq<i16>,
}

impl View for QueuedChunk {
    type V = Queued;

    open spec fn view(&self) -> Queued {
        Queued { play_at: self.play_at_local_ms, pcm: self.pcm@ }
    }
}

/// The chunks are in the order of their times.
pub open spec fn timely(queue: Seq<Queued>) -> bool {
    forall|i: int, j: int|
        0 <= i < j < queue.len() ==> (#[trigger] queue[i]).play_at.ordinal() <= (
        #[trigger] queue[j]).play_at.ordinal()
}

/// How many chunks at the head are not behind `x`.
pub open spec fn place(queue: Seq<Queued>, x: Quantity) -> nat
    decreases queue.len(),
{
    if queue.len() > 0 && queue[0].play_at.ordinal() <= x.ordinal() {
        1 + place(queue.skip(1), x)
    } else {
        0
    }
}

/// How many chunks at the head are due by `limit`.
pub open spec fn due(queue: Seq<Queued>, limit: Quantity) -> nat
    decreases queue.len(),
{
    if queue.len() > 0 && queue[0].play_at.at_most(limit) {
        1 + due(queue.skip(1), limit)
    } else {
        0
    }
}

/// The samples of those chunks that do not lie before `late`.
pub open spec fn playable(queue: Seq<Queued>, late: Quantity) -> Seq<Seq<i16>>
    decreases queue.len(),
{
    if queue.len() == 0 {
        Seq::empty()
    } else if queue.last().play_at.below(late) {
        playable(queue.drop_last(), late)
    } else {
        playable(queue.drop_last(), late).push(queue.last().pcm)
    }
}

/// The views of some chunks of samples.
pub open spec fn waves(list: Seq<Vec<i16>>) -> Seq<Seq<i16>> {
    list.map_values(|pcm: Vec<i16>| pcm@)
}

/// The place of a time parts the chunks that are not later from those that are.
proof fn place_bounds(queue: Seq<Queued>, x: Quantity)
    requires
        timely(queue),
    ensures
        place(queue, x) <= queue.len(),
        forall|i: int|
            0 <= i < place(queue, x) ==> (#[trigger] queue[i]).play_at.ordinal() <= x.ordinal(),
        forall|i: int|
            place(queue, x) <= i < queue.len() ==> (#[trigger] queue[i]).play_at.ordinal()
                > x.ordinal(),
    decreases queue.len(),
{
    if queue.len() > 0 {
        let rest = queue.skip(1);
        assert(timely(rest)) by {
            assert forall|i: int, j: int| 0 <= i < j < rest.len() implies (
            #[trigger] rest[i]).play_at.ordinal() <= (#[trigger] rest[j]).play_at.ordinal() by {
                assert(rest[i] == queue[i + 1] && rest[j] == queue[j + 1]);
            }
        }
        if queue[0].play_at.ordinal() <= x.ordinal() {
            place_bounds(rest, x);
            assert forall|i: int| 0 <= i < place(queue, x) implies (
            #[trigger] queue[i]).play_at.ordinal() <= x.ordinal() by {
                if i > 0 {
                    assert(queue[i] == rest[i - 1]);
                }
            }
            assert forall|i: int| place(queue, x) <= i < queue.len() implies (
            #[trigger] queue[i]).play_at.ordinal() > x.ordinal() by {
                assert(queue[i] == rest[i - 1]);
            }
        } else {
            assert forall|i: int| 0 <= i < queue.len() implies (
            #[trigger] queue[i]).play_at.ordinal() > x.ordinal() by {
                if i > 0 {
                    assert(queue[0].play_at.ordinal() <= queue[i].play_at.ordinal());
                }
            }
        }
    }
}

/// The chunks that wait for their time.
pub struct PlayQueue {
    pub chunks: Vec<QueuedChunk>,
}

impl View for PlayQueue {
    type V = Seq<Queued>;

    open spec fn view(&self) -> Seq<Queued> {
        self.chunks@.map_values(|chunk: QueuedChunk| chunk@)
    }
}

impl PlayQueue {
    /// The chunks are in the order of their times.
    pub open spec fn wf(&self) -> bool {
        timely(self@)
    }

    /// Nothing waits.
    pub fn new() -> (r: PlayQueue)
        ensures
            r.wf(),
            r@ == Seq::<Queued>::empty(),
    {
        let r = PlayQueue { chunks: Vec::new() };
        assert(r@ =~= Seq::<Queued>::empty());
        r
    }

    /// Queues a chunk, behind those that are not later. A chunk whose time has passed by
    /// `now` is dropped.
    pub fn push(&mut self, play_at: Quantity, now: Quantity, pcm: Vec<i16>)
        requires
            old(self).wf(),
        ensures
            final(self).wf(),
            final(self)@ == if play_at.below(now) {
                old(self)@
            } else {
                old(self)@.insert(
                    place(old(self)@, play_at) as int,
                    Queued { play_at, pcm: pcm@ },
                )
            },
    {
        if play_at.lt(&now) {
            return;
        }
        let ghost start = self@;
        let ghost spot = place(start, play_at) as int;
        let mut k: usize = self.chunks.len();
        proof {
            place_bounds(start, play_at);
        }
        while 0 < k && play_at.precedes(&self.chunks[k - 1].play_at_local_ms)
            invariant
                self@ == start,
                spot <= k <= self.chunks@.len(),
                forall|i: int|
                    0 <= i < spot ==> (#[trigger] start[i]).play_at.ordinal() <= play_at.ordinal(),
            decreases k,
        {
            assert(start[k - 1] == self.chunks@[k - 1]@);
            k = k - 1;
        }
        proof {
            if spot < k {
                assert(start[k - 1] == self.chunks@[k - 1]@);
                assert(start[k - 1].play_at.ordinal() > play_at.ordinal());
            }
            assert(k == spot);
        }
        let ghost chunk = Queued { play_at, pcm: pcm@ };
        self.chunks.insert(k, QueuedChunk { play_at_local_ms: play_at, pcm });
        assert(self@ =~= start.insert(spot, chunk));
        assert forall|i: int, j: int| 0 <= i < j < self@.len() implies (
        #[trigger] self@[i]).play_at.ordinal() <= (#[trigger] self@[j]).play_at.ordinal() by {
            let a = if i < spot { i } else { i - 1 };
            let b = if j < spot { j } else { j - 1 };
            if i != spot {
                assert(self@[i] == start[a]);
            }
            if j != spot {
                assert(self@[j] == start[b]);
            }
        }
    }

    /// Takes out every chunk that is due by `limit`, and returns the samples of those that do
    /// not lie before `late`, in the order of their times.
    pub fn take_due(&mut self, limit: Quantity, late: Quantity) -> (r: Vec<Vec<i16>>)
        requires
            old(self).wf(),
        ensures
            final(self).wf(),
            final(self)@ == old(self)@.skip(due(old(self)@, limit) as int),
            waves(r@) == playable(old(self)@.take(due(old(self)@, limit) as int), late),
    {
        let ghost start = self@;
        let mut out: Vec<Vec<i16>> = Vec::new();
        let ghost mut n: int = 0;
        proof {
            assert(start.skip(0) =~= start);
            assert(start.take(0) =~= Seq::empty());
            assert(waves(out@) =~= Seq::empty());
        }
        while self.chunks.len() > 0 && self.chunks[0].play_at_local_ms.le(&limit)
            invariant
                0 <= n <= start.len(),
                self@ == start.skip(n),
                due(start, limit) == n + due(start.skip(n), limit),
                waves(out@) == playable(start.take(n), late),
            decreases start.len() - n,
        {
            let ghost before = out@;
            let ghost queue = self.chunks@;
            let ghost waiting = self@;
            assert(waiting[0] == queue[0]@);
            let chunk = self.chunks.remove(0);
            assert(self@ =~= start.skip(n + 1)) by {
                assert(self.chunks@ =~= queue.remove(0));
                assert forall|i: int| 0 <= i < self@.len() implies self@[i] == start.skip(
                    n + 1,
                )[i] by {
                    assert(self@[i] == queue[i + 1]@);
                    assert(waiting[i + 1] == queue[i + 1]@);
                    assert(waiting[i + 1] == start[n + i + 1]);
                }
            }
            assert(start[n] == chunk@);
            assert(start.take(n + 1).drop_last() =~= start.take(n));
            assert(start.skip(n).skip(1) =~= start.skip(n + 1));
            if !chunk.play_at_local_ms.lt(&late) {
                out.push(chunk.pcm);
                assert(waves(out@) =~= waves(before).push(chunk.pcm@));
            }
            proof {
                n = n + 1;
            }
        }
        proof {
            if self@.len() > 0 {
                assert(self@[0] == self.chunks@[0]@);
            }
            assert forall|i: int, j: int| 0 <= i < j < self@.len() implies (
            #[trigger] self@[i]).play_at.ordinal() <= (#[trigger] self@[j]).play_at.ordinal() by {
                assert(self@[i] == start[n + i] && self@[j] == start[n + j]);
            }
        }
        out
    }
}

/// What is taken out comes before what stays, and nothing that is due stays at the head.
pub proof fn due_chunks_come_first(queue: Seq<Queued>, limit: Quantity, i: int, j: int)
    requires
        timely(queue),
        0 <= i < due(queue, limit) <= j < queue.len(),
    ensures
        queue[i].play_at.ordinal() <= queue[j].play_at.ordinal(),
        queue[i].play_at.at_most(limit),
        !queue[due(queue, limit) as int].play_at.at_most(limit),
{
    due_bounds(queue, limit);
}

/// What is counted as due is due, and what comes next is not.
proof fn due_bounds(queue: Seq<Queued>, limit: Quantity)
    ensures
        due(queue, limit) <= queue.len(),
        forall|i: int|
            0 <= i < due(queue, limit) ==> (#[trigger] queue[i]).play_at.at_most(limit),
        due(queue, limit) < queue.len() ==> !queue[due(queue, limit) as int].play_at.at_most(limit),
    decreases queue.len(),
{
    if queue.len() > 0 && queue[0].play_at.at_most(limit) {
        let rest = queue.skip(1);
        due_bounds(rest, limit);
        assert forall|i: int| 0 <= i < due(queue, limit) implies (
        #[trigger] queue[i]).play_at.at_most(limit) by {
            if i > 0 {
                assert(queue[i] == rest[i - 1]);
            }
        }
        if due(queue, limit) < queue.len() {
            assert(queue[due(queue, limit) as int] == rest[due(rest, limit) as int]);
        }
    }
}

/// Among chunks that are all in time none is left out: what is taken is played whole and in
/// order.
pub proof fn timely_chunks_are_all_played(queue: Seq<Queued>, late: Quantity)
    requires
        forall|i: int| 0 <= i < queue.len() ==> !(#[trigger] queue[i]).play_at.below(late),
    ensures
        playable(queue, late) == queue.map_values(|chunk: Queued| chunk.pcm),
    decreases queue.len(),
{
    let all = queue.map_values(|chunk: Queued| chunk.pcm);
    if queue.len() > 0 {
        let front = queue.drop_last();
        assert forall|i: int| 0 <= i < front.len() implies !(
        #[trigger] front[i]).play_at.below(late) by {
            assert(front[i] == queue[i]);
        }
        timely_chunks_are_all_played(front, late);
        assert(!queue[queue.len() - 1].play_at.below(late));
        assert(all =~= front.map_values(|chunk: Queued| chunk.pcm).push(queue.last().pcm));
    } else {
        assert(all =~= Seq::empty());
    }
}

/// Two chunks with different times wait in the same order, whichever arrived first.
pub proof fn arrival_order_does_not_matter(queue: Seq<Queued>, a: Queued, b: Queued)
    requires
        timely(queue),
        a.play_at.ordinal() < b.play_at.ordinal(),
    ensures
        ({
            let a_first = queue.insert(place(queue, a.play_at) as int, a);
            let b_first = queue.insert(place(queue, b.play_at) as int, b);
            a_first.insert(place(a_first, b.play_at) as int, b) == b_first.insert(
                place(b_first, a.play_at) as int,
                a,
            )
        }),
{
    let i = place(queue, a.play_at) as int;
    let j = place(queue, b.play_at) as int;
    place_bounds(queue, a.play_at);
    place_bounds(queue, b.play_at);
    if j < i {
        assert(queue[j].play_at.ordinal() <= a.play_at.ordinal());
    }
    let a_first = queue.insert(i, a);
    let b_first = queue.insert(j, b);
    insert_is_timely(queue, a);
    insert_is_timely(queue, b);
    place_bounds(a_first, b.play_at);
    place_bounds(b_first, a.play_at);
    let p = place(a_first, b.play_at) as int;
    let q = place(b_first, a.play_at) as int;
    assert(p == j + 1) by {
        if p < j + 1 {
            if p < i {
                assert(a_first[p] == queue[p]);
            } else if p == i {
                assert(a_first[p] == a);
            } else {
                assert(a_first[p] == queue[p - 1]);
            }
        } else if p > j + 1 {
            assert(a_first[j + 1] == queue[j]);
        }
    }
    assert(q == i) by {
        if q < i {
            assert(b_first[q] == queue[q]);
        } else if q > i {
            if i < j {
                assert(b_first[i] == queue[i]);
            } else {
                assert(b_first[i] == b);
            }
        }
    }
    assert(a_first.insert(p, b) =~= b_first.insert(q, a));
}

/// A chunk that is queued in its place keeps the order.
proof fn insert_is_timely(queue: Seq<Queued>, chunk: Queued)
    requires
        timely(queue),
    ensures
        timely(queue.insert(place(queue, chunk.play_at) as int, chunk)),
{
    let spot = place(queue, chunk.play_at) as int;
    let after = queue.insert(spot, chunk);
    place_bounds(queue, chunk.play_at);
    assert forall|i: int, j: int| 0 <= i < j < after.len() implies (
    #[trigger] after[i]).play_at.ordinal() <= (#[trigger] after[j]).play_at.ordinal() by {
        let a = if i < spot { i } else { i - 1 };
        let b = if j < spot { j } else { j - 1 };
        if i != spot {
            assert(after[i] == queue[a]);
        }
        if j != spot {
            assert(after[j] == queue[b]);
        }
    }
}

/// The frame at the place `f` of the samples that are due; silence where they have run out.
pub open spec fn due_frame(carried: Seq<i16>, f: int) -> (i16, i16) {
    if 2 * f + 1 < carried.len() {
        (carried[2 * f], carried[2 * f + 1])
    } else {
        (0, 0)
    }
}

/// Half of a number, rounded towards zero.
pub open spec fn half(x: int) -> int {
    if x >= 0 {
        x / 2
    } else {
        -((-x) / 2)
    }
}

/// What one channel of a device with `channels` channels plays of a frame: a single one plays
/// the mean, and of several the first two play the sides.
pub open spec fn channel_sample(frame: (i16, i16), channels: int, channel: int) -> i16 {
    if channels == 1 {
        half(frame.0 + frame.1) as i16
    } else if channel == 0 {
        frame.0
    } else if channel == 1 {
        frame.1
    } else {
        0
    }
}

/// What stands at the place `k` of the device's buffer.
pub open spec fn output_sample(carried: Seq<i16>, channels: int, k: int) -> i16 {
    channel_sample(due_frame(carried, k / channels), channels, k % channels)
}

/// What is left of the samples after `frames` frames were played.
pub open spec fn unplayed(carried: Seq<i16>, frames: int) -> Seq<i16> {
    if 2 * frames <= carried.len() {
        carried.skip(2 * frames)
    } else {
        Seq::empty()
    }
}

/// Fills the buffer of a device with the samples that are due, converted to its format. Samples
/// behind the last whole frame of the buffer are left alone.
pub fn fill_output<T: Copy, F: Fn(i16) -> T>(
    carry: &mut VecDeque<i16>,
    data: &mut [T],
    out_channels: usize,
    convert: F,
)
    requires
        out_channels > 0,
        forall|s: i16| #[trigger] call_requires(convert, (s,)),
    ensures
        final(data)@.len() == old(data)@.len(),
        ({
            let frames = old(data)@.len() as int / out_channels as int;
            &&& final(carry)@ == unplayed(old(carry)@, frames)
            &&& forall|k: int|
                0 <= k < frames * out_channels ==> call_ensures(
                    convert,
                    (output_sample(old(carry)@, out_channels as int, k),),
                    #[trigger] final(data)@[k],
                )
            &&& forall|k: int|
                frames * out_channels <= k < old(data)@.len() ==> #[trigger] final(data)@[k]
                    == old(data)@[k]
        }),
{
    let ghost start = carry@;
    let ghost first = data@;
    let ghost channels = out_channels as int;
    let size = data.len();
    let frames = size / out_channels;
    let mut f: usize = 0;
    let mut base: usize = 0;
    assert(start.skip(0) =~= start);
    while f < frames
        invariant
            out_channels > 0,
            channels == out_channels,
            forall|s: i16| #[trigger] call_requires(convert, (s,)),
            size == first.len(),
            data@.len() == size,
            frames == first.len() as int / channels,
            f <= frames,
            base == f * channels,
            base <= size,
            carry@ == unplayed(start, f as int),
            forall|k: int|
                0 <= k < base ==> call_ensures(
                    convert,
                    (output_sample(start, channels, k),),
                    #[trigger] data@[k],
                ),
            forall|k: int| base <= k < size ==> #[trigger] data@[k] == first[k],
        decreases frames - f,
    {
        proof {
            frame_fits(first.len() as int, channels, f as int);
        }
        let (l, r) = match (carry.pop_front(), carry.pop_front()) {
            (Some(l), Some(r)) => (l, r),
            _ => (0i16, 0i16),
        };
        assert((l, r) == due_frame(start, f as int));
        assert(carry@ =~= unplayed(start, f + 1));
        if out_channels == 1 {
            let sum: i32 = l as i32 + r as i32;
            let mean: i16 = if sum >= 0 { (sum / 2) as i16 } else { (-((-sum) / 2)) as i16 };
            proof {
                slot(channels, f as int, 0);
            }
            data[base] = convert(mean);
        } else {
            proof {
                slot(channels, f as int, 0);
                slot(channels, f as int, 1);
            }
            data[base] = convert(l);
            data[base + 1] = convert(r);
            let mut ch: usize = 2;
            while ch < out_channels
                invariant
                    2 <= ch <= out_channels,
                    channels == out_channels,
                    forall|s: i16| #[trigger] call_requires(convert, (s,)),
                    size == first.len(),
                    data@.len() == size,
                    base == f * channels,
                    base + out_channels <= size,
                    forall|k: int|
                        0 <= k < base + ch ==> call_ensures(
                            convert,
                            (output_sample(start, channels, k),),
                            #[trigger] data@[k],
                        ),
                    forall|k: int| base + ch <= k < size ==> #[trigger] data@[k] == first[k],
                decreases out_channels - ch,
            {
                proof {
                    slot(channels, f as int, ch as int);
                }
                data[base + ch] = convert(0);
                ch = ch + 1;
            }
        }
        f = f + 1;
        base = base + out_channels;
    }
}

/// Which frame and which channel a place of the buffer belongs to.
proof fn slot(channels: int, f: int, channel: int)
    requires
        0 <= f,
        0 <= channel < channels,
    ensures
        (f * channels + channel) / channels == f,
        (f * channels + channel) % channels == channel,
{
    vstd::arithmetic::div_mod::lemma_fundamental_div_mod_converse(
        f * channels + channel,
        channels,
        f,
        channel,
    );
}

/// A sample in the unsigned format of some devices.
pub fn sample_to_u16(s: i16) -> (r: u16)
    ensures
        r == s + 32768,
{
    (s as i32 + 32768) as u16
}

/// What a master tells a speaker.
#[derive(Debug, Clone, Copy, PartialEq, Eq, Structural)]
pub enum Heard {
    /// The answer to a ping.
    Pong { t0: Quantity, t1: Quantity },
    /// The settings of the speaker; one that the group holds for a sync outlier is `suspect`.
    Config { config: ClientConfig, crossover_hz: Quantity, suspect: bool },
    Ignored,
}

/// A number, where one is given.
pub open spec fn number_or(number: Option<Quantity>, otherwise: u64) -> Quantity {
    match number {
        Some(number) => number,
        None => Quantity { bits: otherwise },
    }
}

/// What a text with these members tells.
pub open spec fn heard_in(members: Map<Seq<char>, Parsed>) -> Heard {
    let kind = text_of(members, "type"@);
    if kind == Some("pong"@) {
        Heard::Pong {
            t0: number_or(number_of(members, "t0"@), ZERO),
            t1: number_or(number_of(members, "t1"@), ZERO),
        }
    } else if kind == Some("config"@) {
        Heard::Config {
            config: ClientConfig {
                role: role_meant(text_of(members, "role"@)),
                pan: pan_meant(text_of(members, "pan"@)),
                gain: number_or(number_of(members, "gain"@), DEFAULT_GAIN),
            },
            crossover_hz: number_or(number_of(members, "crossover_hz"@), DEFAULT_CROSSOVER),
            suspect: flag_of(members, "suspect"@) == Some(true),
        }
    } else {
        Heard::Ignored
    }
}

/// What a text that the master sends tells.
pub open spec fn text_heard(text: Seq<char>) -> Heard {
    match text_members(text) {
        Some(members) => heard_in(members),
        None => Heard::Ignored,
    }
}

/// A number, where one is given.
fn or_bits(number: Option<Quantity>, otherwise: u64) -> (r: Quantity)
    ensures
        r == number_or(number, otherwise),
{
    match number {
        Some(number) => number,
        None => Quantity::new(otherwise),
    }
}

/// Reads what the master tells. The numbers are as they were sent; a caller that keeps them in
/// a narrower format narrows them before it hands them on.
pub fn read_text(text: &str) -> (r: Heard)
    ensures
        r == text_heard(text@),
{
    let value = match parse(text) {
        Some(value) => value,
        None => {
            return Heard::Ignored;
        },
    };
    let kind = match text_member(&value, "type") {
        Some(kind) => kind,
        None => {
            return Heard::Ignored;
        },
    };
    if same(kind.as_str(), "pong") {
        Heard::Pong {
            t0: or_bits(number_member(&value, "t0"), ZERO),
            t1: or_bits(number_member(&value, "t1"), ZERO),
        }
    } else if same(kind.as_str(), "config") {
        let role = text_member(&value, "role");
        let pan = text_member(&value, "pan");
        let config = ClientConfig {
            role: role_from_str(borrowed(&role)),
            pan: pan_from_str(borrowed(&pan)),
            gain: or_bits(number_member(&value, "gain"), DEFAULT_GAIN),
        };
        let suspect = match flag_member(&value, "suspect") {
            Some(suspect) => suspect,
            None => false,
        };
        Heard::Config {
            config,
            crossover_hz: or_bits(number_member(&value, "crossover_hz"), DEFAULT_CROSSOVER),
            suspect,
        }
    } else {
        Heard::Ignored
    }
}

/// What a speaker does about something that arrives.
pub enum ClientStep {
    /// The clocks were compared.
    Pong { t0: Quantity, t1: Quantity },
    Config { config: ClientConfig, crossover_hz: Quantity, suspect: bool },
    /// A chunk, with its time by the master's clock.
    Audio { play_at: Quantity, pcm: Vec<i16> },
    Pass,
    /// The connection is over.
    Stop,
}

/// What a speaker does about something that arrives.
pub enum ClientMove {
    Pong { t0: Quantity, t1: Quantity },
    Config { config: ClientConfig, crossover_hz: Quantity, suspect: bool },
    Audio { play_at: Quantity, pcm: Seq<i16> },
    Pass,
    Stop,
}

impl View for ClientStep {
    type V = ClientMove;

    open spec fn view(&self) -> ClientMove {
        match self {
            ClientStep::Pong { t0, t1 } => ClientMove::Pong { t0: *t0, t1: *t1 },
            ClientStep::Config { config, crossover_hz, suspect } => ClientMove::Config {
                config: *config,
                crossover_hz: *crossover_hz,
                suspect: *suspect,
            },
            ClientStep::Audio { play_at, pcm } => ClientMove::Audio {
                play_at: *play_at,
                pcm: pcm@,
            },
            ClientStep::Pass => ClientMove::Pass,
            ClientStep::Stop => ClientMove::Stop,
        }
    }
}

/// What a speaker does about something that arrives.
pub open spec fn client_move(incoming: Incoming) -> ClientMove {
    match incoming {
        Incoming::Text(text) => match text_heard(text@) {
            Heard::Pong { t0, t1 } => ClientMove::Pong { t0, t1 },
            Heard::Config { config, crossover_hz, suspect } => ClientMove::Config {
                config,
                crossover_hz,
                suspect,
            },
            Heard::Ignored => ClientMove::Pass,
        },
        Incoming::Binary(bin) => if is_audio(bin@) {
            ClientMove::Audio {
                play_at: frame_time(bin@),
                pcm: pcm_samples(frame_payload(bin@)),
            }
        } else {
            ClientMove::Pass
        },
        Incoming::Other => ClientMove::Pass,
        Incoming::Close | Incoming::Gone => ClientMove::Stop,
    }
}

/// What a speaker does about something that arrives.
pub fn client_step(incoming: &Incoming) -> (r: ClientStep)
    ensures
        r@ == client_move(*incoming),
{
    match incoming {
        Incoming::Text(text) => match read_text(text.as_str()) {
            Heard::Pong { t0, t1 } => ClientStep::Pong { t0, t1 },
            Heard::Config { config, crossover_hz, suspect } => ClientStep::Config {
                config,
                crossover_hz,
                suspect,
            },
            Heard::Ignored => ClientStep::Pass,
        },
        Incoming::Binary(bin) => match decode_audio_frame(bin.as_slice()) {
            Some((play_at, pcm)) => ClientStep::Audio { play_at, pcm },
            None => ClientStep::Pass,
        },
        Incoming::Other => ClientStep::Pass,
        Incoming::Close | Incoming::Gone => ClientStep::Stop,
    }
}

/// The name that a speaker gives itself.
pub fn speaker_name(hostname: Option<String>) -> (r: String)
    ensures
        r@ == match hostname {
            Some(name) => name@,
            None => "wavefront-client"@,
        },
{
    match hostname {
        Some(name) => name,
        None => "wavefront-client".to_owned(),
    }
}

/// What a native speaker says first. A relay that hears it admits the speaker by its name.
pub fn hello_text(name: &str) -> (r: String)
    ensures
        r@ == object_text(hello_members(name@)),
        text_hello(r@) == Some((name@, "native"@)),
{
    match hello_record(name).text() {
        Some(text) => {
            proof {
                native_hello_is_understood(text@, name@);
            }
            text
        },
        None => {
            assert(false);
            String::new()
        },
    }
}

/// What a speaker keeps between the network and the sound device.
pub struct Pipeline {
    pub queue: PlayQueue,
    pub clock: Clock,
    pub dsp: DspChain,
    /// The group holds this speaker for a sync outlier: it stays silent.
    pub muted: bool,
    /// Samples that are due and not yet played.
    pub carry: VecDeque<i16>,
}

/// Samples, or as much silence.
pub open spec fn sounding(pcm: Seq<i16>, muted: bool) -> Seq<i16> {
    if muted {
        Seq::new(pcm.len(), |i: int| 0i16)
    } else {
        pcm
    }
}

impl Pipeline {
    /// Every part is in order.
    pub open spec fn wf(&self) -> bool {
        self.queue.wf() && self.clock.wf() && self.dsp.wf()
    }

    /// A speaker that has heard nothing yet.
    pub fn new() -> (r: Pipeline)
        ensures
            r.wf(),
            r.queue@ == Seq::<Queued>::empty(),
            r.clock.samples@ == Seq::<Quantity>::empty(),
            r.clock.offset_ms == (Quantity { bits: ZERO }),
            r.dsp.config == default_config(),
            r.dsp.freq == (Quantity { bits: DEFAULT_CROSSOVER }),
            !r.muted,
            r.carry@ == Seq::<i16>::empty(),
    {
        Pipeline {
            queue: PlayQueue::new(),
            clock: Clock::new(),
            dsp: DspChain::new(ClientConfig::default(), Quantity::new(DEFAULT_CROSSOVER)),
            muted: false,
            carry: VecDeque::new(),
        }
    }

    /// Applies settings, and returns whether the filters are to be built anew; `moved` tells
    /// whether the crossover frequency has moved.
    pub fn configure(
        &mut self,
        config: ClientConfig,
        crossover_hz: Quantity,
        moved: bool,
        suspect: bool,
    ) -> (r: bool)
        requires
            old(self).wf(),
        ensures
            final(self).wf(),
            r == old(self).dsp.starts_afresh(config, moved),
            final(self).dsp.config == config,
            final(self).dsp.freq == if r {
                crossover_hz
            } else {
                old(self).dsp.freq
            },
            final(self).muted == suspect,
            final(self).queue == old(self).queue,
            final(self).clock == old(self).clock,
            final(self).carry == old(self).carry,
    {
        self.muted = suspect;
        self.dsp.set_config(config, crossover_hz, moved)
    }

    /// Lines up samples that are due, after they went through the filters. A muted speaker
    /// lines up as much silence.
    pub fn line_up(&mut self, pcm: &[i16])
        requires
            old(self).wf(),
        ensures
            final(self).wf(),
            final(self).carry@ == old(self).carry@ + sounding(pcm@, old(self).muted),
            final(self).queue == old(self).queue,
            final(self).clock == old(self).clock,
            final(self).dsp == old(self).dsp,
            final(self).muted == old(self).muted,
    {
        let ghost start = self.carry@;
        let ghost all = sounding(pcm@, self.muted);
        let mut i: usize = 0;
        assert(start + all.take(0) =~= start);
        while i < pcm.len()
            invariant
                i <= pcm@.len(),
                self.wf(),
                all == sounding(pcm@, self.muted),
                self.carry@ == start + all.take(i as int),
                self.queue == old(self).queue,
                self.clock == old(self).clock,
                self.dsp == old(self).dsp,
                self.muted == old(self).muted,
            decreases pcm@.len() - i,
        {
            let sample = if self.muted { 0i16 } else { pcm[i] };
            self.carry.push_back(sample);
            assert(self.carry@ =~= start + all.take(i + 1));
            i = i + 1;
        }
        assert(all.take(i as int) =~= all);
    }
}

/// A range of rates that an output device supports.
pub struct RateRange {
    pub min: u32,
    pub max: u32,
    /// It is the range of the format that is used.
    pub same_format: bool,
}

/// The device can play at the rate of the stream.
pub open spec fn plays_48k(ranges: Seq<RateRange>) -> bool {
    exists|i: int|
        0 <= i < ranges.len() && (#[trigger] ranges[i]).min <= 48_000 <= ranges[i].max
            && ranges[i].same_format
}

/// The rate to play at: the stream's, if the device supports it, else the device's own. `r.1`
/// says that the sound will run at the wrong speed.
pub fn choose_rate(device_rate: u32, ranges: &Vec<RateRange>) -> (r: (u32, bool))
    ensures
        r.0 == if plays_48k(ranges@) {
            48_000u32
        } else {
            device_rate
        },
        r.1 == (r.0 != 48_000),
{
    let mut i: usize = 0;
    while i < ranges.len()
        invariant
            i <= ranges@.len(),
            forall|j: int|
                0 <= j < i ==> !((#[trigger] ranges@[j]).min <= 48_000 <= ranges@[j].max
                    && ranges@[j].same_format),
        decreases ranges@.len() - i,
    {
        let range = &ranges[i];
        if range.min <= 48_000 && 48_000 <= range.max && range.same_format {
            assert(ranges@[i as int].same_format);
            return (48_000, false);
        }
        i = i + 1;
    }
    (device_rate, device_rate != 48_000)
}

impl App {
    /// The status of the own pipeline, if it has started, else the one it starts with.
    pub open spec fn status(self) -> Status {
        match self.client_status {
            Some(status) => status,
            None => initial_status(),
        }
    }

    /// The own pipeline is connected to `addr`.
    pub open spec fn connected(self, addr: Seq<char>) -> App {
        App {
            client_status: Some(Status { connected: true, master_addr: addr, ..self.status() }),
            ..self
        }
    }

    /// The own pipeline is not connected.
    pub open spec fn disconnected(self) -> App {
        App { client_status: Some(Status { connected: false, ..self.status() }), ..self }
    }

    /// The own pipeline was measured.
    pub open spec fn clocked(self, rtt: Quantity) -> App {
        App {
            client_status: match self.client_status {
                Some(status) => Some(Status { latency_ms: rtt, ..status }),
                None => None,
            },
            ..self
        }
    }

    /// The own pipeline got settings.
    pub open spec fn configured(self, config: ClientConfig, crossover_hz: Quantity) -> App {
        App {
            client_status: match self.client_status {
                Some(status) => Some(
                    Status {
                        role: config.role,
                        pan: config.pan,
                        gain: config.gain,
                        crossover_hz,
                        ..status
                    },
                ),
                None => None,
            },
            ..self
        }
    }
}

impl AppState {
    /// The status of the own pipeline, started if need be.
    fn take_status(&mut self) -> (r: ClientStatus)
        requires
            old(self).wf(),
        ensures
            final(self).wf(),
            r@ == old(self)@.status(),
            final(self)@ == (App { client_status: None, ..old(self)@ }),
    {
        match self.client_status.take() {
            Some(status) => status,
            None => ClientStatus::default(),
        }
    }

    /// Notes that the own pipeline is connected.
    pub fn report_connected(&mut self, addr: &str)
        requires
            old(self).wf(),
        ensures
            final(self).wf(),
            final(self)@ == old(self)@.connected(addr@),
    {
        let mut status = self.take_status();
        status.connected = true;
        status.master_addr = addr.to_owned();
        self.client_status = Some(status);
    }

    /// Notes that the own pipeline is not connected.
    pub fn report_disconnected(&mut self)
        requires
            old(self).wf(),
        ensures
            final(self).wf(),
            final(self)@ == old(self)@.disconnected(),
    {
        let mut status = self.take_status();
        status.connected = false;
        self.client_status = Some(status);
    }

    /// Notes how long the own pipeline's messages take.
    pub fn report_rtt(&mut self, rtt: Quantity)
        requires
            old(self).wf(),
        ensures
            final(self).wf(),
            final(self)@ == old(self)@.clocked(rtt),
    {
        if self.client_status.is_some() {
            let mut status = self.take_status();
            status.latency_ms = rtt;
            self.client_status = Some(status);
        }
    }

    /// Notes the settings of the own pipeline.
    pub fn report_config(&mut self, config: ClientConfig, crossover_hz: Quantity)
        requires
            old(self).wf(),
        ensures
            final(self).wf(),
            final(self)@ == old(self)@.configured(config, crossover_hz),
    {
        if self.client_status.is_some() {
            let mut status = self.take_status();
            status.role = config.role;
            status.pan = config.pan;
            status.gain = config.gain;
            status.crossover_hz = crossover_hz;
            self.client_status = Some(status);
        }
    }
}

/// A muted speaker keeps time: it plays as many samples as it would sounding, all silent.
pub proof fn muting_keeps_time(pcm: Seq<i16>, i: int)
    requires
        0 <= i < pcm.len(),
    ensures
        sounding(pcm, true).len() == sounding(pcm, false).len(),
        sounding(pcm, true)[i] == 0,
        sounding(pcm, false)[i] == pcm[i],
{
}

/// A device that runs out of samples is fed silence, and one that does not is fed all of
/// them, each once and in order.
pub proof fn output_plays_what_is_due(carried: Seq<i16>, f: int, frames: int)
    requires
        0 <= f < frames,
    ensures
        2 * f + 1 < carried.len() ==> due_frame(carried, f) == (carried[2 * f], carried[2 * f + 1]),
        2 * f + 1 >= carried.len() ==> due_frame(carried, f) == (0i16, 0i16),
        2 * frames <= carried.len() ==> carried.take(2 * frames) + unplayed(carried, frames)
            == carried,
{
    if 2 * frames <= carried.len() {
        assert(carried.take(2 * frames) + unplayed(carried, frames) =~= carried);
    }
}

/// What stands in the buffer of a device for the channel `channel` of the frame `f`: a device with
/// one channel plays the mean of both sides, rounded towards silence, and the sides may be
/// swapped; one with several plays the left side on the first, the right side on the second and
/// silence on the others. Where the samples have run out, all is silent.
pub proof fn devices_play_the_frames(
    carried: Seq<i16>,
    swapped: Seq<i16>,
    channels: int,
    f: int,
    channel: int,
)
    requires
        0 <= f,
        0 <= channel < channels,
    ensures
        ({
            let played = output_sample(carried, channels, f * channels + channel);
            if 2 * f + 1 < carried.len() {
                let (l, r) = (carried[2 * f], carried[2 * f + 1]);
                &&& channels == 1 ==> {
                    &&& -1 <= 2 * played - (l + r) <= 1
                    &&& l + r >= 0 ==> 0 <= 2 * played <= l + r
                    &&& l + r <= 0 ==> l + r <= 2 * played <= 0
                    &&& 2 * f + 1 < swapped.len() && swapped[2 * f] == r && swapped[2 * f + 1] == l
                        ==> output_sample(swapped, channels, f * channels + channel) == played
                }
                &&& channels > 1 && channel == 0 ==> played == l
                &&& channels > 1 && channel == 1 ==> played == r
                &&& channels > 1 && channel > 1 ==> played == 0
            } else {
                played == 0
            }
        }),
{
    slot(channels, f, channel);
}

/// What a device has not played yet are the samples behind those of its frames; a device that
/// asks for more than there is leaves nothing behind.
pub proof fn unplayed_samples_stay(carried: Seq<i16>, frames: int)
    requires
        0 <= frames,
    ensures
        2 * frames <= carried.len() ==> {
            &&& unplayed(carried, frames).len() == carried.len() - 2 * frames
            &&& forall|i: int|
                0 <= i < carried.len() - 2 * frames ==> #[trigger] unplayed(carried, frames)[i]
                    == carried[2 * frames + i]
        },
        2 * frames > carried.len() ==> unplayed(carried, frames).len() == 0,
{
}

/// A chunk is queued behind those that are not later and before those that are: nobody is lost,
/// and the queue stays in the order of the times.
pub proof fn chunks_wait_in_order(queue: Seq<Queued>, chunk: Queued, i: int, j: int)
    requires
        timely(queue),
        0 <= i < j <= queue.len(),
    ensures
        ({
            let spot = place(queue, chunk.play_at) as int;
            let after = queue.insert(spot, chunk);
            &&& 0 <= spot <= queue.len()
            &&& after.len() == queue.len() + 1
            &&& after[spot] == chunk
            &&& after[i].play_at.ordinal() <= after[j].play_at.ordinal()
            &&& i < spot ==> queue[i].play_at.ordinal() <= chunk.play_at.ordinal()
            &&& spot <= i ==> chunk.play_at.ordinal() < queue[i].play_at.ordinal()
        }),
{
    place_bounds(queue, chunk.play_at);
    insert_is_timely(queue, chunk);
    let after = queue.insert(place(queue, chunk.play_at) as int, chunk);
    assert(after[i].play_at.ordinal() <= after[j].play_at.ordinal());
}

/// In a queue of chunks with proper times exactly those are due that are not later than the limit.
pub proof fn due_chunks_are_those_in_time(queue: Seq<Queued>, limit: Quantity, i: int)
    requires
        timely(queue),
        forall|k: int| 0 <= k < queue.len() ==> !(#[trigger] queue[k]).play_at.nan(),
        0 <= i < queue.len(),
    ensures
        i < due(queue, limit) <==> queue[i].play_at.at_most(limit),
{
    due_bounds(queue, limit);
    let d = due(queue, limit) as int;
    if d <= i {
        assert(!queue[d].play_at.at_most(limit));
        assert(!queue[d].play_at.nan());
        if d < i {
            assert(queue[d].play_at.ordinal() <= queue[i].play_at.ordinal());
        }
    }
}

/// A chunk that is taken out is played exactly if it does not lie before the limit.
pub proof fn late_chunks_are_dropped(chunk: Queued, late: Quantity)
    ensures
        chunk.play_at.below(late) ==> playable(seq![chunk], late) == Seq::<Seq<i16>>::empty(),
        !chunk.play_at.below(late) ==> playable(seq![chunk], late) == seq![chunk.pcm],
{
    reveal_with_fuel(playable, 2);
    assert(seq![chunk].drop_last() =~= Seq::empty());
    assert(Seq::<Seq<i16>>::empty().push(chunk.pcm) =~= seq![chunk.pcm]);
}

/// Whether a chunk is played does not depend on the others, and what is played stays in order.
pub proof fn chunks_are_played_one_by_one(a: Seq<Queued>, b: Seq<Queued>, late: Quantity)
    ensures
        playable(a + b, late) == playable(a, late) + playable(b, late),
    decreases b.len(),
{
    if b.len() == 0 {
        assert(a + b =~= a);
        assert(playable(a, late) + playable(b, late) =~= playable(a, late));
    } else {
        chunks_are_played_one_by_one(a, b.drop_last(), late);
        assert((a + b).drop_last() =~= a + b.drop_last());
        assert((a + b).last() == b.last());
        assert(playable(a + b, late) =~= playable(a, late) + playable(b, late));
    }
}

/// The stream's rate is used exactly if some range of the format in use covers it.
pub proof fn covered_rates_are_used(ranges: Seq<RateRange>, i: int)
    ensures
        0 <= i < ranges.len() && ranges[i].same_format && ranges[i].min <= 48_000 && ranges[i].max
            >= 48_000 ==> plays_48k(ranges),
        (forall|k: int|
            0 <= k < ranges.len() ==> !(#[trigger] ranges[k]).same_format || ranges[k].min > 48_000
                || ranges[k].max < 48_000) ==> !plays_48k(ranges),
{
}

/// What the own pipeline reports is shown, and each report changes what it is about and nothing
/// else. Measurements and settings of a pipeline that has no status yet are passed over.
pub proof fn reports_are_shown(
    app: App,
    addr: Seq<char>,
    rtt: Quantity,
    config: ClientConfig,
    crossover_hz: Quantity,
)
    ensures
        app.connected(addr) == (App { client_status: app.connected(addr).client_status, ..app }),
        app.connected(addr).client_status matches Some(status) && status.connected
            && status.master_addr == addr,
        app.disconnected() == (App { client_status: app.disconnected().client_status, ..app }),
        app.disconnected().client_status matches Some(status) && !status.connected,
        app.client_status is None ==> {
            &&& app.connected(addr).client_status->0 == (Status {
                connected: true,
                master_addr: addr,
                ..initial_status()
            })
            &&& app.disconnected().client_status->0 == initial_status()
            &&& app.clocked(rtt) == app
            &&& app.configured(config, crossover_hz) == app
        },
        app.client_status matches Some(before) ==> {
            &&& app.connected(addr).client_status->0 == (Status {
                connected: true,
                master_addr: addr,
                ..before
            })
            &&& app.disconnected().client_status->0 == (Status { connected: false, ..before })
            &&& app.clocked(rtt) == (App {
                client_status: Some(Status { latency_ms: rtt, ..before }),
                ..app
            })
            &&& app.configured(config, crossover_hz) == (App {
                client_status: Some(
                    Status {
                        role: config.role,
                        pan: config.pan,
                        gain: config.gain,
                        crossover_hz,
                        ..before
                    },
                ),
                ..app
            })
        },
        initial_status().master_addr.len() == 0 && !initial_status().connected,
        initial_status().role is Full && initial_status().pan is Mid,
        initial_status().gain.bits == 0 && initial_status().crossover_hz.bits == 0
            && initial_status().latency_ms.bits == 0,
{
}

/// What a speaker does about something that arrives: audio frames are audio, with their time and
/// samples; other bytes and frames of the transport are passed over; and a connection that closes
/// or fails is over.
pub proof fn speakers_hear_audio(bin: Vec<u8>)
    ensures
        bin@.len() >= 12 && bin@[0] == 1 ==> client_move(Incoming::Binary(bin)) == (
        ClientMove::Audio {
            play_at: frame_time(bin@),
            pcm: pcm_samples(bin@.subrange(12, bin@.len() as int)),
        }),
        !(bin@.len() >= 12 && bin@[0] == 1) ==> client_move(Incoming::Binary(bin)) is Pass,
        client_move(Incoming::Other) is Pass,
        client_move(Incoming::Close) is Stop,
        client_move(Incoming::Gone) is Stop,
{
    assert(bin@.len() >= 12 ==> frame_payload(bin@) =~= bin@.subrange(12, bin@.len() as int));
}

/// What a text tells a speaker is decided by its type. A pong gives both times; settings give the
/// role, the channel, the gain, the crossover and whether the group holds the speaker for an
/// outlier. What is missing has a stand-in, and every other text is passed over.
pub proof fn speakers_read_texts(text: String, members: Map<Seq<char>, Parsed>)
    ensures
        text_members(text@) is None ==> client_move(Incoming::Text(text)) is Pass,
        text_members(text@) == Some(members) ==> {
            let kind = text_of(members, "type"@);
            let done = client_move(Incoming::Text(text));
            &&& done is Pong <==> kind == Some("pong"@)
            &&& done is Config <==> kind == Some("config"@)
            &&& done is Pass <==> kind != Some("pong"@) && kind != Some("config"@)
            &&& done matches ClientMove::Pong { t0, t1 } ==> {
                &&& number_of(members, "t0"@) is Some ==> number_of(members, "t0"@) == Some(t0)
                &&& number_of(members, "t0"@) is None ==> t0.bits == 0
                &&& number_of(members, "t1"@) is Some ==> number_of(members, "t1"@) == Some(t1)
                &&& number_of(members, "t1"@) is None ==> t1.bits == 0
            }
            &&& done matches ClientMove::Config { config, crossover_hz, suspect } ==> {
                &&& config.role == role_meant(text_of(members, "role"@))
                &&& config.pan == pan_meant(text_of(members, "pan"@))
                &&& number_of(members, "gain"@) is Some ==> number_of(members, "gain"@) == Some(
                    config.gain,
                )
                &&& number_of(members, "gain"@) is None ==> config.gain.bits
                    == 0x3fe9_9999_a000_0000
                &&& number_of(members, "crossover_hz"@) is Some ==> number_of(
                    members,
                    "crossover_hz"@,
                ) == Some(crossover_hz)
                &&& number_of(members, "crossover_hz"@) is None ==> crossover_hz.bits
                    == 0x406b_8000_0000_0000
                &&& suspect <==> flag_of(members, "suspect"@) == Some(true)
            }
        },
{
    reveal_strlit("pong");
    reveal_strlit("config");
    assert("pong"@.len() == 4 && "config"@.len() == 6);
}

/// What a speaker does is what its step holds.
pub proof fn steps_say_what_they_hold(
    t0: Quantity,
    t1: Quantity,
    config: ClientConfig,
    crossover_hz: Quantity,
    suspect: bool,
    play_at: Quantity,
    pcm: Vec<i16>,
)
    ensures
        (ClientStep::Pong { t0, t1 })@ == (ClientMove::Pong { t0, t1 }),
        (ClientStep::Config { config, crossover_hz, suspect })@ == (ClientMove::Config {
            config,
            crossover_hz,
            suspect,
        }),
        (ClientStep::Audio { play_at, pcm })@ == (ClientMove::Audio { play_at, pcm: pcm@ }),
        ClientStep::Pass@ is Pass && ClientStep::Stop@ is Stop,
{
}

/// What waits in a queue are its chunks, each with its time and its samples.
pub proof fn queues_show_their_chunks(
    queue: PlayQueue,
    chunk: QueuedChunk,
    list: Seq<Vec<i16>>,
    i: int,
)
    ensures
        chunk@.play_at == chunk.play_at_local_ms && chunk@.pcm == chunk.pcm@,
        queue@.len() == queue.chunks@.len(),
        0 <= i < queue.chunks@.len() ==> queue@[i] == queue.chunks@[i]@,
        waves(list).len() == list.len(),
        0 <= i < list.len() ==> waves(list)[i] == list[i]@,
{
}

/// What a text tells is decided by its type: a pong gives both times, and settings give what a
/// speaker applies. What is missing has a stand-in, and every other text tells nothing.
pub proof fn tellings_are_read(text: Seq<char>, members: Map<Seq<char>, Parsed>)
    ensures
        text_members(text) is None ==> text_heard(text) is Ignored,
        text_members(text) == Some(members) ==> {
            let kind = text_of(members, "type"@);
            &&& text_heard(text) is Pong <==> kind == Some("pong"@)
            &&& text_heard(text) is Config <==> kind == Some("config"@)
            &&& text_heard(text) matches Heard::Pong { t0, t1 } ==> {
                &&& number_of(members, "t0"@) is Some ==> number_of(members, "t0"@) == Some(t0)
                &&& number_of(members, "t0"@) is None ==> t0.bits == 0
                &&& number_of(members, "t1"@) is Some ==> number_of(members, "t1"@) == Some(t1)
                &&& number_of(members, "t1"@) is None ==> t1.bits == 0
            }
            &&& text_heard(text) matches Heard::Config { config, crossover_hz, suspect } ==> {
                &&& config.role is Sub <==> text_of(members, "role"@) == Some("sub"@)
                &&& config.role is Tweeter <==> text_of(members, "role"@) == Some("tweeter"@)
                &&& config.pan is Left <==> text_of(members, "pan"@) == Some("left"@)
                &&& config.pan is Right <==> text_of(members, "pan"@) == Some("right"@)
                &&& number_of(members, "gain"@) is Some ==> number_of(members, "gain"@) == Some(
                    config.gain,
                )
                &&& number_of(members, "gain"@) is None ==> config.gain.bits
                    == 0x3fe9_9999_a000_0000
                &&& number_of(members, "crossover_hz"@) is Some ==> number_of(
                    members,
                    "crossover_hz"@,
                ) == Some(crossover_hz)
                &&& number_of(members, "crossover_hz"@) is None ==> crossover_hz.bits
                    == 0x406b_8000_0000_0000
                &&& suspect <==> flag_of(members, "suspect"@) == Some(true)
            }
        },
{
    reveal_strlit("pong");
    reveal_strlit("config");
    assert("pong"@.len() == 4 && "config"@.len() == 6);
    words_of_the_protocol("sub"@);
    words_of_the_protocol("left"@);
    words_read_back(Role::Tweeter, Pan::Right);
}

} // verus!
