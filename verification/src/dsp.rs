//! The sound of one speaker: its channel, its filter, its gain.
//!
//! The filters themselves are floating-point machines and belong to the caller. What is
//! decided here is which filter runs, when it starts afresh, which samples it hears, and what
//! becomes of the levels it gives.

use crate::quantity::Quantity;
use crate::state::{ClientConfig, Pan, Role};
use vstd::prelude::*;

verus! {

/// Which filter a speaker runs.
#[derive(Debug, Clone, Copy, PartialEq, Eq, Structural)]
pub enum FilterKind {
    LowPass,
    HighPass,
    /// The signal is left as it is.
    PassThrough,
}

/// The filter of a role: subs get the low frequencies, tweeters the high ones.
pub open spec fn filter_for(role: Role) -> FilterKind {
    match role {
        Role::Sub => FilterKind::LowPass,
        Role::Tweeter => FilterKind::HighPass,
        Role::Full => FilterKind::PassThrough,
    }
}

/// What the filter hears of one frame. Both sides of a speaker play the same signal, so one
/// filter serves them.
#[derive(Debug, Clone, Copy, PartialEq, Eq, Structural)]
pub enum Tap {
    /// One of the samples.
    One(i16),
    /// The mean of both, the smaller one first.
    Mix(i16, i16),
}

/// What a speaker on the channel `pan` hears of the frame `l`, `r`.
pub open spec fn tap(pan: Pan, l: i16, r: i16) -> Tap {
    match pan {
        Pan::Left => Tap::One(l),
        Pan::Right => Tap::One(r),
        Pan::Mid => if l <= r {
            Tap::Mix(l, r)
        } else {
            Tap::Mix(r, l)
        },
    }
}

/// What a speaker hears of interleaved samples, frame by frame; a single sample at the end is
/// no frame.
pub open spec fn heard(pan: Pan, samples: Seq<i16>) -> Seq<Tap> {
    Seq::new(samples.len() / 2, |f: int| tap(pan, samples[2 * f], samples[2 * f + 1]))
}

/// The loudest level that a speaker plays, on either side of silence.
pub const FULL_SCALE: i16 = 32767;

/// A level as a sample: clipped, never wrapped.
pub open spec fn clipped(level: i32) -> i16 {
    if level < -FULL_SCALE {
        (-FULL_SCALE) as i16
    } else if level > FULL_SCALE {
        FULL_SCALE
    } else {
        level as i16
    }
}

/// Interleaved samples with both sides of every frame replaced by the level of that frame; a
/// single sample at the end stays.
pub open spec fn replaced(samples: Seq<i16>, levels: Seq<i32>) -> Seq<i16> {
    Seq::new(
        samples.len(),
        |i: int|
            if i / 2 < levels.len() {
                clipped(levels[i / 2])
            } else {
                samples[i]
            },
    )
}

/// The settings of one speaker's signal chain.
#[derive(Debug, Clone, Copy, PartialEq, Eq, Structural)]
pub struct DspChain {
    pub kind: FilterKind,
    pub freq: Quantity,
    pub config: ClientConfig,
}

impl DspChain {
    /// The filter that runs is the one of the role.
    pub open spec fn wf(&self) -> bool {
        self.kind == filter_for(self.config.role)
    }

    /// New settings call for new filters: another kind of them, or another frequency.
    pub open spec fn starts_afresh(self, config: ClientConfig, moved: bool) -> bool {
        moved || filter_for(config.role) != self.kind
    }

    /// A chain for these settings.
    pub fn new(config: ClientConfig, crossover_hz: Quantity) -> (r: DspChain)
        ensures
            r.wf(),
            r == (DspChain { kind: filter_for(config.role), freq: crossover_hz, config }),
    {
        DspChain { kind: DspChain::kind_for_role(config.role), freq: crossover_hz, config }
    }

    /// The filter of a role.
    fn kind_for_role(role: Role) -> (r: FilterKind)
        ensures
            r == filter_for(role),
    {
        match role {
            Role::Sub => FilterKind::LowPass,
            Role::Tweeter => FilterKind::HighPass,
            Role::Full => FilterKind::PassThrough,
        }
    }

    /// Updates the settings, and returns whether the filters are to be built anew, in their
    /// initial state: when the role calls for another one, or when the crossover frequency
    /// has moved, as `moved` tells.
    pub fn set_config(&mut self, config: ClientConfig, crossover_hz: Quantity, moved: bool) -> (r:
        bool)
        requires
            old(self).wf(),
        ensures
            final(self).wf(),
            r == old(self).starts_afresh(config, moved),
            final(self).config == config,
            final(self).kind == filter_for(config.role),
            final(self).freq == if r {
                crossover_hz
            } else {
                old(self).freq
            },
    {
        let kind = DspChain::kind_for_role(config.role);
        let rebuild = kind != self.kind || moved;
        if rebuild {
            self.kind = kind;
            self.freq = crossover_hz;
        }
        self.config = config;
        rebuild
    }

    /// What the filters hear of interleaved samples, frame by frame.
    pub fn taps(&self, samples: &[i16]) -> (r: Vec<Tap>)
        ensures
            r@ == heard(self.config.pan, samples@),
    {
        let ghost all = heard(self.config.pan, samples@);
        let mut out: Vec<Tap> = Vec::new();
        let mut f: usize = 0;
        let frames = samples.len() / 2;
        while f < frames
            invariant
                frames == samples@.len() / 2,
                2 * frames <= samples.len(),
                f <= frames,
                all == heard(self.config.pan, samples@),
                out@ == all.take(f as int),
            decreases frames - f,
        {
            let l = samples[2 * f];
            let r = samples[2 * f + 1];
            let heard = match self.config.pan {
                Pan::Left => Tap::One(l),
                Pan::Right => Tap::One(r),
                Pan::Mid => if l <= r {
                    Tap::Mix(l, r)
                } else {
                    Tap::Mix(r, l)
                },
            };
            out.push(heard);
            assert(all.take(f + 1) =~= all.take(f as int).push(all[f as int]));
            f = f + 1;
        }
        assert(all.take(f as int) =~= all);
        out
    }

    /// Writes the levels that filter and gain made of the frames back into the samples, the
    /// same one on both sides, clipped to the scale.
    pub fn put_back(samples: &mut Vec<i16>, levels: &Vec<i32>)
        requires
            levels@.len() == old(samples)@.len() / 2,
        ensures
            final(samples)@ == replaced(old(samples)@, levels@),
    {
        let ghost start = samples@;
        let mut f: usize = 0;
        while f < levels.len()
            invariant
                f <= levels@.len(),
                levels@.len() == start.len() / 2,
                samples@.len() == start.len(),
                samples@ == replaced(start, levels@.take(f as int)),
            decreases levels@.len() - f,
        {
            let sample = clip(levels[f]);
            assert(2 * f + 1 < samples.len());
            samples.set(2 * f, sample);
            samples.set(2 * f + 1, sample);
            assert(samples@ =~= replaced(start, levels@.take(f + 1)));
            f = f + 1;
        }
        assert(levels@.take(f as int) =~= levels@);
    }
}

/// A level as a sample.
fn clip(level: i32) -> (r: i16)
    ensures
        r == clipped(level),
{
    if level < -(FULL_SCALE as i32) {
        -FULL_SCALE
    } else if level > FULL_SCALE as i32 {
        FULL_SCALE
    } else {
        level as i16
    }
}

/// What a filter with the memory `memory` makes of what it hears: the levels it gives, and what
/// it remembers afterwards. `step` is the filter, whatever it is: it takes its memory and what
/// it hears of one frame, and gives its next memory and the level of the frame.
pub open spec fn filtered<M>(
    step: spec_fn(M, Tap) -> (M, i32),
    memory: M,
    taps: Seq<Tap>,
) -> (M, Seq<i32>)
    decreases taps.len(),
{
    if taps.len() == 0 {
        (memory, Seq::empty())
    } else {
        let (before, levels) = filtered(step, memory, taps.drop_last());
        let (after, level) = step(before, taps.last());
        (after, levels.push(level))
    }
}

/// What processing makes of interleaved samples on the channel `pan`, and what the filter
/// remembers afterwards.
pub open spec fn processed<M>(
    step: spec_fn(M, Tap) -> (M, i32),
    memory: M,
    pan: Pan,
    samples: Seq<i16>,
) -> (M, Seq<i16>) {
    let (after, levels) = filtered(step, memory, heard(pan, samples));
    (after, replaced(samples, levels))
}

/// Settings that change neither the role nor the crossover leave the filters running, so a
/// change of gain or channel makes no click.
pub proof fn gain_and_channel_keep_the_filters(chain: DspChain, config: ClientConfig)
    requires
        chain.wf(),
        config.role == chain.config.role,
    ensures
        !chain.starts_afresh(config, false),
{
}

/// A filter gives one level per frame.
proof fn one_level_per_frame<M>(step: spec_fn(M, Tap) -> (M, i32), memory: M, taps: Seq<Tap>)
    ensures
        filtered(step, memory, taps).1.len() == taps.len(),
    decreases taps.len(),
{
    if taps.len() > 0 {
        one_level_per_frame(step, memory, taps.drop_last());
    }
}

/// Two buffers of which a speaker hears the same are processed alike, whatever the filter is:
/// the samples come out equal, and so does what the filter remembers.
proof fn what_is_not_heard_is_not_played<M>(
    step: spec_fn(M, Tap) -> (M, i32),
    memory: M,
    pan: Pan,
    a: Seq<i16>,
    b: Seq<i16>,
)
    requires
        a.len() == b.len(),
        a.len() % 2 == 0,
        heard(pan, a) == heard(pan, b),
    ensures
        processed(step, memory, pan, a) == processed(step, memory, pan, b),
{
    one_level_per_frame(step, memory, heard(pan, a));
    let levels = filtered(step, memory, heard(pan, a)).1;
    assert(replaced(a, levels) =~= replaced(b, levels));
}

/// A speaker on the left hears and plays the left side alone: the samples at the odd places may
/// be anything.
pub proof fn left_ignores_the_right<M>(
    step: spec_fn(M, Tap) -> (M, i32),
    memory: M,
    a: Seq<i16>,
    b: Seq<i16>,
)
    requires
        a.len() == b.len(),
        forall|i: int| 0 <= i < a.len() && i % 2 == 0 ==> #[trigger] a[i] == b[i],
    ensures
        heard(Pan::Left, a) == heard(Pan::Left, b),
        a.len() % 2 == 0 ==> processed(step, memory, Pan::Left, a) == processed(
            step,
            memory,
            Pan::Left,
            b,
        ),
{
    assert forall|f: int| 0 <= f < a.len() / 2 implies heard(Pan::Left, a)[f] == heard(
        Pan::Left,
        b,
    )[f] by {
        assert(a[2 * f] == b[2 * f]);
    }
    assert(heard(Pan::Left, a) =~= heard(Pan::Left, b));
    if a.len() % 2 == 0 {
        what_is_not_heard_is_not_played(step, memory, Pan::Left, a, b);
    }
}

/// A speaker on the right hears and plays the right side alone: the samples at the even places
/// may be anything.
pub proof fn right_ignores_the_left<M>(
    step: spec_fn(M, Tap) -> (M, i32),
    memory: M,
    a: Seq<i16>,
    b: Seq<i16>,
)
    requires
        a.len() == b.len(),
        forall|i: int| 0 <= i < a.len() && i % 2 == 1 ==> #[trigger] a[i] == b[i],
    ensures
        heard(Pan::Right, a) == heard(Pan::Right, b),
        a.len() % 2 == 0 ==> processed(step, memory, Pan::Right, a) == processed(
            step,
            memory,
            Pan::Right,
            b,
        ),
{
    assert forall|f: int| 0 <= f < a.len() / 2 implies heard(Pan::Right, a)[f] == heard(
        Pan::Right,
        b,
    )[f] by {
        assert(a[2 * f + 1] == b[2 * f + 1]);
    }
    assert(heard(Pan::Right, a) =~= heard(Pan::Right, b));
    if a.len() % 2 == 0 {
        what_is_not_heard_is_not_played(step, memory, Pan::Right, a, b);
    }
}

/// `b` has at the frame `f` what `a` has there, possibly with the sides swapped.
pub open spec fn same_or_swapped(a: Seq<i16>, b: Seq<i16>, f: int) -> bool {
    ||| b[2 * f] == a[2 * f] && b[2 * f + 1] == a[2 * f + 1]
    ||| b[2 * f] == a[2 * f + 1] && b[2 * f + 1] == a[2 * f]
}

/// A speaker in the middle does not tell the sides apart: they may be swapped in any frame.
pub proof fn middle_is_symmetric<M>(
    step: spec_fn(M, Tap) -> (M, i32),
    memory: M,
    a: Seq<i16>,
    b: Seq<i16>,
)
    requires
        a.len() == b.len(),
        forall|f: int| 0 <= f < a.len() / 2 ==> #[trigger] same_or_swapped(a, b, f),
    ensures
        heard(Pan::Mid, a) == heard(Pan::Mid, b),
        a.len() % 2 == 0 ==> processed(step, memory, Pan::Mid, a) == processed(
            step,
            memory,
            Pan::Mid,
            b,
        ),
{
    assert forall|f: int| 0 <= f < a.len() / 2 implies heard(Pan::Mid, a)[f] == heard(
        Pan::Mid,
        b,
    )[f] by {
        assert(same_or_swapped(a, b, f));
    }
    assert(heard(Pan::Mid, a) =~= heard(Pan::Mid, b));
    if a.len() % 2 == 0 {
        what_is_not_heard_is_not_played(step, memory, Pan::Mid, a, b);
    }
}

/// A filter that hears one part after the other gives what it gives for the whole.
proof fn filter_is_continuous<M>(
    step: spec_fn(M, Tap) -> (M, i32),
    memory: M,
    a: Seq<Tap>,
    b: Seq<Tap>,
)
    ensures
        ({
            let (between, first) = filtered(step, memory, a);
            let (after, second) = filtered(step, between, b);
            filtered(step, memory, a + b) == (after, first + second)
        }),
    decreases b.len(),
{
    let (between, first) = filtered(step, memory, a);
    if b.len() == 0 {
        assert(a + b =~= a);
        assert(first + Seq::<i32>::empty() =~= first);
    } else {
        let front = b.drop_last();
        filter_is_continuous(step, memory, a, front);
        let (before, levels) = filtered(step, between, front);
        let level = step(before, b.last()).1;
        assert((a + b).drop_last() =~= a + front);
        assert((a + b).last() == b.last());
        assert((first + levels).push(level) =~= first + levels.push(level));
    }
}

/// How a stream is cut into chunks is not audible, as long as the cut goes between two frames:
/// the parts, one after the other, are heard, replaced and processed like the whole, and the
/// filter remembers the same afterwards.
pub proof fn cuts_are_inaudible<M>(
    step: spec_fn(M, Tap) -> (M, i32),
    memory: M,
    pan: Pan,
    a: Seq<i16>,
    b: Seq<i16>,
)
    requires
        a.len() % 2 == 0,
    ensures
        heard(pan, a + b) == heard(pan, a) + heard(pan, b),
        ({
            let (between, first) = processed(step, memory, pan, a);
            let (after, second) = processed(step, between, pan, b);
            processed(step, memory, pan, a + b) == (after, first + second)
        }),
{
    assert(heard(pan, a + b) =~= heard(pan, a) + heard(pan, b)) by {
        assert forall|f: int| 0 <= f < (a + b).len() / 2 implies #[trigger] heard(pan, a + b)[f]
            == (heard(pan, a) + heard(pan, b))[f] by {
            if f < a.len() / 2 {
                assert((a + b)[2 * f] == a[2 * f] && (a + b)[2 * f + 1] == a[2 * f + 1]);
            } else {
                let g = f - a.len() / 2;
                assert((a + b)[2 * f] == b[2 * g] && (a + b)[2 * f + 1] == b[2 * g + 1]);
            }
        }
    }
    let (between, first) = filtered(step, memory, heard(pan, a));
    let second = filtered(step, between, heard(pan, b)).1;
    filter_is_continuous(step, memory, heard(pan, a), heard(pan, b));
    one_level_per_frame(step, memory, heard(pan, a));
    one_level_per_frame(step, between, heard(pan, b));
    replacing_goes_part_by_part(a, b, first, second);
}

/// Replacing the frames of two parts replaces those of the whole.
pub proof fn replacing_goes_part_by_part(
    a: Seq<i16>,
    b: Seq<i16>,
    first: Seq<i32>,
    second: Seq<i32>,
)
    requires
        a.len() % 2 == 0,
        first.len() == a.len() / 2,
    ensures
        replaced(a + b, first + second) == replaced(a, first) + replaced(b, second),
{
    let whole = replaced(a + b, first + second);
    let parts = replaced(a, first) + replaced(b, second);
    assert forall|i: int| 0 <= i < whole.len() implies whole[i] == parts[i] by {
        if i >= a.len() {
            assert(i / 2 - a.len() / 2 == (i - a.len()) / 2);
        }
    }
    assert(whole =~= parts);
}

/// Processing changes neither the number of samples nor one that belongs to no frame. Both sides
/// of every whole frame play the same sample, which is clipped and never wrapped. This holds
/// whatever the filter is.
pub proof fn processing_keeps_its_bounds<M>(
    step: spec_fn(M, Tap) -> (M, i32),
    memory: M,
    pan: Pan,
    samples: Seq<i16>,
)
    ensures
        ({
            let after = processed(step, memory, pan, samples).1;
            &&& after.len() == samples.len()
            &&& samples.len() % 2 == 1 ==> after.last() == samples.last()
            &&& forall|f: int|
                0 <= f < samples.len() / 2 ==> {
                    &&& #[trigger] after[2 * f] == after[2 * f + 1]
                    &&& -FULL_SCALE <= after[2 * f] <= FULL_SCALE
                }
        }),
{
    one_level_per_frame(step, memory, heard(pan, samples));
    let after = processed(step, memory, pan, samples).1;
    assert forall|f: int| 0 <= f < samples.len() / 2 implies {
        &&& #[trigger] after[2 * f] == after[2 * f + 1]
        &&& -FULL_SCALE <= after[2 * f] <= FULL_SCALE
    } by {
        assert((2 * f) / 2 == f && (2 * f + 1) / 2 == f);
    }
}

/// The filter is built anew exactly if the role has changed or the crossover has moved.
pub proof fn filters_follow_the_role(chain: DspChain, config: ClientConfig, moved: bool)
    requires
        chain.wf(),
    ensures
        chain.starts_afresh(config, moved) <==> config.role != chain.config.role || moved,
{
}

/// A chain that is in order runs a low-pass for a sub, a high-pass for a tweeter, and leaves the
/// signal alone for the full range.
pub proof fn roles_have_their_filters(chain: DspChain)
    requires
        chain.wf(),
    ensures
        chain.kind is LowPass <==> chain.config.role is Sub,
        chain.kind is HighPass <==> chain.config.role is Tweeter,
        chain.kind is PassThrough <==> chain.config.role is Full,
{
}

/// Of every frame a speaker on the left hears the first sample, one on the right the second, and
/// one in the middle both; a sample that belongs to no frame is not heard.
pub proof fn channels_hear_their_side(samples: Seq<i16>, f: int)
    ensures
        heard(Pan::Left, samples).len() == samples.len() / 2,
        heard(Pan::Right, samples).len() == samples.len() / 2,
        heard(Pan::Mid, samples).len() == samples.len() / 2,
        0 <= f < samples.len() / 2 ==> {
            &&& heard(Pan::Left, samples)[f] == Tap::One(samples[2 * f])
            &&& heard(Pan::Right, samples)[f] == Tap::One(samples[2 * f + 1])
            &&& heard(Pan::Mid, samples)[f] matches Tap::Mix(a, b) && {
                ||| a == samples[2 * f] && b == samples[2 * f + 1]
                ||| a == samples[2 * f + 1] && b == samples[2 * f]
            }
        },
{
}

/// A level within the scale is played as it is on both sides, and one beyond it at the end of the
/// scale that it is beyond.
pub proof fn levels_are_played(samples: Seq<i16>, levels: Seq<i32>, f: int)
    requires
        levels.len() == samples.len() / 2,
        0 <= f < levels.len(),
    ensures
        ({
            let after = replaced(samples, levels);
            &&& after[2 * f] == after[2 * f + 1]
            &&& -32767 <= levels[f] <= 32767 ==> after[2 * f] == levels[f]
            &&& levels[f] > 32767 ==> after[2 * f] == 32767
            &&& levels[f] < -32767 ==> after[2 * f] == -32767
        }),
{
    assert((2 * f) / 2 == f && (2 * f + 1) / 2 == f);
}

} // verus!
