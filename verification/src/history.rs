//! The chunks that a relay has fanned out lately.
//!
//! A speaker that joins is sent them, so that it starts at once and in step with the others.

use crate::frame::encode_payload;
#[allow(unused_imports)]
use crate::frame::frame;
use crate::quantity::Quantity;
use vstd::prelude::*;

verus! {

/// A chunk that was fanned out, with the time that all children share.
pub struct Chunk {
    pub play_at: Quantity,
    pub payload: Vec<u8>,
}

/// A chunk that was fanned out.
pub struct Stamped {
    pub play_at: Quantity,
    pub payload: Seq<u8>,
}

impl View for Chunk {
    type V = Stamped;

    open spec fn view(&self) -> Stamped {
        Stamped { play_at: self.play_at, payload: self.payload@ }
    }
}

impl Stamped {
    /// The chunk is played neither before `earliest` nor after `latest`.
    pub open spec fn within(self, earliest: Quantity, latest: Quantity) -> bool {
        earliest.at_most(self.play_at) && self.play_at.at_most(latest)
    }

    /// The frame that carries the chunk.
    pub open spec fn frame(self) -> Seq<u8> {
        frame(self.play_at, self.payload)
    }
}

/// Those of the chunks that are played from `earliest` to `latest`, in their order.
pub open spec fn kept(chunks: Seq<Stamped>, earliest: Quantity, latest: Quantity) -> Seq<Stamped>
    decreases chunks.len(),
{
    if chunks.len() == 0 {
        Seq::empty()
    } else if chunks.last().within(earliest, latest) {
        kept(chunks.drop_last(), earliest, latest).push(chunks.last())
    } else {
        kept(chunks.drop_last(), earliest, latest)
    }
}

/// The frames that carry the chunks, in their order.
pub open spec fn frames(chunks: Seq<Stamped>) -> Seq<Seq<u8>> {
    chunks.map_values(|chunk: Stamped| chunk.frame())
}

/// The chunks of about one buffer.
pub struct History {
    pub chunks: Vec<Chunk>,
}

impl View for History {
    type V = Seq<Stamped>;

    open spec fn view(&self) -> Seq<Stamped> {
        self.chunks@.map_values(|chunk: Chunk| chunk@)
    }
}

impl History {
    /// Nothing has been fanned out.
    pub fn new() -> (r: History)
        ensures
            r@ == Seq::<Stamped>::empty(),
    {
        let r = History { chunks: Vec::new() };
        assert(r@ =~= Seq::<Stamped>::empty());
        r
    }

    /// Takes in the newest chunk, and forgets those that lie more than one buffer away from it:
    /// `earliest` is its time less the buffer, and `latest` its time and the buffer.
    pub fn push(
        &mut self,
        play_at: Quantity,
        payload: Vec<u8>,
        earliest: Quantity,
        latest: Quantity,
    )
        ensures
            final(self)@ == kept(old(self)@, earliest, latest).push(
                Stamped { play_at, payload: payload@ },
            ),
    {
        let ghost start = self@;
        let ghost mut seen: int = 0;
        let mut i: usize = 0;
        proof {
            assert(start.skip(0) =~= start);
            assert(self@.take(0) =~= kept(start.take(0), earliest, latest));
        }
        while i < self.chunks.len()
            invariant
                i <= self.chunks@.len(),
                0 <= seen <= start.len(),
                self@.take(i as int) == kept(start.take(seen), earliest, latest),
                self@.skip(i as int) == start.skip(seen),
            decreases self.chunks@.len() - i,
        {
            let ghost before = self@;
            let ghost queue = self.chunks@;
            proof {
                assert(before.skip(i as int)[0] == before[i as int]);
                assert(start.skip(seen).len() > 0);
                assert(start.skip(seen)[0] == start[seen]);
                assert(start[seen] == queue[i as int]@);
                assert(start.take(seen + 1).drop_last() =~= start.take(seen));
                assert(start.skip(seen).skip(1) =~= start.skip(seen + 1));
                assert(before.skip(i as int).skip(1) =~= before.skip(i + 1));
            }
            let time = self.chunks[i].play_at;
            if earliest.le(&time) && time.le(&latest) {
                assert(before.take(i + 1) =~= before.take(i as int).push(before[i as int]));
                i = i + 1;
            } else {
                let _ = self.chunks.remove(i);
                proof {
                    assert(self.chunks@ =~= queue.remove(i as int));
                    assert(self@ =~= before.remove(i as int));
                    assert(self@.take(i as int) =~= before.take(i as int));
                    assert(self@.skip(i as int) =~= before.skip(i + 1));
                }
            }
            proof {
                seen = seen + 1;
            }
        }
        proof {
            assert(self@.skip(i as int).len() == 0);
            assert(start.take(seen) =~= start);
            assert(self@.take(i as int) =~= self@);
        }
        let ghost rest = self@;
        self.chunks.push(Chunk { play_at, payload });
        assert(self@ =~= rest.push(Stamped { play_at, payload: payload@ }));
    }

    /// The frames that carry the chunks, for a child that joins.
    pub fn frames(&self) -> (r: Vec<Vec<u8>>)
        ensures
            r@.map_values(|bytes: Vec<u8>| bytes@) == frames(self@),
    {
        let mut out: Vec<Vec<u8>> = Vec::new();
        let mut i: usize = 0;
        while i < self.chunks.len()
            invariant
                i <= self.chunks@.len(),
                out@.len() == i,
                forall|j: int| 0 <= j < i ==> (#[trigger] out@[j])@ == self@[j].frame(),
            decreases self.chunks@.len() - i,
        {
            let chunk = &self.chunks[i];
            out.push(encode_payload(chunk.play_at, chunk.payload.as_slice()));
            i = i + 1;
        }
        assert(out@.map_values(|bytes: Vec<u8>| bytes@) =~= frames(self@));
        out
    }
}

/// What is kept are those chunks that lie in the range, and no others.
pub proof fn kept_chunks_lie_in_range(
    chunks: Seq<Stamped>,
    earliest: Quantity,
    latest: Quantity,
    chunk: Stamped,
)
    ensures
        kept(chunks, earliest, latest).contains(chunk) <==> chunks.contains(chunk) && chunk.within(
            earliest,
            latest,
        ),
    decreases chunks.len(),
{
    let all = kept(chunks, earliest, latest);
    if chunks.len() > 0 {
        let front = chunks.drop_last();
        let rest = kept(front, earliest, latest);
        kept_chunks_lie_in_range(front, earliest, latest, chunk);
        if all.contains(chunk) {
            let i = choose|i: int| 0 <= i < all.len() && all[i] == chunk;
            if i < rest.len() {
                assert(rest[i] == chunk);
                assert(rest.contains(chunk));
                let j = choose|j: int| 0 <= j < front.len() && front[j] == chunk;
                assert(chunks[j] == chunk);
            } else {
                assert(chunks[chunks.len() - 1] == chunk);
            }
        }
        if chunks.contains(chunk) && chunk.within(earliest, latest) {
            let j = choose|j: int| 0 <= j < chunks.len() && chunks[j] == chunk;
            if j < front.len() {
                assert(front[j] == chunk);
                let i = choose|i: int| 0 <= i < rest.len() && rest[i] == chunk;
                assert(all[i] == chunk);
            } else {
                assert(all[all.len() - 1] == chunk);
            }
        }
    }
}

/// A chunk at the time it was fanned out, with the bounds of its buffer.
pub struct Sending {
    pub chunk: Stamped,
    pub earliest: Quantity,
    pub latest: Quantity,
}

/// The history after these chunks, one after the other.
pub open spec fn history_after(sendings: Seq<Sending>) -> Seq<Stamped>
    decreases sendings.len(),
{
    if sendings.len() == 0 {
        Seq::empty()
    } else {
        let newest = sendings.last();
        kept(history_after(sendings.drop_last()), newest.earliest, newest.latest).push(
            newest.chunk,
        )
    }
}

/// The chunks that were fanned out.
pub open spec fn chunks_of(sendings: Seq<Sending>) -> Seq<Stamped> {
    sendings.map_values(|sending: Sending| sending.chunk)
}

/// Each chunk lies within its own bounds, the lower bounds do not sink, and no chunk is so far
/// ahead that a later one leaves it beyond its upper bound.
pub open spec fn steady(sendings: Seq<Sending>) -> bool {
    &&& forall|i: int|
        0 <= i < sendings.len() ==> (#[trigger] sendings[i]).chunk.within(
            sendings[i].earliest,
            sendings[i].latest,
        )
    &&& forall|i: int, j: int|
        0 <= i < j < sendings.len() ==> {
            &&& (#[trigger] sendings[i]).earliest.at_most((#[trigger] sendings[j]).earliest)
            &&& sendings[i].chunk.play_at.at_most(sendings[j].latest)
        }
}

/// Keeping by a range and then by one that starts later is keeping by the later one, where
/// nothing lies beyond either.
proof fn keeping_twice(
    chunks: Seq<Stamped>,
    earliest: Quantity,
    latest: Quantity,
    later: Quantity,
    last: Quantity,
)
    requires
        earliest.at_most(later),
        forall|i: int|
            0 <= i < chunks.len() ==> {
                &&& (#[trigger] chunks[i]).play_at.at_most(latest)
                &&& chunks[i].play_at.at_most(last)
            },
    ensures
        kept(kept(chunks, earliest, latest), later, last) == kept(chunks, later, last),
    decreases chunks.len(),
{
    if chunks.len() > 0 {
        let front = chunks.drop_last();
        assert forall|i: int| 0 <= i < front.len() implies {
            &&& (#[trigger] front[i]).play_at.at_most(latest)
            &&& front[i].play_at.at_most(last)
        } by {
            assert(front[i] == chunks[i]);
        }
        keeping_twice(front, earliest, latest, later, last);
        let x = chunks[chunks.len() - 1];
        let rest = kept(front, earliest, latest);
        assert(rest.push(x).drop_last() =~= rest);
    } else {
        assert(kept(chunks, earliest, latest) =~= chunks);
    }
}

/// Of a steady stream the history holds exactly the chunks that lie within one buffer of the
/// newest, in the order in which they were fanned out.
pub proof fn history_holds_the_last_buffer(sendings: Seq<Sending>)
    requires
        steady(sendings),
        sendings.len() > 0,
    ensures
        history_after(sendings) == kept(
            chunks_of(sendings),
            sendings.last().earliest,
            sendings.last().latest,
        ),
    decreases sendings.len(),
{
    let newest = sendings.last();
    let front = sendings.drop_last();
    let all = chunks_of(sendings);
    assert(all.drop_last() =~= chunks_of(front));
    assert(all.last() == newest.chunk);
    assert(sendings[sendings.len() - 1].chunk.within(newest.earliest, newest.latest));
    if front.len() > 0 {
        assert(steady(front)) by {
            assert forall|i: int| 0 <= i < front.len() implies (
            #[trigger] front[i]).chunk.within(front[i].earliest, front[i].latest) by {
                assert(front[i] == sendings[i]);
            }
            assert forall|i: int, j: int| 0 <= i < j < front.len() implies {
                &&& (#[trigger] front[i]).earliest.at_most((#[trigger] front[j]).earliest)
                &&& front[i].chunk.play_at.at_most(front[j].latest)
            } by {
                assert(front[i] == sendings[i] && front[j] == sendings[j]);
            }
        }
        history_holds_the_last_buffer(front);
        let before = front.last();
        let k = front.len() - 1;
        assert(before == sendings[k]);
        assert(before.earliest.at_most(newest.earliest)) by {
            assert(sendings[k].earliest.at_most(sendings[k + 1].earliest));
        }
        let old = chunks_of(front);
        assert forall|i: int| 0 <= i < old.len() implies {
            &&& (#[trigger] old[i]).play_at.at_most(before.latest)
            &&& old[i].play_at.at_most(newest.latest)
        } by {
            assert(old[i] == sendings[i].chunk);
            assert(sendings[i].chunk.play_at.at_most(sendings[k + 1].latest));
            if i < k {
                assert(sendings[i].chunk.play_at.at_most(sendings[k].latest));
            } else {
                assert(sendings[k].chunk.within(sendings[k].earliest, sendings[k].latest));
            }
        }
        keeping_twice(old, before.earliest, before.latest, newest.earliest, newest.latest);
    } else {
        assert(history_after(front) =~= Seq::empty());
        assert(chunks_of(front) =~= Seq::empty());
    }
}

/// A chunk is kept exactly if it is played neither before `earliest` nor after `latest`.
pub proof fn chunks_are_kept_by_their_time(
    chunk: Stamped,
    earliest: Quantity,
    latest: Quantity,
)
    ensures
        earliest.at_most(chunk.play_at) && chunk.play_at.at_most(latest) ==> kept(
            seq![chunk],
            earliest,
            latest,
        ) == seq![chunk],
        !(earliest.at_most(chunk.play_at) && chunk.play_at.at_most(latest)) ==> kept(
            seq![chunk],
            earliest,
            latest,
        ) == Seq::<Stamped>::empty(),
{
    reveal_with_fuel(kept, 2);
    assert(seq![chunk].drop_last() =~= Seq::empty());
    assert(Seq::<Stamped>::empty().push(chunk) =~= seq![chunk]);
}

/// Whether a chunk is kept does not depend on the others, and what is kept stays in order.
pub proof fn chunks_are_kept_one_by_one(
    a: Seq<Stamped>,
    b: Seq<Stamped>,
    earliest: Quantity,
    latest: Quantity,
)
    ensures
        kept(a + b, earliest, latest) == kept(a, earliest, latest) + kept(b, earliest, latest),
    decreases b.len(),
{
    if b.len() == 0 {
        assert(a + b =~= a);
        assert(kept(a, earliest, latest) + kept(b, earliest, latest) =~= kept(a, earliest, latest));
    } else {
        chunks_are_kept_one_by_one(a, b.drop_last(), earliest, latest);
        assert((a + b).drop_last() =~= a + b.drop_last());
        assert((a + b).last() == b.last());
        assert(kept(a + b, earliest, latest) =~= kept(a, earliest, latest) + kept(
            b,
            earliest,
            latest,
        ));
    }
}

/// What is known of a history are its chunks, each with its time and its payload, and each goes
/// out in the frame that carries it.
pub proof fn histories_show_their_chunks(
    history: History,
    chunk: Chunk,
    chunks: Seq<Stamped>,
    i: int,
)
    ensures
        chunk@.play_at == chunk.play_at && chunk@.payload == chunk.payload@,
        history@.len() == history.chunks@.len(),
        0 <= i < history.chunks@.len() ==> history@[i] == history.chunks@[i]@,
        frames(chunks).len() == chunks.len(),
        0 <= i < chunks.len() ==> frames(chunks)[i] == frame(chunks[i].play_at, chunks[i].payload),
{
}

} // verus!
