//! The relay: one master uploads a single stream, and every child receives it.
//!
//! Towards the children the relay behaves like a master. It hands out their numbers and
//! their first settings, answers their pings by its own clock, and tells the master who
//! is there. The sockets, the clock and the sums are the caller's: each function here
//! takes an event and returns what to send.

use crate::frame::{decode_payload, encode_payload};
#[allow(unused_imports)]
use crate::frame::{frame, frame_payload, frame_time, is_audio, HEADER};
use crate::history::{History, Stamped};
#[allow(unused_imports)]
use crate::history::{frames, kept, kept_chunks_lie_in_range};
use crate::json::{count_member, number_member, parse, text_member, Member, Parsed};
#[allow(unused_imports)]
use crate::json::{count_of, no_members, number_of, read_back, text_members, text_of};
use crate::message::{
    child_joined_record, child_left_record, config_record, pong_record, welcome_record, Message,
    Record, Said,
};
#[allow(unused_imports)]
use crate::message::{
    child_joined_members, child_left_members, config_members, hello_members, pong_members,
    welcome_members,
};
use crate::order::median;
#[allow(unused_imports)]
use crate::order::middle;
use crate::quantity::{Quantity, ZERO};
use crate::registry::{Entry, Keyed, Registry};
#[allow(unused_imports)]
use crate::registry::{
    directory, directory_of_images, entry_is_found, found_is_entry, image_of_insert,
    image_of_remove, listing,
};
use crate::socket::Incoming;
#[allow(unused_imports)]
use crate::state::maybe_text;
use crate::state::{DEFAULT_CROSSOVER, DEFAULT_GAIN};
use crate::text::same;
use vstd::prelude::*;
use vstd::string::*;

verus! {

/// The buffer before a master has announced its own.
pub const DEFAULT_BUFFER_MS: u32 = 1000;

/// The jitter that is never held against a child: 30.0.
pub const TOLERATED_JITTER: u64 = 0x403e_0000_0000_0000;

/// How many measured children it takes to judge one of them.
pub const QUORUM: usize = 3;

/// One connected child.
pub struct Child {
    pub id: u32,
    pub name: String,
    /// "native" or "browser".
    pub kind: String,
    pub latency_ms: Quantity,
    /// Round-trip time above the child's clean baseline.
    pub jitter_ms: Quantity,
    /// The group considers this device a sync outlier.
    pub suspect: bool,
    /// "sub", "tweeter" or "full".
    pub role: String,
    /// "left", "mid" or "right".
    pub pan: String,
    pub gain: Quantity,
}

/// What a relay knows of a child.
pub struct ChildState {
    pub id: u32,
    pub name: Seq<char>,
    pub kind: Seq<char>,
    pub latency_ms: Quantity,
    pub jitter_ms: Quantity,
    pub suspect: bool,
    pub role: Seq<char>,
    pub pan: Seq<char>,
    pub gain: Quantity,
}

impl View for Child {
    type V = ChildState;

    open spec fn view(&self) -> ChildState {
        ChildState {
            id: self.id,
            name: self.name@,
            kind: self.kind@,
            latency_ms: self.latency_ms,
            jitter_ms: self.jitter_ms,
            suspect: self.suspect,
            role: self.role@,
            pan: self.pan@,
            gain: self.gain,
        }
    }
}

impl Keyed for Child {
    open spec fn key(&self) -> u32 {
        self.id
    }
}

impl Entry for Child {
    fn id(&self) -> (r: u32) {
        self.id
    }
}

impl Keyed for ChildState {
    open spec fn key(&self) -> u32 {
        self.id
    }
}

impl ChildState {
    /// The settings of the child, as it receives them.
    pub open spec fn config(
        self,
        crossover_hz: Quantity,
        buffer_ms: u32,
    ) -> Map<Seq<char>, Member> {
        config_members(self.role, self.pan, self.gain, crossover_hz, buffer_ms).insert(
            "suspect"@,
            Member::Flag(self.suspect),
        )
    }

    /// The child, as the roster shows it.
    pub open spec fn row(self) -> Map<Seq<char>, Member> {
        no_members().insert("id"@, Member::Count(self.id as u64)).insert(
            "name"@,
            Member::Text(self.name),
        ).insert("kind"@, Member::Text(self.kind)).insert(
            "latency_ms"@,
            Member::Number(self.latency_ms),
        ).insert("jitter_ms"@, Member::Number(self.jitter_ms)).insert(
            "suspect"@,
            Member::Flag(self.suspect),
        ).insert("role"@, Member::Text(self.role)).insert("pan"@, Member::Text(self.pan)).insert(
            "gain"@,
            Member::Number(self.gain),
        )
    }

    /// What was measured of the child are numbers.
    pub open spec fn numeric(self) -> bool {
        !self.latency_ms.nan() && !self.jitter_ms.nan()
    }

    /// The child has reported a round-trip time.
    pub open spec fn measured(self) -> bool {
        Quantity { bits: ZERO }.below(self.latency_ms)
    }
}

impl Child {
    /// The settings of the child, as it receives them.
    pub fn config_json(&self, crossover_hz: Quantity, buffer_ms: u32) -> (r: Message)
        ensures
            r@ == Said::Plain(self@.config(crossover_hz, buffer_ms)),
    {
        let mut record = config_record(
            self.role.as_str(),
            self.pan.as_str(),
            self.gain,
            crossover_hz,
            buffer_ms,
        );
        record.put_flag("suspect", self.suspect);
        Message::Plain(record)
    }

    /// The child, as the roster shows it.
    pub fn row(&self) -> (r: Record)
        ensures
            r@ == self@.row(),
    {
        let mut record = Record::empty();
        record.put_count("id", self.id as u64);
        record.put_text("name", self.name.as_str());
        record.put_text("kind", self.kind.as_str());
        record.put_number("latency_ms", self.latency_ms);
        record.put_number("jitter_ms", self.jitter_ms);
        record.put_flag("suspect", self.suspect);
        record.put_text("role", self.role.as_str());
        record.put_text("pan", self.pan.as_str());
        record.put_number("gain", self.gain);
        record
    }

    /// Whether the child has reported a round-trip time.
    fn is_measured(&self) -> (r: bool)
        ensures
            r == self@.measured(),
    {
        Quantity::new(ZERO).lt(&self.latency_ms)
    }
}

/// Something to send.
pub enum Post {
    Child(u32, Message),
    /// An audio frame for one child.
    Audio(u32, Vec<u8>),
    Master(Message),
}

/// What is sent, and to whom.
pub enum Posted {
    Child(u32, Said),
    Audio(u32, Seq<u8>),
    Master(Said),
}

impl View for Post {
    type V = Posted;

    open spec fn view(&self) -> Posted {
        match self {
            Post::Child(id, message) => Posted::Child(*id, message@),
            Post::Audio(id, bytes) => Posted::Audio(*id, bytes@),
            Post::Master(message) => Posted::Master(message@),
        }
    }
}

/// What is sent, in order.
pub open spec fn posted(posts: Seq<Post>) -> Seq<Posted> {
    posts.map_values(|post: Post| post@)
}

/// What a relay knows.
pub struct RelayState {
    pub next_id: u32,
    pub children: Map<u32, ChildState>,
    /// Stable offset from the master's clock to the relay's.
    pub master_offset: Option<Quantity>,
    /// How many sources have connected so far.
    pub source_gen: u64,
    /// The source that is currently honoured.
    pub active_source: Option<u64>,
    pub buffer_ms: u32,
    pub crossover_hz: Quantity,
    /// The chunks that were fanned out lately.
    pub history: Seq<Stamped>,
}

/// The relay.
pub struct Relay {
    pub next_id: u32,
    pub children: Registry<Child>,
    pub master_offset: Option<Quantity>,
    pub source_gen: u64,
    pub active_source: Option<u64>,
    pub buffer_ms: u32,
    pub crossover_hz: Quantity,
    pub history: History,
}

impl View for Relay {
    type V = RelayState;

    open spec fn view(&self) -> RelayState {
        RelayState {
            next_id: self.next_id,
            children: self.children.map().map_values(|child: Child| child@),
            master_offset: self.master_offset,
            source_gen: self.source_gen,
            active_source: self.active_source,
            buffer_ms: self.buffer_ms,
            crossover_hz: self.crossover_hz,
            history: self.history@,
        }
    }
}

impl RelayState {
    /// No child has a number that is still to be given out.
    pub open spec fn numbered(self) -> bool {
        forall|id: u32| #[trigger] self.children.contains_key(id) ==> id < self.next_id
    }

    /// A message for the master, where there is one.
    pub open spec fn to_master(self, said: Said) -> Seq<Posted> {
        if self.active_source is Some {
            seq![Posted::Master(said)]
        } else {
            Seq::empty()
        }
    }

    /// The children, in the order of their numbers.
    pub open spec fn roster(self) -> Said {
        Said::Roster(listing(self.children).map_values(|child: ChildState| child.row()))
    }

    /// The settings of one child, sent to it.
    pub open spec fn config_for(self, child: ChildState) -> Posted {
        Posted::Child(child.id, Said::Plain(child.config(self.crossover_hz, self.buffer_ms)))
    }

    /// The child that the next one to join will be. Devices alternate between the
    /// channels, so that no two neighbours emit the identical waveform.
    pub open spec fn newcomer(self, name: Seq<char>, kind: Seq<char>) -> ChildState {
        ChildState {
            id: self.next_id,
            name,
            kind,
            latency_ms: Quantity { bits: ZERO },
            jitter_ms: Quantity { bits: ZERO },
            suspect: false,
            role: "full"@,
            pan: if self.next_id % 2 == 1 { "left"@ } else { "right"@ },
            gain: Quantity { bits: DEFAULT_GAIN },
        }
    }

    /// A child joins.
    pub open spec fn joined(self, name: Seq<char>, kind: Seq<char>) -> RelayState {
        RelayState {
            next_id: if self.next_id == u32::MAX { 0 } else { (self.next_id + 1) as u32 },
            children: self.children.insert(self.next_id, self.newcomer(name, kind)),
            ..self
        }
    }

    /// The chunks of the history, sent to the child `id`.
    pub open spec fn backfill(self, id: u32) -> Seq<Posted> {
        frames(self.history).map_values(|bytes: Seq<u8>| Posted::Audio(id, bytes))
    }

    /// What is sent when a child joins. It is welcomed, given its settings, and sent the chunks
    /// of the history, so that it starts at once and in step with the others.
    pub open spec fn join_posts(self, name: Seq<char>, kind: Seq<char>) -> Seq<Posted> {
        self.to_master(Said::Plain(child_joined_members(self.next_id, name, kind))) + seq![
            Posted::Child(self.next_id, Said::Plain(welcome_members(self.next_id, self.buffer_ms))),
            self.config_for(self.newcomer(name, kind)),
        ] + self.backfill(self.next_id)
    }

    /// A chunk is fanned out. The history keeps it, and those that lie from `earliest` to
    /// `latest`: within one buffer of it.
    pub open spec fn fanned_out(
        self,
        play_at: Quantity,
        payload: Seq<u8>,
        earliest: Quantity,
        latest: Quantity,
    ) -> RelayState {
        RelayState {
            history: kept(self.history, earliest, latest).push(Stamped { play_at, payload }),
            ..self
        }
    }

    /// A child is gone.
    pub open spec fn left(self, id: u32) -> RelayState {
        RelayState { children: self.children.remove(id), ..self }
    }

    /// A child reports its round-trip time, and its jitter along with it.
    pub open spec fn reported(
        self,
        id: u32,
        rtt: Option<Quantity>,
        jitter: Option<Quantity>,
    ) -> RelayState {
        if rtt is Some && self.children.contains_key(id) {
            let child = self.children[id];
            RelayState {
                children: self.children.insert(
                    id,
                    ChildState {
                        latency_ms: rtt->0,
                        jitter_ms: match jitter {
                            Some(jitter) => jitter,
                            None => child.jitter_ms,
                        },
                        ..child
                    },
                ),
                ..self
            }
        } else {
            self
        }
    }

    /// The jitters of the measured children.
    pub open spec fn jitters(self) -> Seq<Quantity> {
        measured_jitters(listing(self.children))
    }

    /// There are enough measured children to judge one of them.
    pub open spec fn quorate(self) -> bool {
        self.jitters().len() >= QUORUM
    }

    /// The child after it was judged by `limit`. Without a quorum nobody is suspect, and a
    /// child that was never measured is left alone.
    pub open spec fn verdict(self, limit: Quantity, child: ChildState) -> ChildState {
        ChildState {
            suspect: if !self.quorate() {
                false
            } else if child.measured() {
                limit.below(child.jitter_ms) && Quantity { bits: TOLERATED_JITTER }.below(
                    child.jitter_ms,
                )
            } else {
                child.suspect
            },
            ..child
        }
    }

    /// Every child is judged.
    pub open spec fn judged(self, limit: Quantity) -> RelayState {
        RelayState {
            children: self.children.map_values(|child: ChildState| self.verdict(limit, child)),
            ..self
        }
    }

    /// The children whose verdict changed are told.
    pub open spec fn verdict_posts(self, limit: Quantity) -> Seq<Posted> {
        self.changes(limit, listing(self.children))
    }

    /// Those of `children` whose verdict changed are told.
    pub open spec fn changes(self, limit: Quantity, children: Seq<ChildState>) -> Seq<Posted>
        decreases children.len(),
    {
        if children.len() == 0 {
            Seq::empty()
        } else {
            let rest = self.changes(limit, children.drop_last());
            let after = self.verdict(limit, children.last());
            if after.suspect != children.last().suspect {
                rest.push(self.config_for(after))
            } else {
                rest
            }
        }
    }

    /// A new source takes over.
    pub open spec fn sourced(self) -> RelayState {
        RelayState {
            source_gen: (self.source_gen + 1) as u64,
            active_source: Some((self.source_gen + 1) as u64),
            ..self
        }
    }

    /// A source is gone. Only the current one leaves the relay without a master.
    pub open spec fn unsourced(self, gen: u64) -> RelayState {
        if self.active_source == Some(gen) {
            RelayState { active_source: None, ..self }
        } else {
            self
        }
    }

    /// The offset after a fresh `candidate`; `leaked` is the current one moved up by the
    /// leak. A tighter candidate is taken at once.
    pub open spec fn next_offset(self, candidate: Quantity, leaked: Quantity) -> Quantity {
        match self.master_offset {
            None => candidate,
            Some(current) => if candidate.below(current) {
                candidate
            } else {
                leaked
            },
        }
    }

    /// What the master orders is done.
    pub open spec fn ordered(self, order: Ordered) -> RelayState {
        match order {
            Ordered::Hello { buffer_ms, crossover_hz } => RelayState {
                buffer_ms: match buffer_ms {
                    Some(ms) => (ms as int % 0x1_0000_0000) as u32,
                    None => self.buffer_ms,
                },
                crossover_hz: match crossover_hz {
                    Some(hz) => hz,
                    None => self.crossover_hz,
                },
                ..self
            },
            Ordered::SetConfig { id, role, pan, gain } => if self.children.contains_key(id) {
                RelayState {
                    children: self.children.insert(
                        id,
                        adjusted(self.children[id], role, pan, gain),
                    ),
                    ..self
                }
            } else {
                self
            },
            Ordered::SetCrossover { hz } => RelayState {
                crossover_hz: match hz {
                    Some(hz) => hz,
                    None => self.crossover_hz,
                },
                ..self
            },
            Ordered::Ignored => self,
        }
    }

    /// What is sent for what the master orders.
    pub open spec fn order_posts(self, order: Ordered) -> Seq<Posted> {
        match order {
            Ordered::SetConfig { id, role, pan, gain } => if self.children.contains_key(id) {
                seq![self.config_for(adjusted(self.children[id], role, pan, gain))]
            } else {
                Seq::empty()
            },
            Ordered::SetCrossover { hz } => {
                let after = self.ordered(order);
                listing(self.children).map_values(|child: ChildState| after.config_for(child))
            },
            _ => Seq::empty(),
        }
    }
}

/// A child with new settings, as far as some are given.
pub open spec fn adjusted(
    child: ChildState,
    role: Option<Seq<char>>,
    pan: Option<Seq<char>>,
    gain: Option<Quantity>,
) -> ChildState {
    ChildState {
        role: match role {
            Some(role) => role,
            None => child.role,
        },
        pan: match pan {
            Some(pan) => pan,
            None => child.pan,
        },
        gain: match gain {
            Some(gain) => gain,
            None => child.gain,
        },
        ..child
    }
}

/// The jitters of those children that are measured.
pub open spec fn measured_jitters(children: Seq<ChildState>) -> Seq<Quantity>
    decreases children.len(),
{
    if children.len() == 0 {
        Seq::empty()
    } else if children.last().measured() {
        measured_jitters(children.drop_last()).push(children.last().jitter_ms)
    } else {
        measured_jitters(children.drop_last())
    }
}

/// What a master orders.
pub enum Order {
    Hello { buffer_ms: Option<u64>, crossover_hz: Option<Quantity> },
    SetConfig { id: u32, role: Option<String>, pan: Option<String>, gain: Option<Quantity> },
    SetCrossover { hz: Option<Quantity> },
    Ignored,
}

/// What a master orders.
pub enum Ordered {
    Hello { buffer_ms: Option<u64>, crossover_hz: Option<Quantity> },
    SetConfig { id: u32, role: Option<Seq<char>>, pan: Option<Seq<char>>, gain: Option<Quantity> },
    SetCrossover { hz: Option<Quantity> },
    Ignored,
}

impl View for Order {
    type V = Ordered;

    open spec fn view(&self) -> Ordered {
        match self {
            Order::Hello { buffer_ms, crossover_hz } => Ordered::Hello {
                buffer_ms: *buffer_ms,
                crossover_hz: *crossover_hz,
            },
            Order::SetConfig { id, role, pan, gain } => Ordered::SetConfig {
                id: *id,
                role: maybe_text(*role),
                pan: maybe_text(*pan),
                gain: *gain,
            },
            Order::SetCrossover { hz } => Ordered::SetCrossover { hz: *hz },
            Order::Ignored => Ordered::Ignored,
        }
    }
}

/// What a text with these members orders.
pub open spec fn order_meant(members: Map<Seq<char>, Parsed>) -> Ordered {
    let kind = text_of(members, "type"@);
    if kind == Some("source_hello"@) {
        Ordered::Hello {
            buffer_ms: count_of(members, "buffer_ms"@),
            crossover_hz: number_of(members, "crossover_hz"@),
        }
    } else if kind == Some("set_config"@) {
        Ordered::SetConfig {
            id: match count_of(members, "id"@) {
                Some(id) => (id as int % 0x1_0000_0000) as u32,
                None => 0,
            },
            role: text_of(members, "role"@),
            pan: text_of(members, "pan"@),
            gain: number_of(members, "gain"@),
        }
    } else if kind == Some("set_crossover"@) {
        Ordered::SetCrossover { hz: number_of(members, "hz"@) }
    } else {
        Ordered::Ignored
    }
}

/// What a text that the master sends orders.
pub open spec fn text_order(text: Seq<char>) -> Ordered {
    match text_members(text) {
        Some(members) => order_meant(members),
        None => Ordered::Ignored,
    }
}

/// Reads what the master orders. The numbers are as they were sent; a caller that keeps
/// them in a narrower format narrows them before it hands the order on.
pub fn read_order(text: &str) -> (r: Order)
    ensures
        r@ == text_order(text@),
{
    let value = match parse(text) {
        Some(value) => value,
        None => {
            return Order::Ignored;
        },
    };
    let kind = match text_member(&value, "type") {
        Some(kind) => kind,
        None => {
            return Order::Ignored;
        },
    };
    if same(kind.as_str(), "source_hello") {
        Order::Hello {
            buffer_ms: count_member(&value, "buffer_ms"),
            crossover_hz: number_member(&value, "crossover_hz"),
        }
    } else if same(kind.as_str(), "set_config") {
        let id: u32 = match count_member(&value, "id") {
            Some(id) => (id % 0x1_0000_0000) as u32,
            None => 0,
        };
        Order::SetConfig {
            id,
            role: text_member(&value, "role"),
            pan: text_member(&value, "pan"),
            gain: number_member(&value, "gain"),
        }
    } else if same(kind.as_str(), "set_crossover") {
        Order::SetCrossover { hz: number_member(&value, "hz") }
    } else {
        Order::Ignored
    }
}

/// What a child says after its hello.
pub enum Report {
    /// It asks for the clock, and reports what it has measured.
    Ping { t0: Quantity, rtt: Option<Quantity>, jitter: Option<Quantity> },
    Ignored,
}

/// What a text with these members says.
pub open spec fn report_in(members: Map<Seq<char>, Parsed>) -> Report {
    if text_of(members, "type"@) == Some("ping"@) {
        Report::Ping {
            t0: match number_of(members, "t0"@) {
                Some(t0) => t0,
                None => Quantity { bits: ZERO },
            },
            rtt: number_of(members, "rtt"@),
            jitter: number_of(members, "jitter"@),
        }
    } else {
        Report::Ignored
    }
}

/// What a text that a child sends says.
pub open spec fn text_report(text: Seq<char>) -> Report {
    match text_members(text) {
        Some(members) => report_in(members),
        None => Report::Ignored,
    }
}

/// Reads what a child says after its hello.
pub fn read_report(text: &str) -> (r: Report)
    ensures
        r == text_report(text@),
        r matches Report::Ping { rtt: Some(rtt), .. } ==> !rtt.nan(),
        r matches Report::Ping { jitter: Some(jitter), .. } ==> !jitter.nan(),
{
    let value = match parse(text) {
        Some(value) => value,
        None => {
            return Report::Ignored;
        },
    };
    match text_member(&value, "type") {
        Some(kind) => {
            if same(kind.as_str(), "ping") {
                let t0 = match number_member(&value, "t0") {
                    Some(t0) => t0,
                    None => Quantity::new(ZERO),
                };
                Report::Ping {
                    t0,
                    rtt: number_member(&value, "rtt"),
                    jitter: number_member(&value, "jitter"),
                }
            } else {
                Report::Ignored
            }
        },
        None => Report::Ignored,
    }
}

/// The name and the kind that a hello gives; `None` where the text is no hello.
pub open spec fn text_hello(text: Seq<char>) -> Option<(Seq<char>, Seq<char>)> {
    match text_members(text) {
        Some(members) => if text_of(members, "type"@) == Some("hello"@) {
            Some(
                (
                    match text_of(members, "name"@) {
                        Some(name) => name,
                        None => "Speaker"@,
                    },
                    match text_of(members, "kind"@) {
                        Some(kind) => kind,
                        None => "browser"@,
                    },
                ),
            )
        } else {
            None
        },
        None => None,
    }
}

/// Reads the name and the kind of a child out of its hello.
pub fn read_hello(text: &str) -> (r: Option<(String, String)>)
    ensures
        match r {
            Some((name, kind)) => text_hello(text@) == Some((name@, kind@)),
            None => text_hello(text@) is None,
        },
{
    let value = match parse(text) {
        Some(value) => value,
        None => {
            return None;
        },
    };
    let hello = match text_member(&value, "type") {
        Some(kind) => same(kind.as_str(), "hello"),
        None => false,
    };
    if !hello {
        return None;
    }
    let name = match text_member(&value, "name") {
        Some(name) => name,
        None => "Speaker".to_owned(),
    };
    let kind = match text_member(&value, "kind") {
        Some(kind) => kind,
        None => "browser".to_owned(),
    };
    Some((name, kind))
}

/// The first thing that arrives on a child's socket admits the child, if it is a hello.
pub fn greet(first: &Incoming) -> (r: Option<(String, String)>)
    ensures
        match r {
            Some((name, kind)) => first matches Incoming::Text(text) && text_hello(text@) == Some(
                (name@, kind@),
            ),
            None => first matches Incoming::Text(text) ==> text_hello(text@) is None,
        },
{
    match first {
        Incoming::Text(text) => read_hello(text.as_str()),
        _ => None,
    }
}

/// What a source's message calls for.
pub enum SourceStep {
    /// The source is stale or gone.
    Stop,
    /// Audio to stamp and to fan out.
    Audio { master_ts: Quantity, payload: Vec<u8> },
    /// An order to carry out.
    Control(Order),
    Pass,
}

/// What a source's message calls for.
pub enum SourceMove {
    Stop,
    Audio { master_ts: Quantity, payload: Seq<u8> },
    Control(Ordered),
    Pass,
}

impl View for SourceStep {
    type V = SourceMove;

    open spec fn view(&self) -> SourceMove {
        match self {
            SourceStep::Stop => SourceMove::Stop,
            SourceStep::Audio { master_ts, payload } => SourceMove::Audio {
                master_ts: *master_ts,
                payload: payload@,
            },
            SourceStep::Control(order) => SourceMove::Control(order@),
            SourceStep::Pass => SourceMove::Pass,
        }
    }
}

impl RelayState {
    /// What a message of the source `gen` calls for. A stale source is stopped, whatever
    /// it sends.
    pub open spec fn source_move(self, gen: u64, incoming: Incoming) -> SourceMove {
        if self.active_source != Some(gen) {
            SourceMove::Stop
        } else {
            match incoming {
                Incoming::Binary(bin) => if is_audio(bin@) && bin@.len() > HEADER {
                    SourceMove::Audio {
                        master_ts: frame_time(bin@),
                        payload: frame_payload(bin@),
                    }
                } else {
                    SourceMove::Pass
                },
                Incoming::Text(text) => SourceMove::Control(text_order(text@)),
                Incoming::Other => SourceMove::Pass,
                Incoming::Close | Incoming::Gone => SourceMove::Stop,
            }
        }
    }

    /// The relay after something arrived from the child `id`.
    pub open spec fn heard(self, id: u32, incoming: Incoming) -> RelayState {
        match incoming {
            Incoming::Text(text) => match text_report(text@) {
                Report::Ping { rtt, jitter, .. } => self.reported(id, rtt, jitter),
                Report::Ignored => self,
            },
            Incoming::Close | Incoming::Gone => self.left(id),
            _ => self,
        }
    }

    /// What is sent when something arrives from the child `id` at the time `now`.
    pub open spec fn heard_posts(self, id: u32, incoming: Incoming, now: Quantity) -> Seq<Posted> {
        match incoming {
            Incoming::Text(text) => match text_report(text@) {
                Report::Ping { t0, .. } => seq![
                    Posted::Child(id, Said::Plain(pong_members(t0, now))),
                ],
                Report::Ignored => Seq::empty(),
            },
            Incoming::Close | Incoming::Gone => self.to_master(
                Said::Plain(child_left_members(id)),
            ),
            _ => Seq::empty(),
        }
    }
}

impl Relay {
    /// The children are filed in order, their measurements are numbers, and no source is older
    /// than the first or newer than the last.
    pub open spec fn wf(&self) -> bool {
        &&& self.children.wf()
        &&& forall|id: u32| #[trigger]
            self.children.map().contains_key(id) ==> self.children.map()[id]@.numeric()
        &&& self.active_source matches Some(gen) ==> 0 < gen <= self.source_gen
    }

    /// A relay without children and without a master.
    pub fn new() -> (r: Relay)
        ensures
            r.wf(),
            r@ == (RelayState {
                next_id: 1,
                children: Map::empty(),
                master_offset: None,
                source_gen: 0,
                active_source: None,
                buffer_ms: DEFAULT_BUFFER_MS,
                crossover_hz: Quantity { bits: DEFAULT_CROSSOVER },
                history: Seq::empty(),
            }),
    {
        let r = Relay {
            next_id: 1,
            children: Registry::new(),
            master_offset: None,
            source_gen: 0,
            active_source: None,
            buffer_ms: DEFAULT_BUFFER_MS,
            crossover_hz: Quantity::new(DEFAULT_CROSSOVER),
            history: History::new(),
        };
        assert(r@.children =~= Map::empty());
        r
    }

    /// A message for the master, where there is one.
    fn notify_master(&self, message: Message) -> (r: Vec<Post>)
        ensures
            posted(r@) == self@.to_master(message@),
    {
        let mut posts: Vec<Post> = Vec::new();
        if self.active_source.is_some() {
            posts.push(Post::Master(message));
        }
        assert(posted(posts@) =~= self@.to_master(message@));
        posts
    }

    /// What is known of the children, in their order.
    proof fn listing_of_children(&self)
        requires
            self.wf(),
        ensures
            listing(self@.children) == self.children@.map_values(|child: Child| child@),
    {
        directory_of_images(self.children@, |child: Child| child@);
    }

    /// The children, in the order of their numbers.
    pub fn roster(&self) -> (r: Message)
        requires
            self.wf(),
        ensures
            r@ == self@.roster(),
    {
        let mut rows: Vec<Record> = Vec::new();
        let mut i: usize = 0;
        while i < self.children.len()
            invariant
                i <= self.children@.len(),
                rows@.len() == i,
                forall|j: int| 0 <= j < i ==> (#[trigger] rows@[j])@ == self.children@[j]@.row(),
            decreases self.children@.len() - i,
        {
            rows.push(self.children.at(i).row());
            i = i + 1;
        }
        let message = Message::Roster(rows);
        proof {
            self.listing_of_children();
            assert(rows@.map_values(|row: Record| row@) =~= listing(self@.children).map_values(
                |child: ChildState| child.row(),
            ));
        }
        message
    }

    /// A child joins: it gets a number, is announced to the master, is welcomed, and is sent
    /// the chunks of the history.
    pub fn join(&mut self, name: String, kind: String) -> (r: (u32, Vec<Post>))
        requires
            old(self).wf(),
        ensures
            final(self).wf(),
            r.0 == old(self).next_id,
            final(self)@ == old(self)@.joined(name@, kind@),
            posted(r.1@) == old(self)@.join_posts(name@, kind@),
    {
        let ghost before = self@;
        let id = self.next_id;
        self.next_id = if id == u32::MAX { 0 } else { id + 1 };
        let mut posts = self.notify_master(
            Message::Plain(child_joined_record(id, name.as_str(), kind.as_str())),
        );
        let child = Child {
            id,
            name,
            kind,
            latency_ms: Quantity::new(ZERO),
            jitter_ms: Quantity::new(ZERO),
            suspect: false,
            role: "full".to_owned(),
            pan: (if id % 2 == 1 { "left" } else { "right" }).to_owned(),
            gain: Quantity::new(DEFAULT_GAIN),
        };
        assert(child@ == before.newcomer(name@, kind@));
        let ghost announced = posts@;
        posts.push(Post::Child(id, Message::Plain(welcome_record(id, self.buffer_ms))));
        posts.push(Post::Child(id, child.config_json(self.crossover_hz, self.buffer_ms)));
        let ghost greeted = posted(announced) + seq![
            Posted::Child(id, Said::Plain(welcome_members(id, self.buffer_ms))),
            before.config_for(child@),
        ];
        assert(posted(posts@) =~= greeted);
        let mut missed = self.backfill_posts(id);
        let ghost (a, b) = (posts@, missed@);
        posts.append(&mut missed);
        assert(posted(posts@) =~= posted(a) + posted(b));
        assert(posted(posts@) =~= before.join_posts(name@, kind@));
        let ghost map = self.children.map();
        self.children.insert(child);
        proof {
            image_of_insert(map, |c: Child| c@, id, child);
        }
        (id, posts)
    }

    /// The chunks of the history, sent to the child `id`.
    fn backfill_posts(&self, id: u32) -> (r: Vec<Post>)
        ensures
            posted(r@) == self@.backfill(id),
    {
        let mut missed = self.history.frames();
        let ghost all = missed@;
        let ghost wanted = self@.backfill(id);
        assert forall|j: int| 0 <= j < all.len() implies wanted[j] == Posted::Audio(
            id,
            (#[trigger] all[j])@,
        ) by {
            assert(all.map_values(|bytes: Vec<u8>| bytes@)[j] == all[j]@);
        }
        let mut posts: Vec<Post> = Vec::new();
        while missed.len() > 0
            invariant
                posts@.len() + missed@.len() == all.len(),
                missed@ == all.skip(posts@.len() as int),
                wanted.len() == all.len(),
                forall|j: int|
                    0 <= j < all.len() ==> wanted[j] == Posted::Audio(id, (#[trigger] all[j])@),
                forall|j: int| 0 <= j < posts@.len() ==> (#[trigger] posts@[j])@ == wanted[j],
            decreases missed@.len(),
        {
            let ghost done = posts@.len() as int;
            assert(missed@[0] == all[done]);
            let bytes = missed.remove(0);
            assert(missed@ =~= all.skip(done + 1));
            posts.push(Post::Audio(id, bytes));
        }
        assert(posted(posts@) =~= wanted);
        posts
    }

    /// Fans a chunk out: returns the frame for every child, and keeps the chunk for children
    /// that join later. `earliest` and `latest` are its time less and plus the buffer.
    pub fn fan_out(
        &mut self,
        play_at: Quantity,
        payload: Vec<u8>,
        earliest: Quantity,
        latest: Quantity,
    ) -> (r: Vec<u8>)
        requires
            old(self).wf(),
        ensures
            final(self).wf(),
            r@ == frame(play_at, payload@),
            final(self)@ == old(self)@.fanned_out(play_at, payload@, earliest, latest),
    {
        let bytes = encode_payload(play_at, payload.as_slice());
        self.history.push(play_at, payload, earliest, latest);
        bytes
    }

    /// A child is gone, and the master is told.
    pub fn leave(&mut self, id: u32) -> (r: Vec<Post>)
        requires
            old(self).wf(),
        ensures
            final(self).wf(),
            final(self)@ == old(self)@.left(id),
            posted(r@) == old(self)@.to_master(Said::Plain(child_left_members(id))),
    {
        let ghost map = self.children.map();
        self.children.remove(id);
        proof {
            image_of_remove(map, |c: Child| c@, id);
        }
        self.notify_master(Message::Plain(child_left_record(id)))
    }

    /// A child reports its round-trip time, and its jitter along with it.
    pub fn report(&mut self, id: u32, rtt: Option<Quantity>, jitter: Option<Quantity>)
        requires
            old(self).wf(),
            rtt matches Some(rtt) ==> !rtt.nan(),
            jitter matches Some(jitter) ==> !jitter.nan(),
        ensures
            final(self).wf(),
            final(self)@ == old(self)@.reported(id, rtt, jitter),
    {
        let ghost map = self.children.map();
        if let Some(rtt) = rtt {
            if let Some(child) = self.children.get_mut(id) {
                child.latency_ms = rtt;
                if let Some(jitter) = jitter {
                    child.jitter_ms = jitter;
                }
                proof {
                    image_of_insert(map, |c: Child| c@, id, *child);
                }
            }
        }
    }

    /// Handles what arrives from the child `id` at the time `now`. A ping is answered by
    /// the relay's clock; a child that closes or vanishes is removed, and `r.1` says so.
    pub fn child_step(&mut self, id: u32, incoming: &Incoming, now: Quantity) -> (r: (
        Vec<Post>,
        bool,
    ))
        requires
            old(self).wf(),
        ensures
            final(self).wf(),
            final(self)@ == old(self)@.heard(id, *incoming),
            posted(r.0@) == old(self)@.heard_posts(id, *incoming, now),
            r.1 == (incoming is Close || incoming is Gone),
    {
        let mut posts: Vec<Post> = Vec::new();
        assert(posted(posts@) =~= Seq::empty());
        match incoming {
            Incoming::Text(text) => {
                match read_report(text.as_str()) {
                    Report::Ping { t0, rtt, jitter } => {
                        posts.push(Post::Child(id, Message::Plain(pong_record(t0, now))));
                        assert(posted(posts@) =~= self@.heard_posts(id, *incoming, now));
                        self.report(id, rtt, jitter);
                    },
                    Report::Ignored => {},
                }
                (posts, false)
            },
            Incoming::Close | Incoming::Gone => (self.leave(id), true),
            _ => (posts, false),
        }
    }

    /// A source connects and takes over; it is sent the roster at once.
    pub fn source_connect(&mut self) -> (r: (u64, Vec<Post>))
        requires
            old(self).wf(),
            old(self).source_gen < u64::MAX,
        ensures
            final(self).wf(),
            r.0 == old(self).source_gen + 1,
            final(self)@ == old(self)@.sourced(),
            posted(r.1@) == seq![Posted::Master(old(self)@.roster())],
    {
        let gen = self.source_gen + 1;
        self.source_gen = gen;
        self.active_source = Some(gen);
        let roster = self.roster();
        (gen, self.notify_master(roster))
    }

    /// What a message of the source `gen` calls for.
    pub fn source_step(&self, gen: u64, incoming: &Incoming) -> (r: SourceStep)
        ensures
            r@ == self@.source_move(gen, *incoming),
    {
        let current = match self.active_source {
            Some(active) => active == gen,
            None => false,
        };
        if !current {
            return SourceStep::Stop;
        }
        match incoming {
            Incoming::Binary(bin) => match decode_payload(bin.as_slice()) {
                Some((master_ts, payload)) => SourceStep::Audio { master_ts, payload },
                None => SourceStep::Pass,
            },
            Incoming::Text(text) => SourceStep::Control(read_order(text.as_str())),
            Incoming::Other => SourceStep::Pass,
            Incoming::Close | Incoming::Gone => SourceStep::Stop,
        }
    }

    /// A source is gone. A stale one leaves no trace.
    pub fn source_gone(&mut self, gen: u64)
        requires
            old(self).wf(),
        ensures
            final(self).wf(),
            final(self)@ == old(self)@.unsourced(gen),
    {
        let current = match self.active_source {
            Some(active) => active == gen,
            None => false,
        };
        if current {
            self.active_source = None;
        }
    }

    /// Updates the master's clock offset by a fresh candidate, and returns it. `leaked` is
    /// the current offset, moved towards the candidate by no more than the leak.
    pub fn update_master_offset(&mut self, candidate: Quantity, leaked: Quantity) -> (r: Quantity)
        requires
            old(self).wf(),
        ensures
            final(self).wf(),
            r == old(self)@.next_offset(candidate, leaked),
            final(self)@ == (RelayState { master_offset: Some(r), ..old(self)@ }),
    {
        let next = match self.master_offset {
            None => candidate,
            Some(current) => if candidate.lt(&current) {
                candidate
            } else {
                leaked
            },
        };
        self.master_offset = Some(next);
        next
    }

    /// The jitters of the measured children.
    fn jitters(&self) -> (r: Vec<Quantity>)
        requires
            self.wf(),
        ensures
            r@ == self@.jitters(),
    {
        let ghost list = listing(self@.children);
        proof {
            self.listing_of_children();
        }
        let mut out: Vec<Quantity> = Vec::new();
        let mut i: usize = 0;
        while i < self.children.len()
            invariant
                i <= self.children@.len(),
                list == self.children@.map_values(|child: Child| child@),
                out@ == measured_jitters(list.take(i as int)),
            decreases self.children@.len() - i,
        {
            let child = self.children.at(i);
            assert(list.take(i + 1).drop_last() =~= list.take(i as int));
            assert(list.take(i + 1).last() == child@);
            if child.is_measured() {
                out.push(child.jitter_ms);
            }
            i = i + 1;
        }
        assert(list.take(i as int) =~= list);
        out
    }

    /// The median jitter of the measured children; `None` without a quorum. It is what the
    /// limit for a verdict is worked out from.
    pub fn jitter_median(&self) -> (r: Option<Quantity>)
        requires
            self.wf(),
        ensures
            match r {
                Some(m) => self@.quorate() && middle(m, self@.jitters()),
                None => !self@.quorate(),
            },
    {
        let jitters = self.jitters();
        if jitters.len() < QUORUM {
            None
        } else {
            Some(median(&jitters))
        }
    }

    /// Flags the children that the group considers sync outliers: much jitterier than the
    /// peer median, as `limit` has it. Without a quorum `limit` does not matter. Every
    /// child whose flag changed is sent its settings.
    pub fn recompute_suspects(&mut self, limit: Quantity) -> (r: Vec<Post>)
        requires
            old(self).wf(),
        ensures
            final(self).wf(),
            final(self)@ == old(self)@.judged(limit),
            posted(r@) == old(self)@.verdict_posts(limit),
    {
        let ghost start = self@;
        let ghost first = self.children@;
        let ghost list = listing(start.children);
        proof {
            self.listing_of_children();
        }
        let jitters = self.jitters();
        let quorate = jitters.len() >= QUORUM;
        let mut posts: Vec<Post> = Vec::new();
        let mut i: usize = 0;
        assert(list.take(0) =~= Seq::empty());
        assert(posted(posts@) =~= start.changes(limit, list.take(0)));
        while i < self.children.len()
            invariant
                self.children.wf(),
                quorate == start.quorate(),
                i <= self.children@.len(),
                self.children@.len() == first.len(),
                list == first.map_values(|child: Child| child@),
                forall|j: int|
                    0 <= j < i ==> (#[trigger] self.children@[j])@ == start.verdict(limit, list[j]),
                forall|j: int|
                    i <= j < first.len() ==> #[trigger] self.children@[j] == first[j],
                posted(posts@) == start.changes(limit, list.take(i as int)),
                self.next_id == start.next_id,
                self.master_offset == start.master_offset,
                self.source_gen == start.source_gen,
                self.active_source == start.active_source,
                self.buffer_ms == start.buffer_ms,
                self.crossover_hz == start.crossover_hz,
                self.history@ == start.history,
            decreases self.children@.len() - i,
        {
            let child = self.children.at(i);
            let suspect = if !quorate {
                false
            } else if child.is_measured() {
                limit.lt(&child.jitter_ms) && Quantity::new(TOLERATED_JITTER).lt(&child.jitter_ms)
            } else {
                child.suspect
            };
            assert(list.take(i + 1).drop_last() =~= list.take(i as int));
            assert(list.take(i + 1).last() == first[i as int]@);
            assert(suspect == start.verdict(limit, list[i as int]).suspect);
            if suspect != child.suspect {
                let ghost told = posts@;
                let child = self.children.at_mut(i);
                child.suspect = suspect;
                assert(child@ == start.verdict(limit, list[i as int]));
                let id = child.id;
                let config = child.config_json(self.crossover_hz, self.buffer_ms);
                posts.push(Post::Child(id, config));
                assert(posted(posts@) =~= posted(told).push(
                    start.config_for(start.verdict(limit, list[i as int])),
                ));
            }
            i = i + 1;
        }
        proof {
            assert(list.take(i as int) =~= list);
            let verdict = |child: ChildState| start.verdict(limit, child);
            let view = |child: Child| child@;
            assert(self.children@.map_values(view) =~= list.map_values(verdict));
            directory_of_images(self.children@, view);
            directory_of_images(first, view);
            directory_of_images(list, verdict);
            assert(self@.children == start.children.map_values(verdict));
            assert forall|id: u32| #[trigger]
                self.children.map().contains_key(id) implies self.children.map()[id]@.numeric() by {
                let k = found_is_entry(self.children@, id);
                assert(self.children@[k]@ == start.verdict(limit, list[k]));
                entry_is_found(first, k);
            }
        }
        posts
    }

    /// Judges the children and shows the master the roster; to be called once a second.
    pub fn tick(&mut self, limit: Quantity) -> (r: Vec<Post>)
        requires
            old(self).wf(),
        ensures
            final(self).wf(),
            final(self)@ == old(self)@.judged(limit),
            posted(r@) == old(self)@.verdict_posts(limit) + old(self)@.to_master(
                final(self)@.roster(),
            ),
    {
        let mut posts = self.recompute_suspects(limit);
        let roster = self.roster();
        let mut shown = self.notify_master(roster);
        let ghost (a, b) = (posts@, shown@);
        posts.append(&mut shown);
        assert(posted(posts@) =~= posted(a) + posted(b));
        posts
    }

    /// Carries out what the master orders.
    pub fn carry_out(&mut self, order: Order) -> (r: Vec<Post>)
        requires
            old(self).wf(),
        ensures
            final(self).wf(),
            final(self)@ == old(self)@.ordered(order@),
            posted(r@) == old(self)@.order_posts(order@),
    {
        let ghost start = self@;
        let mut posts: Vec<Post> = Vec::new();
        assert(posted(posts@) =~= Seq::empty());
        match order {
            Order::Hello { buffer_ms, crossover_hz } => {
                if let Some(ms) = buffer_ms {
                    self.buffer_ms = (ms % 0x1_0000_0000) as u32;
                }
                if let Some(hz) = crossover_hz {
                    self.crossover_hz = hz;
                }
            },
            Order::SetConfig { id, role, pan, gain } => {
                let ghost map = self.children.map();
                if let Some(child) = self.children.get_mut(id) {
                    if let Some(role) = role {
                        child.role = role;
                    }
                    if let Some(pan) = pan {
                        child.pan = pan;
                    }
                    if let Some(gain) = gain {
                        child.gain = gain;
                    }
                    assert(child@ == adjusted(map[id]@, maybe_text(role), maybe_text(pan), gain));
                    let config = child.config_json(self.crossover_hz, self.buffer_ms);
                    posts.push(Post::Child(id, config));
                    proof {
                        image_of_insert(map, |c: Child| c@, id, *child);
                        assert(start.children[id] == map[id]@);
                        assert(posted(posts@) =~= start.order_posts(order@));
                    }
                }
            },
            Order::SetCrossover { hz } => {
                if let Some(hz) = hz {
                    self.crossover_hz = hz;
                }
                let ghost after = self@;
                let ghost list = listing(start.children);
                proof {
                    self.listing_of_children();
                }
                let mut i: usize = 0;
                while i < self.children.len()
                    invariant
                        i <= self.children@.len(),
                        posts@.len() == i,
                        after == self@,
                        list == self.children@.map_values(|child: Child| child@),
                        forall|j: int|
                            0 <= j < i ==> (#[trigger] posts@[j])@ == after.config_for(list[j]),
                    decreases self.children@.len() - i,
                {
                    let child = self.children.at(i);
                    posts.push(
                        Post::Child(
                            child.id,
                            child.config_json(self.crossover_hz, self.buffer_ms),
                        ),
                    );
                    i = i + 1;
                }
                assert(posted(posts@) =~= start.order_posts(order@));
            },
            Order::Ignored => {},
        }
        posts
    }
}

/// A source that is not the current one can neither inject audio nor give orders, and its
/// going leaves the current one in charge.
pub proof fn stale_source_is_powerless(state: RelayState, gen: u64, incoming: Incoming)
    requires
        state.active_source != Some(gen),
    ensures
        state.source_move(gen, incoming) == SourceMove::Stop,
        state.unsourced(gen) == state,
{
}

/// The newest source takes over: it is honoured from then on, and no source from before it
/// is.
pub proof fn newest_source_takes_over(state: RelayState, earlier: u64, incoming: Incoming)
    requires
        state.source_gen < u64::MAX,
        earlier <= state.source_gen,
    ensures
        state.sourced().active_source == Some((state.source_gen + 1) as u64),
        state.sourced().source_move(earlier, incoming) == SourceMove::Stop,
        state.sourced().unsourced(earlier) == state.sourced(),
        state.sourced().unsourced((state.source_gen + 1) as u64).active_source is None,
{
}

/// Two children that join one after the other play different channels.
pub proof fn neighbours_play_different_channels(
    state: RelayState,
    first: (Seq<char>, Seq<char>),
    second: (Seq<char>, Seq<char>),
)
    ensures
        state.newcomer(first.0, first.1).pan != state.joined(first.0, first.1).newcomer(
            second.0,
            second.1,
        ).pan,
{
    reveal_strlit("left");
    reveal_strlit("right");
    assert("left"@[0] != "right"@[0]);
}

/// A child that joins and leaves again is forgotten: the other children, the settings and
/// the source are as before.
pub proof fn leaving_undoes_joining(state: RelayState, name: Seq<char>, kind: Seq<char>)
    requires
        !state.children.contains_key(state.next_id),
    ensures
        state.joined(name, kind).left(state.next_id) == (RelayState {
            next_id: state.joined(name, kind).next_id,
            ..state
        }),
{
    assert(state.joined(name, kind).left(state.next_id).children =~= state.children);
}

/// A child joins and is known from then on, and so is every child from before it that had
/// another number.
pub proof fn joining_keeps_the_others(state: RelayState, name: Seq<char>, kind: Seq<char>, id: u32)
    ensures
        state.joined(name, kind).children.contains_key(state.next_id),
        id != state.next_id ==> {
            &&& state.joined(name, kind).children.contains_key(id)
                == state.children.contains_key(id)
            &&& state.children.contains_key(id) ==> state.joined(name, kind).children[id]
                == state.children[id]
        },
{
}

/// A child that joins is sent every chunk that lies within one buffer of the newest, the newest
/// among them, each with its own time and payload, and no other audio.
pub proof fn newcomers_are_backfilled(
    state: RelayState,
    play_at: Quantity,
    payload: Seq<u8>,
    earliest: Quantity,
    latest: Quantity,
    name: Seq<char>,
    kind: Seq<char>,
    chunk: Stamped,
)
    ensures
        ({
            let newest = Stamped { play_at, payload };
            let after = state.fanned_out(play_at, payload, earliest, latest);
            let posts = after.join_posts(name, kind);
            &&& chunk == newest || state.history.contains(chunk) && chunk.within(earliest, latest)
                ==> posts.contains(
                Posted::Audio(after.next_id, frame(chunk.play_at, chunk.payload)),
            )
            &&& forall|i: int|
                0 <= i < posts.len() && (#[trigger] posts[i]) is Audio ==> exists|sent: Stamped|
                    {
                        &&& sent == newest || state.history.contains(sent) && sent.within(
                            earliest,
                            latest,
                        )
                        &&& posts[i] == Posted::Audio(after.next_id, #[trigger] sent.frame())
                    }
        }),
{
    let newest = Stamped { play_at, payload };
    let after = state.fanned_out(play_at, payload, earliest, latest);
    let rest = kept(state.history, earliest, latest);
    let posts = after.join_posts(name, kind);
    let tail = after.backfill(after.next_id);
    let head = posts.len() - tail.len();
    assert(forall|j: int| 0 <= j < tail.len() ==> posts[head + j] == #[trigger] tail[j]);
    assert(forall|j: int|
        0 <= j < tail.len() ==> #[trigger] tail[j] == Posted::Audio(
            after.next_id,
            after.history[j].frame(),
        ));
    kept_chunks_lie_in_range(state.history, earliest, latest, chunk);
    if chunk == newest {
        let j = after.history.len() - 1;
        assert(tail[j] == posts[head + j]);
    } else if rest.contains(chunk) {
        let j = choose|j: int| 0 <= j < rest.len() && rest[j] == chunk;
        assert(after.history[j] == chunk);
        assert(tail[j] == posts[head + j]);
    }
    assert forall|i: int| 0 <= i < posts.len() && (#[trigger] posts[i]) is Audio implies exists|
        sent: Stamped,
    |
        {
            &&& sent == newest || state.history.contains(sent) && sent.within(earliest, latest)
            &&& posts[i] == Posted::Audio(after.next_id, #[trigger] sent.frame())
        } by {
        if i < head {
            assert(!(posts[i] is Audio));
        } else {
            let sent = after.history[i - head];
            assert(posts[i] == tail[i - head]);
            assert(posts[i] == Posted::Audio(after.next_id, sent.frame()));
            if i - head < rest.len() {
                assert(rest[i - head] == sent);
                assert(rest.contains(sent));
                kept_chunks_lie_in_range(state.history, earliest, latest, sent);
            } else {
                assert(sent == newest);
            }
        }
    }
}

/// The number that a child gets is in use by no other, whatever arrives and whatever the master
/// orders, until every number has been given out.
pub proof fn children_have_fresh_numbers(
    state: RelayState,
    name: Seq<char>,
    kind: Seq<char>,
    id: u32,
    incoming: Incoming,
    order: Ordered,
    limit: Quantity,
)
    requires
        state.numbered(),
    ensures
        !state.children.contains_key(state.next_id),
        state.next_id < u32::MAX ==> state.joined(name, kind).numbered(),
        state.heard(id, incoming).numbered(),
        state.ordered(order).numbered(),
        state.judged(limit).numbered(),
{
}

/// A child that closes its connection or vanishes is forgotten, and nobody else is.
pub proof fn vanished_children_are_forgotten(
    state: RelayState,
    id: u32,
    incoming: Incoming,
    other: u32,
)
    requires
        incoming is Close || incoming is Gone,
        other != id,
    ensures
        !state.heard(id, incoming).children.contains_key(id),
        state.heard(id, incoming).children.contains_key(other)
            == state.children.contains_key(other),
        state.children.contains_key(other) ==> state.heard(id, incoming).children[other]
            == state.children[other],
{
}

/// With fewer than three measured children nobody is suspect.
pub proof fn too_few_peers_suspect_nobody(state: RelayState, limit: Quantity, id: u32)
    requires
        !state.quorate(),
        state.judged(limit).children.contains_key(id),
    ensures
        !state.judged(limit).children[id].suspect,
{
}

/// A verdict changes nothing but the flags: everybody stays, and keeps the settings and the
/// measurements.
pub proof fn verdicts_change_only_flags(state: RelayState, limit: Quantity, id: u32)
    ensures
        state.judged(limit).children.contains_key(id) == state.children.contains_key(id),
        state.children.contains_key(id) ==> state.judged(limit).children[id] == (ChildState {
            suspect: state.judged(limit).children[id].suspect,
            ..state.children[id]
        }),
        state.judged(limit).source_gen == state.source_gen,
        state.judged(limit).active_source == state.active_source,
{
}

/// A measured child of a group with a quorum is suspect exactly if its jitter is above the
/// limit and above what is always tolerated.
pub proof fn jittery_children_are_suspect(state: RelayState, limit: Quantity, id: u32)
    requires
        state.quorate(),
        state.children.contains_key(id),
        state.children[id].measured(),
    ensures
        state.judged(limit).children[id].suspect <==> {
            &&& limit.below(state.children[id].jitter_ms)
            &&& Quantity { bits: TOLERATED_JITTER }.below(state.children[id].jitter_ms)
        },
{
}

/// The children that are measured, and their jitters, do not depend on the flags.
proof fn jitters_ignore_flags(before: Seq<ChildState>, after: Seq<ChildState>)
    requires
        before.len() == after.len(),
        forall|i: int|
            0 <= i < before.len() ==> {
                &&& (#[trigger] after[i]).latency_ms == before[i].latency_ms
                &&& after[i].jitter_ms == before[i].jitter_ms
            },
    ensures
        measured_jitters(before) == measured_jitters(after),
    decreases before.len(),
{
    if before.len() > 0 {
        jitters_ignore_flags(before.drop_last(), after.drop_last());
        assert(after[after.len() - 1].latency_ms == before[before.len() - 1].latency_ms);
    }
}

/// Nobody whose flag is already right is told.
proof fn no_change_no_post(state: RelayState, limit: Quantity, children: Seq<ChildState>)
    requires
        forall|i: int|
            0 <= i < children.len() ==> state.verdict(limit, #[trigger] children[i]).suspect
                == children[i].suspect,
    ensures
        state.changes(limit, children) == Seq::<Posted>::empty(),
    decreases children.len(),
{
    if children.len() > 0 {
        assert(state.verdict(limit, children[children.len() - 1]).suspect
            == children[children.len() - 1].suspect);
        no_change_no_post(state, limit, children.drop_last());
    }
}

/// Judging a second time by the same limit changes nothing and tells nobody.
pub proof fn verdicts_are_stable(relay: Relay, limit: Quantity)
    requires
        relay.wf(),
    ensures
        relay@.judged(limit).judged(limit) == relay@.judged(limit),
        relay@.judged(limit).verdict_posts(limit) == Seq::<Posted>::empty(),
{
    let state = relay@;
    let after = state.judged(limit);
    let verdict = |child: ChildState| state.verdict(limit, child);
    let view = |child: Child| child@;
    directory_of_images(relay.children@, view);
    let list = listing(state.children);
    directory_of_images(list, verdict);
    let judged_list = listing(after.children);
    assert(judged_list == list.map_values(verdict));
    jitters_ignore_flags(list, judged_list);
    assert(after.quorate() == state.quorate());
    assert forall|child: ChildState| after.verdict(limit, #[trigger] verdict(child)) == verdict(
        child,
    ) by {}
    assert(after.judged(limit).children =~= after.children);
    no_change_no_post(after, limit, judged_list);
}

/// A change of the crossover reaches every child, each with its own settings.
pub proof fn crossover_reaches_everybody(relay: Relay, hz: Quantity, id: u32)
    requires
        relay.wf(),
        relay@.children.contains_key(id),
    ensures
        relay@.order_posts(Ordered::SetCrossover { hz: Some(hz) }).contains(
            Posted::Child(
                id,
                Said::Plain(relay@.children[id].config(hz, relay@.buffer_ms)),
            ),
        ),
{
    let state = relay@;
    let order = Ordered::SetCrossover { hz: Some(hz) };
    let view = |child: Child| child@;
    directory_of_images(relay.children@, view);
    let list = listing(state.children);
    let i = found_is_entry(list, id);
    assert(directory(list) == state.children);
    assert(state.order_posts(order)[i] == state.ordered(order).config_for(list[i]));
}

/// What a master assigns to a child is stored and is what the child is told; another child
/// is left alone.
pub proof fn assignment_is_stored_and_told(
    state: RelayState,
    id: u32,
    role: Seq<char>,
    pan: Seq<char>,
    gain: Quantity,
    other: u32,
)
    requires
        state.children.contains_key(id),
    ensures
        ({
            let order = Ordered::SetConfig {
                id,
                role: Some(role),
                pan: Some(pan),
                gain: Some(gain),
            };
            let after = state.ordered(order);
            let child = after.children[id];
            &&& child.role == role && child.pan == pan && child.gain == gain
            &&& state.order_posts(order) == seq![
                Posted::Child(
                    state.children[id].id,
                    Said::Plain(child.config(state.crossover_hz, state.buffer_ms)),
                ),
            ]
            &&& other != id ==> {
                &&& after.children.contains_key(other) == state.children.contains_key(other)
                &&& state.children.contains_key(other) ==> after.children[other]
                    == state.children[other]
            }
        }),
{
}

/// The clock offset snaps down to a tighter candidate, and it never exceeds the candidate,
/// provided that the leaked offset does not where it is taken.
pub proof fn offset_tracks_the_minimum(state: RelayState, candidate: Quantity, leaked: Quantity)
    requires
        !candidate.nan(),
        state.master_offset matches Some(current) && !candidate.below(current)
            ==> leaked.at_most(candidate),
    ensures
        state.next_offset(candidate, leaked).at_most(candidate),
        state.master_offset matches Some(current) && candidate.below(current)
            ==> state.next_offset(candidate, leaked) == candidate,
{
}

/// The clock offset rises by no more than the leak, however late a chunk is: where `cap` is the
/// current offset and the leak, and the leaked offset lies between the current one and `cap`,
/// the next offset is not above `cap`, and it is below the current one only if the candidate is.
pub proof fn offset_rises_slowly(
    state: RelayState,
    current: Quantity,
    candidate: Quantity,
    leaked: Quantity,
    cap: Quantity,
)
    requires
        state.master_offset == Some(current),
        current.at_most(cap),
        !candidate.nan(),
        !candidate.below(current) ==> current.at_most(leaked) && leaked.at_most(cap),
    ensures
        candidate.below(current) ==> state.next_offset(candidate, leaked) == candidate,
        !candidate.below(current) ==> current.at_most(state.next_offset(candidate, leaked)),
        state.next_offset(candidate, leaked).at_most(cap),
{
}

/// The relay after a burst of chunks, each with its candidate and the leaked offset.
pub open spec fn after_burst(state: RelayState, burst: Seq<(Quantity, Quantity)>) -> RelayState
    decreases burst.len(),
{
    if burst.len() == 0 {
        state
    } else {
        let before = after_burst(state, burst.drop_last());
        let (candidate, leaked) = burst.last();
        RelayState { master_offset: Some(before.next_offset(candidate, leaked)), ..before }
    }
}

/// `offset`, raised by `n` leaks.
pub open spec fn raised(raise: spec_fn(Quantity) -> Quantity, offset: Quantity, n: nat) -> Quantity
    decreases n,
{
    if n == 0 {
        offset
    } else {
        raise(raised(raise, offset, (n - 1) as nat))
    }
}

/// A burst of `n` chunks raises the clock offset by no more than `n` leaks, however late they
/// are. `raise` adds one leak: it lowers nothing and keeps the order.
pub proof fn bursts_raise_the_offset_slowly(
    state: RelayState,
    current: Quantity,
    burst: Seq<(Quantity, Quantity)>,
    raise: spec_fn(Quantity) -> Quantity,
)
    requires
        state.master_offset == Some(current),
        !current.nan(),
        forall|x: Quantity| !x.nan() ==> x.at_most(#[trigger] raise(x)),
        forall|x: Quantity, y: Quantity|
            x.at_most(y) ==> (#[trigger] raise(x)).at_most(#[trigger] raise(y)),
        forall|k: int|
            0 <= k < burst.len() && !(#[trigger] burst[k]).0.below(
                after_burst(state, burst.take(k)).master_offset->0,
            ) ==> burst[k].1.at_most(raise(after_burst(state, burst.take(k)).master_offset->0)),
    ensures
        after_burst(state, burst).master_offset matches Some(offset) && offset.at_most(
            raised(raise, current, burst.len()),
        ),
    decreases burst.len(),
{
    if burst.len() > 0 {
        let front = burst.drop_last();
        let n = front.len() as int;
        assert forall|k: int|
            0 <= k < front.len() && !(#[trigger] front[k]).0.below(
                after_burst(state, front.take(k)).master_offset->0,
            ) implies front[k].1.at_most(
            raise(after_burst(state, front.take(k)).master_offset->0),
        ) by {
            assert(front[k] == burst[k]);
            assert(front.take(k) =~= burst.take(k));
        }
        bursts_raise_the_offset_slowly(state, current, front, raise);
        assert(burst.take(n) =~= front);
        assert(burst[n] == burst.last());
        let before = after_burst(state, front).master_offset->0;
        let bound = raised(raise, current, front.len());
        assert(before.at_most(raise(before)));
        assert(raise(before).at_most(raise(bound)));
    }
}

/// A native speaker that greets a relay is admitted under its own name.
pub proof fn native_hello_is_understood(text: Seq<char>, name: Seq<char>)
    requires
        text_members(text) is Some,
        read_back(hello_members(name), text_members(text)->0),
    ensures
        text_hello(text) == Some((name, "native"@)),
{
    let written = hello_members(name);
    reveal_strlit("type");
    reveal_strlit("name");
    reveal_strlit("kind");
    assert("type"@[0] == 't' && "name"@[0] == 'n' && "kind"@[0] == 'k');
    assert(written["type"@] == Member::Text("hello"@));
    assert(written["name"@] == Member::Text(name));
    assert(written["kind"@] == Member::Text("native"@));
    assert(written.contains_key("type"@) && written.contains_key("name"@) && written.contains_key(
        "kind"@,
    ));
}

/// A child that joins is known by the name and the kind it gives, unmeasured and above suspicion.
/// It plays the full range at the common gain, on the left if its number is odd and on the right
/// if it is even. Nothing else of the relay changes but the next number.
pub proof fn children_start_fresh(state: RelayState, name: Seq<char>, kind: Seq<char>)
    ensures
        ({
            let after = state.joined(name, kind);
            let child = after.children[state.next_id];
            &&& child.id == state.next_id && child.name == name && child.kind == kind
            &&& child.latency_ms.bits == 0 && child.jitter_ms.bits == 0 && !child.suspect
            &&& child.role == "full"@
            &&& child.gain.bits == 0x3fe9_9999_a000_0000
            &&& state.next_id % 2 == 1 ==> child.pan == "left"@
            &&& state.next_id % 2 == 0 ==> child.pan == "right"@
            &&& state.next_id < u32::MAX ==> after.next_id == state.next_id + 1
            &&& after == (RelayState {
                next_id: after.next_id,
                children: after.children,
                ..state
            })
        }),
{
}

/// A child that joins is announced to the master, if there is one. It is sent its welcome, then
/// its settings, then every chunk of the history in order, and nothing else.
pub proof fn newcomers_are_welcomed(state: RelayState, name: Seq<char>, kind: Seq<char>, j: int)
    ensures
        ({
            let posts = state.join_posts(name, kind);
            let id = state.next_id;
            let child = state.joined(name, kind).children[id];
            let k: int = if state.active_source is Some {
                1
            } else {
                0
            };
            &&& posts.len() == k + 2 + state.history.len()
            &&& k == 1 ==> posts[0] == Posted::Master(
                Said::Plain(child_joined_members(id, name, kind)),
            )
            &&& posts[k] == Posted::Child(id, Said::Plain(welcome_members(id, state.buffer_ms)))
            &&& posts[k + 1] == Posted::Child(
                id,
                Said::Plain(child.config(state.crossover_hz, state.buffer_ms)),
            )
            &&& 0 <= j < state.history.len() ==> posts[k + 2 + j] == Posted::Audio(
                id,
                frame(state.history[j].play_at, state.history[j].payload),
            )
        }),
{
    let posts = state.join_posts(name, kind);
    let tail = state.backfill(state.next_id);
    let k: int = if state.active_source is Some { 1 } else { 0 };
    if 0 <= j < state.history.len() {
        assert(posts[k + 2 + j] == tail[j]);
    }
}

/// A child that closes or vanishes is announced to the master, if there is one, and nobody is told
/// anything else.
pub proof fn departures_are_announced(
    state: RelayState,
    id: u32,
    incoming: Incoming,
    now: Quantity,
)
    requires
        incoming is Close || incoming is Gone,
    ensures
        ({
            let posts = state.heard_posts(id, incoming, now);
            &&& state.active_source is Some ==> posts.len() == 1 && posts[0] == Posted::Master(
                Said::Plain(child_left_members(id)),
            )
            &&& state.active_source is None ==> posts.len() == 0
        }),
        state.heard(id, incoming) == (RelayState {
            children: state.heard(id, incoming).children,
            ..state
        }),
{
}

/// Every ping of a child is answered by exactly one pong to that child, which repeats the time of
/// the ping and gives the relay's, whatever the ping reports along with it or leaves out.
pub proof fn every_ping_is_answered(
    state: RelayState,
    id: u32,
    text: String,
    members: Map<Seq<char>, Parsed>,
    now: Quantity,
)
    requires
        text_members(text@) == Some(members),
        text_of(members, "type"@) == Some("ping"@),
    ensures
        ({
            let posts = state.heard_posts(id, Incoming::Text(text), now);
            &&& posts.len() == 1
            &&& number_of(members, "t0"@) matches Some(t0) ==> posts[0] == Posted::Child(
                id,
                Said::Plain(pong_members(t0, now)),
            )
            &&& number_of(members, "t0"@) is None ==> posts[0] == Posted::Child(
                id,
                Said::Plain(pong_members(Quantity { bits: 0 }, now)),
            )
        }),
{
}

/// The round-trip time that a ping reports is noted of the child, and its jitter along with it. A
/// ping without a round-trip time, or from somebody who is not there, changes nothing, and nobody
/// else is touched.
pub proof fn measurements_are_noted(
    state: RelayState,
    id: u32,
    text: String,
    members: Map<Seq<char>, Parsed>,
    other: u32,
)
    requires
        text_members(text@) == Some(members),
        text_of(members, "type"@) == Some("ping"@),
    ensures
        ({
            let after = state.heard(id, Incoming::Text(text));
            &&& after == (RelayState { children: after.children, ..state })
            &&& after.children.contains_key(other) == state.children.contains_key(other)
            &&& other != id && state.children.contains_key(other) ==> after.children[other]
                == state.children[other]
            &&& number_of(members, "rtt"@) is None ==> after == state
            &&& state.children.contains_key(id) && number_of(members, "rtt"@) is Some ==> {
                let child = after.children[id];
                &&& child == (ChildState {
                    latency_ms: child.latency_ms,
                    jitter_ms: child.jitter_ms,
                    ..state.children[id]
                })
                &&& number_of(members, "rtt"@) == Some(child.latency_ms)
                &&& number_of(members, "jitter"@) matches Some(jitter) ==> child.jitter_ms == jitter
                &&& number_of(members, "jitter"@) is None ==> child.jitter_ms
                    == state.children[id].jitter_ms
            }
        }),
{
}

/// Whatever else a child sends is passed over: a text that is no ping, bytes, and frames of the
/// transport.
pub proof fn other_messages_of_children_are_ignored(
    state: RelayState,
    id: u32,
    incoming: Incoming,
    now: Quantity,
)
    requires
        incoming is Binary || incoming is Other || (incoming matches Incoming::Text(text) && (
        text_members(text@) is None || text_of(text_members(text@)->0, "type"@) != Some("ping"@))),
    ensures
        state.heard(id, incoming) == state,
        state.heard_posts(id, incoming, now).len() == 0,
{
}

/// A text is a hello exactly if its type says so. It gives the child's name and kind, each with
/// a stand-in where it is missing.
pub proof fn hellos_are_read(text: Seq<char>, members: Map<Seq<char>, Parsed>)
    ensures
        text_members(text) is None ==> text_hello(text) is None,
        text_members(text) == Some(members) ==> {
            &&& text_hello(text) is Some <==> text_of(members, "type"@) == Some("hello"@)
            &&& text_hello(text) matches Some((name, kind)) ==> {
                &&& text_of(members, "name"@) matches Some(given) ==> name == given
                &&& text_of(members, "name"@) is None ==> name == "Speaker"@
                &&& text_of(members, "kind"@) matches Some(given) ==> kind == given
                &&& text_of(members, "kind"@) is None ==> kind == "browser"@
            }
        },
{
}

/// Which of the children are measured, by their places in the list.
proof fn measured_places(list: Seq<ChildState>) -> (places: Seq<int>)
    ensures
        places.len() == measured_jitters(list).len(),
        forall|k: int|
            0 <= k < places.len() ==> {
                &&& 0 <= #[trigger] places[k] < list.len()
                &&& list[places[k]].measured()
                &&& measured_jitters(list)[k] == list[places[k]].jitter_ms
            },
        forall|k: int, l: int|
            0 <= k < l < places.len() ==> #[trigger] places[k] < #[trigger] places[l],
        forall|i: int|
            0 <= i < list.len() && (#[trigger] list[i]).measured() ==> places.contains(i),
    decreases list.len(),
{
    if list.len() == 0 {
        Seq::empty()
    } else {
        let front = list.drop_last();
        let before = measured_places(front);
        let last = list.len() - 1;
        let places = if list.last().measured() {
            before.push(last)
        } else {
            before
        };
        assert forall|k: int| 0 <= k < places.len() implies {
            &&& 0 <= #[trigger] places[k] < list.len()
            &&& list[places[k]].measured()
            &&& measured_jitters(list)[k] == list[places[k]].jitter_ms
        } by {
            if k < before.len() {
                assert(places[k] == before[k]);
                assert(front[before[k]] == list[before[k]]);
            }
        }
        assert forall|k: int, l: int| 0 <= k < l < places.len() implies #[trigger] places[k]
            < #[trigger] places[l] by {
            assert(places[k] == before[k]);
            if l < before.len() {
                assert(places[l] == before[l]);
            }
        }
        assert forall|i: int|
            0 <= i < list.len() && (#[trigger] list[i]).measured() implies places.contains(i) by {
            if i < last {
                assert(front[i] == list[i]);
                let k = choose|k: int| 0 <= k < before.len() && before[k] == i;
                assert(places[k] == i);
            } else {
                assert(places[before.len() as int] == last);
            }
        }
        places
    }
}

/// Three different children that have been measured.
pub open spec fn measured_trio(state: RelayState, a: u32, b: u32, c: u32) -> bool {
    &&& a != b && b != c && a != c
    &&& state.children.contains_key(a) && (Quantity { bits: 0 }).below(state.children[a].latency_ms)
    &&& state.children.contains_key(b) && (Quantity { bits: 0 }).below(state.children[b].latency_ms)
    &&& state.children.contains_key(c) && (Quantity { bits: 0 }).below(state.children[c].latency_ms)
}

/// It takes three measured children to judge one of them, and three are enough.
pub proof fn three_make_a_quorum(relay: Relay)
    requires
        relay.wf(),
    ensures
        relay@.quorate() <==> exists|a: u32, b: u32, c: u32| measured_trio(relay@, a, b, c),
{
    let state = relay@;
    let view = |child: Child| child@;
    directory_of_images(relay.children@, view);
    let list = listing(state.children);
    let places = measured_places(list);
    if state.quorate() {
        let (i, j, k) = (places[0], places[1], places[2]);
        entry_is_found(list, i);
        entry_is_found(list, j);
        entry_is_found(list, k);
        assert(list[i].key() < list[j].key() && list[j].key() < list[k].key());
        assert(measured_trio(state, list[i].id, list[j].id, list[k].id));
    }
    if exists|a: u32, b: u32, c: u32| measured_trio(state, a, b, c) {
        let (a, b, c) = choose|a: u32, b: u32, c: u32| measured_trio(state, a, b, c);
        let i = found_is_entry(list, a);
        let j = found_is_entry(list, b);
        let k = found_is_entry(list, c);
        assert(list[i].measured() && list[j].measured() && list[k].measured());
        let x = choose|x: int| 0 <= x < places.len() && places[x] == i;
        let y = choose|y: int| 0 <= y < places.len() && places[y] == j;
        let z = choose|z: int| 0 <= z < places.len() && places[z] == k;
        assert(places.contains(i) && places.contains(j) && places.contains(k));
        assert(x != y && y != z && x != z);
    }
}

/// The jitters that the median is taken of are those of the measured children, one of each.
pub proof fn measured_children_are_compared(relay: Relay, id: u32, k: int)
    requires
        relay.wf(),
    ensures
        relay@.children.contains_key(id) && (Quantity { bits: 0 }).below(
            relay@.children[id].latency_ms,
        ) ==> relay@.jitters().contains(relay@.children[id].jitter_ms),
        0 <= k < relay@.jitters().len() ==> exists|of: u32|
            {
                &&& #[trigger] relay@.children.contains_key(of)
                &&& (Quantity { bits: 0 }).below(relay@.children[of].latency_ms)
                &&& relay@.children[of].jitter_ms == relay@.jitters()[k]
            },
        relay@.jitters().len() <= relay.children@.len(),
{
    let state = relay@;
    let view = |child: Child| child@;
    directory_of_images(relay.children@, view);
    let list = listing(state.children);
    let places = measured_places(list);
    if state.children.contains_key(id) && (Quantity { bits: 0 }).below(
        state.children[id].latency_ms,
    ) {
        let i = found_is_entry(list, id);
        assert(list[i].measured());
        let x = choose|x: int| 0 <= x < places.len() && places[x] == i;
        assert(state.jitters()[x] == list[i].jitter_ms);
    }
    if 0 <= k < state.jitters().len() {
        assert(list[places[k]].measured());
        entry_is_found(list, places[k]);
        assert(state.children.contains_key(list[places[k]].id));
    }
    few_jitters(list);
}

/// There are no more jitters than children.
proof fn few_jitters(list: Seq<ChildState>)
    ensures
        measured_jitters(list).len() <= list.len(),
    decreases list.len(),
{
    if list.len() > 0 {
        few_jitters(list.drop_last());
    }
}

/// In a group with a quorum a child that has been measured is suspect exactly if its jitter is
/// above the limit and above 30 ms, and one that has not been measured keeps its flag.
pub proof fn outliers_are_far_above_the_group(state: RelayState, limit: Quantity, id: u32)
    requires
        state.quorate(),
        state.children.contains_key(id),
    ensures
        (Quantity { bits: 0 }).below(state.children[id].latency_ms) ==> (state.judged(
            limit,
        ).children[id].suspect <==> limit.below(state.children[id].jitter_ms) && (Quantity {
            bits: 0x403e_0000_0000_0000,
        }).below(state.children[id].jitter_ms)),
        !(Quantity { bits: 0 }).below(state.children[id].latency_ms) ==> state.judged(
            limit,
        ).children[id].suspect == state.children[id].suspect,
{
}

/// Which of the children are told of their verdict, by their places in the list.
proof fn told_places(state: RelayState, limit: Quantity, list: Seq<ChildState>) -> (places: Seq<
    int,
>)
    ensures
        places.len() == state.changes(limit, list).len(),
        forall|k: int|
            0 <= k < places.len() ==> {
                &&& 0 <= #[trigger] places[k] < list.len()
                &&& state.verdict(limit, list[places[k]]).suspect != list[places[k]].suspect
                &&& state.changes(limit, list)[k] == state.config_for(
                    state.verdict(limit, list[places[k]]),
                )
            },
        forall|k: int, l: int|
            0 <= k < l < places.len() ==> #[trigger] places[k] < #[trigger] places[l],
        forall|i: int|
            0 <= i < list.len() && state.verdict(limit, #[trigger] list[i]).suspect
                != list[i].suspect ==> places.contains(i),
    decreases list.len(),
{
    if list.len() == 0 {
        Seq::empty()
    } else {
        let front = list.drop_last();
        let before = told_places(state, limit, front);
        let last = list.len() - 1;
        let places = if state.verdict(limit, list.last()).suspect != list.last().suspect {
            before.push(last)
        } else {
            before
        };
        assert forall|k: int| 0 <= k < places.len() implies {
            &&& 0 <= #[trigger] places[k] < list.len()
            &&& state.verdict(limit, list[places[k]]).suspect != list[places[k]].suspect
            &&& state.changes(limit, list)[k] == state.config_for(
                state.verdict(limit, list[places[k]]),
            )
        } by {
            if k < before.len() {
                assert(places[k] == before[k]);
                assert(front[before[k]] == list[before[k]]);
            }
        }
        assert forall|k: int, l: int| 0 <= k < l < places.len() implies #[trigger] places[k]
            < #[trigger] places[l] by {
            assert(places[k] == before[k]);
            if l < before.len() {
                assert(places[l] == before[l]);
            }
        }
        assert forall|i: int|
            0 <= i < list.len() && state.verdict(limit, #[trigger] list[i]).suspect
                != list[i].suspect implies places.contains(i) by {
            if i < last {
                assert(front[i] == list[i]);
                let k = choose|k: int| 0 <= k < before.len() && before[k] == i;
                assert(places[k] == i);
            } else {
                assert(places[before.len() as int] == last);
            }
        }
        places
    }
}

/// A child is told of its verdict exactly if its flag has changed: once, with its settings as they
/// are now. Nobody else is told anything.
pub proof fn changed_verdicts_are_told(relay: Relay, limit: Quantity, id: u32, k: int, l: int)
    requires
        relay.wf(),
    ensures
        ({
            let state = relay@;
            let after = state.judged(limit);
            let posts = state.verdict_posts(limit);
            &&& state.children.contains_key(id) && after.children[id].suspect
                != state.children[id].suspect ==> posts.contains(
                Posted::Child(
                    id,
                    Said::Plain(after.children[id].config(state.crossover_hz, state.buffer_ms)),
                ),
            )
            &&& 0 <= k < posts.len() ==> {
                &&& posts[k] matches Posted::Child(to, said)
                &&& state.children.contains_key(to)
                &&& after.children[to].suspect != state.children[to].suspect
                &&& said == Said::Plain(
                    after.children[to].config(state.crossover_hz, state.buffer_ms),
                )
            }
            &&& 0 <= k < l < posts.len() ==> posts[k] != posts[l]
        }),
{
    let state = relay@;
    let after = state.judged(limit);
    let view = |child: Child| child@;
    directory_of_images(relay.children@, view);
    let list = listing(state.children);
    let posts = state.verdict_posts(limit);
    let places = told_places(state, limit, list);
    if state.children.contains_key(id) && after.children[id].suspect != state.children[id].suspect {
        let i = found_is_entry(list, id);
        assert(state.verdict(limit, list[i]).suspect != list[i].suspect);
        let x = choose|x: int| 0 <= x < places.len() && places[x] == i;
        assert(posts[x] == state.config_for(state.verdict(limit, list[i])));
    }
    if 0 <= k < posts.len() {
        entry_is_found(list, places[k]);
        assert(posts[k] == state.config_for(state.verdict(limit, list[places[k]])));
    }
    if 0 <= k < l < posts.len() {
        assert(places[k] < places[l]);
        assert(list[places[k]].key() < list[places[l]].key());
        assert(posts[l] == state.config_for(state.verdict(limit, list[places[l]])));
    }
}

/// A source that takes over or goes changes nothing but who is honoured.
pub proof fn sources_change_only_the_source(state: RelayState, gen: u64)
    requires
        state.source_gen < u64::MAX,
    ensures
        state.sourced() == (RelayState {
            source_gen: (state.source_gen + 1) as u64,
            active_source: Some((state.source_gen + 1) as u64),
            ..state
        }),
        state.active_source == Some(gen) ==> state.unsourced(gen) == (RelayState {
            active_source: None,
            ..state
        }),
{
}

/// The first candidate is the clock offset. After that a lower one is taken at once, and for any
/// other the offset leaks up.
pub proof fn offsets_are_taken(state: RelayState, candidate: Quantity, leaked: Quantity)
    ensures
        state.master_offset is None ==> state.next_offset(candidate, leaked) == candidate,
        state.master_offset matches Some(current) ==> {
            &&& candidate.below(current) ==> state.next_offset(candidate, leaked) == candidate
            &&& !candidate.below(current) ==> state.next_offset(candidate, leaked) == leaked
        },
{
}

/// What a master leaves out of an assignment stays as it was. Only the settings of that child
/// change, and it alone is told what they are now. An assignment to somebody who is not there
/// changes nothing and tells nobody.
pub proof fn omitted_settings_stay(
    state: RelayState,
    id: u32,
    role: Option<Seq<char>>,
    pan: Option<Seq<char>>,
    gain: Option<Quantity>,
)
    ensures
        ({
            let order = Ordered::SetConfig { id, role, pan, gain };
            let after = state.ordered(order);
            let posts = state.order_posts(order);
            &&& after == (RelayState { children: after.children, ..state })
            &&& !state.children.contains_key(id) ==> after == state && posts.len() == 0
            &&& state.children.contains_key(id) ==> {
                let (old_child, child) = (state.children[id], after.children[id]);
                &&& child == (ChildState {
                    role: child.role,
                    pan: child.pan,
                    gain: child.gain,
                    ..old_child
                })
                &&& role is Some ==> role == Some(child.role)
                &&& role is None ==> child.role == old_child.role
                &&& pan is Some ==> pan == Some(child.pan)
                &&& pan is None ==> child.pan == old_child.pan
                &&& gain is Some ==> gain == Some(child.gain)
                &&& gain is None ==> child.gain == old_child.gain
                &&& posts.len() == 1
                &&& posts[0] == Posted::Child(
                    old_child.id,
                    Said::Plain(child.config(state.crossover_hz, state.buffer_ms)),
                )
            }
        }),
{
}

/// What a master announces first is adopted, as far as it is given: the buffer in 32 bits, and the
/// crossover. Nothing else changes, and no child is told.
pub proof fn announcements_are_adopted(
    state: RelayState,
    buffer_ms: Option<u64>,
    crossover_hz: Option<Quantity>,
)
    ensures
        ({
            let order = Ordered::Hello { buffer_ms, crossover_hz };
            let after = state.ordered(order);
            &&& after == (RelayState {
                buffer_ms: after.buffer_ms,
                crossover_hz: after.crossover_hz,
                ..state
            })
            &&& state.order_posts(order).len() == 0
            &&& buffer_ms is None ==> after.buffer_ms == state.buffer_ms
            &&& buffer_ms matches Some(ms) ==> {
                &&& ms <= u32::MAX ==> after.buffer_ms == ms
                &&& (ms - after.buffer_ms) % 0x1_0000_0000 == 0
            }
            &&& crossover_hz is None ==> after.crossover_hz == state.crossover_hz
            &&& crossover_hz is Some ==> crossover_hz == Some(after.crossover_hz)
        }),
{
}

/// A crossover that a master sets is stored, and every child is told its settings once, in the
/// order of their numbers; nobody else is told anything, and no child changes. Without a
/// frequency the settings are told as they are.
pub proof fn crossovers_are_stored_and_told(relay: Relay, hz: Option<Quantity>, i: int)
    requires
        relay.wf(),
    ensures
        ({
            let state = relay@;
            let order = Ordered::SetCrossover { hz };
            let after = state.ordered(order);
            let posts = state.order_posts(order);
            &&& after == (RelayState { crossover_hz: after.crossover_hz, ..state })
            &&& hz is Some ==> hz == Some(after.crossover_hz)
            &&& hz is None ==> after.crossover_hz == state.crossover_hz
            &&& posts.len() == relay.children@.len()
            &&& 0 <= i < posts.len() ==> posts[i] == Posted::Child(
                relay.children@[i].id,
                Said::Plain(relay.children@[i]@.config(after.crossover_hz, state.buffer_ms)),
            )
        }),
{
    let view = |child: Child| child@;
    directory_of_images(relay.children@, view);
}

/// What is no order changes nothing and tells nobody.
pub proof fn what_is_no_order_is_ignored(state: RelayState)
    ensures
        state.ordered(Ordered::Ignored) == state,
        state.order_posts(Ordered::Ignored).len() == 0,
{
}

/// The current source is heard: bytes of an audio frame that carries something are audio, with the
/// time and all the bytes behind the header; other bytes and frames of the transport are passed
/// over; a text is an order; and a source that closes or is gone is stopped.
pub proof fn current_source_is_heard(
    state: RelayState,
    gen: u64,
    bin: Vec<u8>,
    text: String,
)
    requires
        state.active_source == Some(gen),
    ensures
        bin@.len() > 12 && bin@[0] == 1 ==> state.source_move(gen, Incoming::Binary(bin)) == (
        SourceMove::Audio {
            master_ts: frame_time(bin@),
            payload: bin@.subrange(12, bin@.len() as int),
        }),
        !(bin@.len() > 12 && bin@[0] == 1) ==> state.source_move(gen, Incoming::Binary(bin))
            is Pass,
        state.source_move(gen, Incoming::Other) is Pass,
        state.source_move(gen, Incoming::Text(text)) == SourceMove::Control(text_order(text@)),
        state.source_move(gen, Incoming::Close) is Stop,
        state.source_move(gen, Incoming::Gone) is Stop,
{
    assert(bin@.len() > 12 ==> frame_payload(bin@) =~= bin@.subrange(12, bin@.len() as int));
}

/// What a text orders is decided by its type, and each order takes over what the text gives and
/// leaves open what it does not. Every other text orders nothing.
pub proof fn orders_are_read(text: Seq<char>, members: Map<Seq<char>, Parsed>)
    ensures
        text_members(text) is None ==> text_order(text) is Ignored,
        text_members(text) == Some(members) ==> {
            let kind = text_of(members, "type"@);
            &&& text_order(text) is Hello <==> kind == Some("source_hello"@)
            &&& text_order(text) is SetConfig <==> kind == Some("set_config"@)
            &&& text_order(text) is SetCrossover <==> kind == Some("set_crossover"@)
            &&& text_order(text) matches Ordered::Hello { buffer_ms, crossover_hz } ==> {
                &&& buffer_ms == count_of(members, "buffer_ms"@)
                &&& crossover_hz == number_of(members, "crossover_hz"@)
            }
            &&& text_order(text) matches Ordered::SetConfig { id, role, pan, gain } ==> {
                &&& count_of(members, "id"@) matches Some(given) ==> {
                    &&& given <= u32::MAX ==> id == given
                    &&& (given - id) % 0x1_0000_0000 == 0
                }
                &&& count_of(members, "id"@) is None ==> id == 0
                &&& role == text_of(members, "role"@)
                &&& pan == text_of(members, "pan"@)
                &&& gain == number_of(members, "gain"@)
            }
            &&& text_order(text) matches Ordered::SetCrossover { hz } ==> hz == number_of(
                members,
                "hz"@,
            )
        },
{
    reveal_strlit("source_hello");
    reveal_strlit("set_config");
    reveal_strlit("set_crossover");
    assert("source_hello"@.len() == 12 && "set_config"@.len() == 10 && "set_crossover"@.len()
        == 13);
}

/// The roster has one row for each child, in the order of their numbers.
pub proof fn rosters_show_every_child(relay: Relay, i: int)
    requires
        relay.wf(),
    ensures
        relay@.roster() matches Said::Roster(rows) && rows.len() == relay.children@.len() && (0 <= i
            < rows.len() ==> rows[i] == relay.children@[i]@.row()),
{
    let view = |child: Child| child@;
    directory_of_images(relay.children@, view);
}

/// Fanning a chunk out changes nothing but the history, whose newest chunk it is.
pub proof fn fanned_out_chunks_are_remembered(
    state: RelayState,
    play_at: Quantity,
    payload: Seq<u8>,
    earliest: Quantity,
    latest: Quantity,
)
    ensures
        ({
            let after = state.fanned_out(play_at, payload, earliest, latest);
            &&& after == (RelayState { history: after.history, ..state })
            &&& after.history.len() > 0
            &&& after.history.last().play_at == play_at
            &&& after.history.last().payload == payload
        }),
{
}

/// What is sent is what the posts hold, each to whom it names, one after the other.
pub proof fn posts_are_sent_as_they_are(
    id: u32,
    message: Message,
    bytes: Vec<u8>,
    posts: Seq<Post>,
    i: int,
)
    ensures
        Post::Child(id, message)@ == Posted::Child(id, message@),
        Post::Audio(id, bytes)@ == Posted::Audio(id, bytes@),
        Post::Master(message)@ == Posted::Master(message@),
        posted(posts).len() == posts.len(),
        0 <= i < posts.len() ==> posted(posts)[i] == posts[i]@,
{
}

/// What is known of a child is what its entry holds.
pub proof fn children_show_what_they_hold(child: Child)
    ensures
        child@.id == child.id && child@.name == child.name@ && child@.kind == child.kind@,
        child@.latency_ms == child.latency_ms && child@.jitter_ms == child.jitter_ms,
        child@.suspect == child.suspect && child@.gain == child.gain,
        child@.role == child.role@ && child@.pan == child.pan@,
{
}

/// What the relay knows is what it holds.
pub proof fn relays_show_what_they_hold(relay: Relay, id: u32)
    ensures
        relay@.next_id == relay.next_id && relay@.master_offset == relay.master_offset,
        relay@.source_gen == relay.source_gen && relay@.active_source == relay.active_source,
        relay@.buffer_ms == relay.buffer_ms && relay@.crossover_hz == relay.crossover_hz,
        relay@.history == relay.history@,
        relay@.children.contains_key(id) == relay.children.map().contains_key(id),
        relay.children.map().contains_key(id) ==> relay@.children[id] == relay.children.map()[id]@,
{
}

/// What an order says is what it holds, and what a source calls for is what the step holds.
pub proof fn orders_say_what_they_hold(
    buffer_ms: Option<u64>,
    number: Option<Quantity>,
    id: u32,
    role: Option<String>,
    pan: Option<String>,
    order: Order,
    master_ts: Quantity,
    payload: Vec<u8>,
)
    ensures
        (Order::Hello { buffer_ms, crossover_hz: number })@ == (Ordered::Hello {
            buffer_ms,
            crossover_hz: number,
        }),
        (Order::SetConfig { id, role, pan, gain: number })@ == (Ordered::SetConfig {
            id,
            role: maybe_text(role),
            pan: maybe_text(pan),
            gain: number,
        }),
        (Order::SetCrossover { hz: number })@ == (Ordered::SetCrossover { hz: number }),
        Order::Ignored@ is Ignored,
        (SourceStep::Audio { master_ts, payload })@ == (SourceMove::Audio {
            master_ts,
            payload: payload@,
        }),
        SourceStep::Control(order)@ == SourceMove::Control(order@),
        SourceStep::Pass@ is Pass && SourceStep::Stop@ is Stop,
{
}

/// A text of a child is a ping exactly if its type says so. It gives the time of the child, or zero
/// where that is missing, and what the child has measured, as far as it says.
pub proof fn reports_are_read(text: Seq<char>, members: Map<Seq<char>, Parsed>)
    ensures
        text_members(text) is None ==> text_report(text) is Ignored,
        text_members(text) == Some(members) ==> {
            &&& text_report(text) is Ping <==> text_of(members, "type"@) == Some("ping"@)
            &&& text_report(text) matches Report::Ping { t0, rtt, jitter } ==> {
                &&& number_of(members, "t0"@) is Some ==> number_of(members, "t0"@) == Some(t0)
                &&& number_of(members, "t0"@) is None ==> t0.bits == 0
                &&& rtt == number_of(members, "rtt"@)
                &&& jitter == number_of(members, "jitter"@)
            }
        },
{
}

} // verus!
