//! The master's uplink to a relay.
//!
//! Instead of serving speakers directly, the master pushes its one stream to a relay, and
//! keeps a register of the relay's children out of what the relay tells.

use crate::frame::encode_audio_frame;
#[allow(unused_imports)]
use crate::frame::{
    audio_reads_back, frame, frame_payload, frame_reads_back, frame_time, is_audio, pcm_bytes,
    pcm_samples,
};
use crate::message::{source_hello_record, Message, Said};
#[allow(unused_imports)]
use crate::message::source_hello_members;
use crate::quantity::{Quantity, ZERO};
#[allow(unused_imports)]
use crate::registry::{found_is_entry, image_of_insert, image_of_remove, listing};
use crate::registry::{Keyed, Registry};
use crate::relay::{ChildState, Relay};
use crate::state::{
    borrowed, kind_from_str, pan_from_str, role_from_str, App, AppState, ClientConfig, RelayChild,
    Speaker, DEFAULT_GAIN,
};
#[allow(unused_imports)]
use crate::state::{default_config, kind_meant, maybe_text, pan_meant, role_meant};
use vstd::prelude::*;
use vstd::string::*;

verus! {

/// How long to wait before a lost uplink is tried again.
pub const RECONNECT_MS: u64 = 600;

/// One child, as the roster of a relay shows it.
pub struct RosterChild {
    pub id: u32,
    pub name: String,
    pub kind: String,
    pub latency_ms: Quantity,
    pub role: Option<String>,
    pub pan: Option<String>,
    pub gain: Option<Quantity>,
}

/// What a roster says of one child.
pub struct RosterRow {
    pub id: u32,
    pub name: Seq<char>,
    pub kind: Seq<char>,
    pub latency_ms: Quantity,
    pub role: Option<Seq<char>>,
    pub pan: Option<Seq<char>>,
    pub gain: Option<Quantity>,
}

impl View for RosterChild {
    type V = RosterRow;

    open spec fn view(&self) -> RosterRow {
        RosterRow {
            id: self.id,
            name: self.name@,
            kind: self.kind@,
            latency_ms: self.latency_ms,
            role: maybe_text(self.role),
            pan: maybe_text(self.pan),
            gain: self.gain,
        }
    }
}

impl RosterRow {
    /// The child that a row of the roster describes.
    pub open spec fn speaker(self) -> Speaker {
        Speaker {
            id: self.id,
            name: self.name,
            kind: kind_meant(self.kind),
            latency_ms: self.latency_ms,
            config: ClientConfig {
                role: role_meant(self.role),
                pan: pan_meant(self.pan),
                gain: match self.gain {
                    Some(gain) => gain,
                    None => Quantity { bits: DEFAULT_GAIN },
                },
            },
        }
    }
}

/// The children that a roster lists, a later row in place of an earlier one.
pub open spec fn roster_map(rows: Seq<RosterRow>) -> Map<u32, Speaker>
    decreases rows.len(),
{
    if rows.len() == 0 {
        Map::empty()
    } else {
        roster_map(rows.drop_last()).insert(rows.last().id, rows.last().speaker())
    }
}

/// What a relay tells its master.
pub enum RelayToMaster {
    ChildJoined { id: u32, name: String, kind: String },
    ChildLeft { id: u32 },
    ChildLatency { id: u32, latency_ms: Quantity },
    Roster { children: Vec<RosterChild> },
}

/// The views of some rows.
pub open spec fn roster_rows(children: Seq<RosterChild>) -> Seq<RosterRow> {
    children.map_values(|child: RosterChild| child@)
}

impl App {
    /// The master's register after the relay has told it something.
    pub open spec fn told(self, message: RelayToMaster) -> App {
        App {
            relay_children: match message {
                RelayToMaster::ChildJoined { id, name, kind } => self.relay_children.insert(
                    id,
                    Speaker {
                        id,
                        name: name@,
                        kind: kind_meant(kind@),
                        latency_ms: Quantity { bits: ZERO },
                        config: default_config(),
                    },
                ),
                RelayToMaster::ChildLeft { id } => self.relay_children.remove(id),
                RelayToMaster::ChildLatency { id, latency_ms } => {
                    if self.relay_children.contains_key(id) {
                        self.relay_children.insert(
                            id,
                            Speaker { latency_ms, ..self.relay_children[id] },
                        )
                    } else {
                        self.relay_children
                    }
                },
                RelayToMaster::Roster { children } => roster_map(roster_rows(children@)),
            },
            ..self
        }
    }

    /// The uplink is lost: the relay takes no orders, and its children are out of sight.
    pub open spec fn uplink_lost(self) -> App {
        App { uplink_open: false, relay_children: Map::empty(), ..self }
    }
}

/// What happens to an uplink.
pub enum UplinkEvent {
    /// A captured chunk, to be played at `play_at`.
    Audio { play_at: Quantity, pcm: Vec<i16> },
    /// The uplink was too slow and missed some chunks.
    AudioLagged,
    AudioClosed,
    /// An order for the relay, from the user's side.
    Control(String),
    ControlClosed,
    /// The relay tells something.
    Relay(RelayToMaster),
    /// A text that makes no sense, or a frame of the transport itself.
    Noise,
    /// The relay closes the connection.
    Close,
    /// The connection failed or ended.
    Gone,
    /// Nothing happened for a while.
    Idle,
    /// Something could not be sent.
    SendFailed,
}

/// What an event calls for.
pub enum UplinkStep {
    Frame(Vec<u8>),
    Text(String),
    Pass,
    /// The attempt is over.
    Stop,
}

/// What an event calls for.
pub enum UplinkMove {
    Frame(Seq<u8>),
    Text(Seq<char>),
    Pass,
    Stop,
}

impl View for UplinkStep {
    type V = UplinkMove;

    open spec fn view(&self) -> UplinkMove {
        match self {
            UplinkStep::Frame(bytes) => UplinkMove::Frame(bytes@),
            UplinkStep::Text(text) => UplinkMove::Text(text@),
            UplinkStep::Pass => UplinkMove::Pass,
            UplinkStep::Stop => UplinkMove::Stop,
        }
    }
}

/// What an event calls for.
pub open spec fn uplink_move(event: UplinkEvent) -> UplinkMove {
    match event {
        UplinkEvent::Audio { play_at, pcm } => UplinkMove::Frame(frame(play_at, pcm_bytes(pcm@))),
        UplinkEvent::Control(text) => UplinkMove::Text(text@),
        UplinkEvent::AudioClosed | UplinkEvent::Close | UplinkEvent::Gone
        | UplinkEvent::SendFailed => UplinkMove::Stop,
        UplinkEvent::AudioLagged | UplinkEvent::ControlClosed | UplinkEvent::Relay(_)
        | UplinkEvent::Noise | UplinkEvent::Idle => UplinkMove::Pass,
    }
}

impl App {
    /// What the application knows after an event of the uplink.
    pub open spec fn after_uplink(self, event: UplinkEvent) -> App {
        match uplink_move(event) {
            UplinkMove::Stop => App { uplink_open: false, ..self },
            _ => match event {
                UplinkEvent::Relay(message) => self.told(message),
                _ => self,
            },
        }
    }
}

impl AppState {
    /// What to send a relay first.
    pub fn uplink_hello(&self) -> (r: Message)
        ensures
            r@ == Said::Plain(source_hello_members(self.buffer_ms, self.crossover_hz)),
    {
        Message::Plain(source_hello_record(self.buffer_ms, self.crossover_hz))
    }

    /// The relay has been greeted: it takes orders from now on.
    pub fn open_uplink(&mut self)
        requires
            old(self).wf(),
        ensures
            final(self).wf(),
            final(self)@ == (App { uplink_open: true, ..old(self)@ }),
    {
        self.uplink_open = true;
    }

    /// The uplink is lost, for now or for good.
    pub fn lose_uplink(&mut self)
        requires
            old(self).wf(),
        ensures
            final(self).wf(),
            final(self)@ == old(self)@.uplink_lost(),
    {
        self.uplink_open = false;
        self.forget_children();
    }

    /// Takes the uplink one event further.
    pub fn uplink_step(&mut self, event: UplinkEvent) -> (r: UplinkStep)
        requires
            old(self).wf(),
        ensures
            final(self).wf(),
            r@ == uplink_move(event),
            final(self)@ == old(self)@.after_uplink(event),
    {
        match event {
            UplinkEvent::Audio { play_at, pcm } => UplinkStep::Frame(
                encode_audio_frame(play_at, pcm.as_slice()),
            ),
            UplinkEvent::Control(text) => UplinkStep::Text(text),
            UplinkEvent::AudioClosed | UplinkEvent::Close | UplinkEvent::Gone
            | UplinkEvent::SendFailed => {
                self.uplink_open = false;
                UplinkStep::Stop
            },
            UplinkEvent::Relay(message) => {
                self.handle_relay(message);
                UplinkStep::Pass
            },
            UplinkEvent::AudioLagged | UplinkEvent::ControlClosed | UplinkEvent::Noise
            | UplinkEvent::Idle => UplinkStep::Pass,
        }
    }

    /// Takes in what the relay tells.
    pub fn handle_relay(&mut self, message: RelayToMaster)
        requires
            old(self).wf(),
        ensures
            final(self).wf(),
            final(self)@ == old(self)@.told(message),
    {
        let ghost map = self.relay_children.map();
        match message {
            RelayToMaster::ChildJoined { id, name, kind } => {
                let child = RelayChild {
                    id,
                    name,
                    kind: kind_from_str(kind.as_str()),
                    latency_ms: Quantity::new(ZERO),
                    config: ClientConfig::default(),
                };
                self.relay_children.insert(child);
                proof {
                    image_of_insert(map, |c: RelayChild| c@, id, child);
                }
            },
            RelayToMaster::ChildLeft { id } => {
                self.relay_children.remove(id);
                proof {
                    image_of_remove(map, |c: RelayChild| c@, id);
                }
            },
            RelayToMaster::ChildLatency { id, latency_ms } => {
                if let Some(child) = self.relay_children.get_mut(id) {
                    child.latency_ms = latency_ms;
                    proof {
                        image_of_insert(map, |c: RelayChild| c@, id, *child);
                    }
                }
            },
            RelayToMaster::Roster { children } => {
                self.relay_children = register_roster(children);
            },
        }
    }
}

/// The register that a roster describes.
fn register_roster(children: Vec<RosterChild>) -> (r: Registry<RelayChild>)
    ensures
        r.wf(),
        r.map().map_values(|c: RelayChild| c@) == roster_map(roster_rows(children@)),
{
    let ghost rows = roster_rows(children@);
    let mut out: Registry<RelayChild> = Registry::new();
    let mut rest = children;
    assert(rows.take(0) =~= Seq::empty());
    assert(out.map().map_values(|c: RelayChild| c@) =~= Map::empty());
    let mut i: usize = 0;
    while i < rest.len()
        invariant
            i <= rest@.len(),
            rest@ == children@,
            rows == roster_rows(children@),
            out.wf(),
            out.map().map_values(|c: RelayChild| c@) == roster_map(rows.take(i as int)),
        decreases rest@.len() - i,
    {
        let row = &rest[i];
        let config = ClientConfig {
            role: role_from_str(borrowed(&row.role)),
            pan: pan_from_str(borrowed(&row.pan)),
            gain: match row.gain {
                Some(gain) => gain,
                None => Quantity::new(DEFAULT_GAIN),
            },
        };
        let child = RelayChild {
            id: row.id,
            name: row.name.clone(),
            kind: kind_from_str(row.kind.as_str()),
            latency_ms: row.latency_ms,
            config,
        };
        let ghost map = out.map();
        let ghost id = row.id;
        out.insert(child);
        proof {
            image_of_insert(map, |c: RelayChild| c@, id, child);
            assert(rows.take(i + 1).drop_last() =~= rows.take(i as int));
            assert(rows.take(i + 1).last() == rest@[i as int]@);
        }
        i = i + 1;
    }
    assert(rows.take(i as int) =~= rows);
    out
}

/// A roster replaces whatever the master believed before: a master that reconnects is in
/// step with its relay at once.
pub proof fn roster_resynchronises(app: App, other: App, children: Vec<RosterChild>)
    ensures
        app.told(RelayToMaster::Roster { children }).relay_children == other.told(
            RelayToMaster::Roster { children },
        ).relay_children,
        app.uplink_lost().told(RelayToMaster::Roster { children }).relay_children
            == roster_map(roster_rows(children@)),
{
}

/// How a master reads the row of the roster that a relay writes for a child.
pub open spec fn row_read(child: ChildState) -> RosterRow {
    RosterRow {
        id: child.id,
        name: child.name,
        kind: child.kind,
        latency_ms: child.latency_ms,
        role: Some(child.role),
        pan: Some(child.pan),
        gain: Some(child.gain),
    }
}

/// In a list without repetitions the rows do not hide each other.
proof fn roster_lists_each_row(rows: Seq<RosterRow>, id: u32)
    requires
        forall|i: int, j: int| 0 <= i < j < rows.len() ==> (#[trigger] rows[i]).id != (
        #[trigger] rows[j]).id,
    ensures
        roster_map(rows).contains_key(id) <==> exists|i: int|
            0 <= i < rows.len() && (#[trigger] rows[i]).id == id,
        forall|i: int|
            0 <= i < rows.len() && (#[trigger] rows[i]).id == id ==> roster_map(rows)[id]
                == rows[i].speaker(),
    decreases rows.len(),
{
    if rows.len() > 0 {
        let front = rows.drop_last();
        roster_lists_each_row(front, id);
        assert forall|i: int| 0 <= i < rows.len() && (#[trigger] rows[i]).id == id implies
            roster_map(rows)[id] == rows[i].speaker() by {
            if i < front.len() {
                assert(front[i] == rows[i]);
                assert(rows[i].id != rows[rows.len() - 1].id);
            }
        }
        if roster_map(front).contains_key(id) {
            let i = choose|i: int| 0 <= i < front.len() && (#[trigger] front[i]).id == id;
            assert(rows[i].id == id);
        }
        if exists|i: int| 0 <= i < rows.len() && (#[trigger] rows[i]).id == id {
            let i = choose|i: int| 0 <= i < rows.len() && (#[trigger] rows[i]).id == id;
            if i < front.len() {
                assert(front[i].id == id);
            }
        }
    }
}

/// A master that reads a relay's roster knows the relay's children, each by the settings
/// that the relay keeps for it.
pub proof fn roster_mirrors_the_relay(relay: Relay, id: u32)
    requires
        relay.wf(),
    ensures
        ({
            let rows = listing(relay@.children).map_values(|child: ChildState| row_read(child));
            &&& roster_map(rows).contains_key(id) == relay@.children.contains_key(id)
            &&& relay@.children.contains_key(id) ==> roster_map(rows)[id] == row_read(
                relay@.children[id],
            ).speaker()
        }),
{
    let view = |child: crate::relay::Child| child@;
    crate::registry::directory_of_images(relay.children@, view);
    let list = listing(relay@.children);
    let rows = list.map_values(|child: ChildState| row_read(child));
    assert forall|i: int, j: int| 0 <= i < j < rows.len() implies (#[trigger] rows[i]).id != (
    #[trigger] rows[j]).id by {
        use_ascending(list, i, j);
    }
    roster_lists_each_row(rows, id);
    if relay@.children.contains_key(id) {
        let i = found_is_entry(list, id);
        assert(rows[i].id == id);
    }
    if roster_map(rows).contains_key(id) {
        let i = choose|i: int| 0 <= i < rows.len() && (#[trigger] rows[i]).id == id;
        crate::registry::entry_is_found(list, i);
    }
}

/// The children of a roster have different numbers.
proof fn use_ascending(list: Seq<ChildState>, i: int, j: int)
    requires
        crate::registry::ascending(list),
        0 <= i < j < list.len(),
    ensures
        list[i].id < list[j].id,
{
    assert(list[i].key() < list[j].key());
}

/// What a relay tells of one child changes what is known of that child and of nobody else: one
/// that joined is known by its name, unmeasured and with the settings that everybody starts with;
/// one that left is forgotten; and a measurement is noted of a child that is known.
pub proof fn tidings_concern_one_child(
    app: App,
    id: u32,
    name: String,
    kind: String,
    latency_ms: Quantity,
    other: u32,
)
    ensures
        ({
            let joined = app.told(RelayToMaster::ChildJoined { id, name, kind });
            let left = app.told(RelayToMaster::ChildLeft { id });
            let timed = app.told(RelayToMaster::ChildLatency { id, latency_ms });
            &&& joined.relay_children.contains_key(id)
            &&& joined.relay_children[id].id == id && joined.relay_children[id].name == name@
            &&& joined.relay_children[id].kind is Native <==> kind@ == "native"@
            &&& joined.relay_children[id].latency_ms.bits == 0
            &&& joined.relay_children[id].config == default_config()
            &&& !left.relay_children.contains_key(id)
            &&& timed.relay_children.contains_key(id) == app.relay_children.contains_key(id)
            &&& app.relay_children.contains_key(id) ==> timed.relay_children[id] == (Speaker {
                latency_ms,
                ..app.relay_children[id]
            })
            &&& other != id ==> {
                &&& joined.relay_children.contains_key(other) == app.relay_children.contains_key(
                    other,
                )
                &&& left.relay_children.contains_key(other) == app.relay_children.contains_key(
                    other,
                )
                &&& timed.relay_children.contains_key(other) == app.relay_children.contains_key(
                    other,
                )
                &&& app.relay_children.contains_key(other) ==> {
                    &&& joined.relay_children[other] == app.relay_children[other]
                    &&& left.relay_children[other] == app.relay_children[other]
                    &&& timed.relay_children[other] == app.relay_children[other]
                }
            }
        }),
{
}

/// Whatever the relay tells, nothing but the register of its children changes.
pub proof fn tidings_change_only_the_register(app: App, message: RelayToMaster)
    ensures
        app.told(message) == (App { relay_children: app.told(message).relay_children, ..app }),
{
}

/// The last row of a roster is believed, and it hides no row of another child; a roster without
/// rows lists nobody.
pub proof fn rosters_are_believed_row_by_row(rows: Seq<RosterRow>, row: RosterRow, other: u32)
    ensures
        ({
            let before = roster_map(rows);
            let after = roster_map(rows.push(row));
            &&& after.contains_key(row.id) && after[row.id] == row.speaker()
            &&& other != row.id ==> after.contains_key(other) == before.contains_key(other)
            &&& other != row.id && before.contains_key(other) ==> after[other] == before[other]
            &&& rows.len() == 0 ==> !before.contains_key(other)
        }),
{
    assert(rows.push(row).drop_last() =~= rows);
}

/// A row of the roster describes the child that it names: its name, its kind, its latency and its
/// settings, with the common gain where it gives none.
pub proof fn rows_describe_the_child(row: RosterRow)
    ensures
        row.speaker().id == row.id && row.speaker().name == row.name,
        row.speaker().kind is Native <==> row.kind == "native"@,
        row.speaker().latency_ms == row.latency_ms,
        row.role is None ==> row.speaker().config.role is Full,
        row.speaker().config.role is Sub <==> row.role == Some("sub"@),
        row.speaker().config.role is Tweeter <==> row.role == Some("tweeter"@),
        row.pan is None ==> row.speaker().config.pan is Mid,
        row.speaker().config.pan is Left <==> row.pan == Some("left"@),
        row.speaker().config.pan is Right <==> row.pan == Some("right"@),
        row.gain matches Some(gain) ==> row.speaker().config.gain == gain,
        row.gain is None ==> row.speaker().config.gain.bits == 0x3fe9_9999_a000_0000,
{
    crate::state::words_of_the_protocol("sub"@);
    crate::state::words_read_back(crate::state::Role::Tweeter, crate::state::Pan::Right);
}

/// The uplink sends the whole stream: for every captured chunk one frame, out of which the relay
/// reads the time of the chunk and every one of its samples. Orders go up as they are.
pub proof fn uplink_sends_everything(app: App, play_at: Quantity, pcm: Vec<i16>, order: String)
    ensures
        uplink_move(UplinkEvent::Audio { play_at, pcm }) matches UplinkMove::Frame(sent)
            && is_audio(sent) && sent.len() == 12 + 2 * pcm@.len() && frame_time(sent) == play_at
            && pcm_samples(frame_payload(sent)) == pcm@,
        uplink_move(UplinkEvent::Control(order)) == UplinkMove::Text(order@),
        app.after_uplink(UplinkEvent::Audio { play_at, pcm }) == app,
        app.after_uplink(UplinkEvent::Control(order)) == app,
{
    frame_reads_back(play_at, pcm_bytes(pcm@));
    audio_reads_back(play_at, pcm@);
}

/// The uplink is over when the relay closes or is gone, when something cannot be sent, or when the
/// capture ends; then it takes no more orders. Nothing else ends it.
pub proof fn uplinks_end_with_the_relay(app: App, event: UplinkEvent)
    ensures
        uplink_move(event) is Stop <==> event is Close || event is Gone || event is SendFailed
            || event is AudioClosed,
        uplink_move(event) is Stop ==> app.after_uplink(event) == (App {
            uplink_open: false,
            ..app
        }),
        event is AudioLagged || event is ControlClosed || event is Noise || event is Idle
            ==> uplink_move(event) is Pass && app.after_uplink(event) == app,
{
}

/// What the relay tells through the uplink is taken in.
pub proof fn tidings_arrive_through_the_uplink(app: App, message: RelayToMaster)
    ensures
        uplink_move(UplinkEvent::Relay(message)) is Pass,
        app.after_uplink(UplinkEvent::Relay(message)) == app.told(message),
{
}

/// A lost uplink takes no orders and shows no children, and nothing else is lost.
pub proof fn lost_uplinks_are_empty(app: App)
    ensures
        !app.uplink_lost().uplink_open,
        app.uplink_lost().relay_children.dom() == Set::<u32>::empty(),
        app.uplink_lost() == (App {
            uplink_open: false,
            relay_children: app.uplink_lost().relay_children,
            ..app
        }),
{
}

/// What the uplink sends is what its steps hold, and what a roster says are its rows.
pub proof fn uplink_steps_are_as_they_are(
    bytes: Vec<u8>,
    text: String,
    child: RosterChild,
    children: Seq<RosterChild>,
    i: int,
)
    ensures
        UplinkStep::Frame(bytes)@ == UplinkMove::Frame(bytes@),
        UplinkStep::Text(text)@ == UplinkMove::Text(text@),
        UplinkStep::Pass@ is Pass && UplinkStep::Stop@ is Stop,
        child@.id == child.id && child@.name == child.name@ && child@.kind == child.kind@,
        child@.latency_ms == child.latency_ms && child@.gain == child.gain,
        child@.role == maybe_text(child.role) && child@.pan == maybe_text(child.pan),
        roster_rows(children).len() == children.len(),
        0 <= i < children.len() ==> roster_rows(children)[i] == children[i]@,
{
}

/// A roster that a relay writes is read row by row as what the relay knows.
pub proof fn rows_are_read_as_written(child: ChildState)
    ensures
        row_read(child).id == child.id && row_read(child).name == child.name,
        row_read(child).kind == child.kind && row_read(child).latency_ms == child.latency_ms,
        row_read(child).role == Some(child.role) && row_read(child).pan == Some(child.pan),
        row_read(child).gain == Some(child.gain),
{
}

} // verus!
