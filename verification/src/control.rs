//! What the user can do, and what follows from it.

#[allow(unused_imports)]
use crate::address::{
    host_port, own_playback_joins_the_relay, public_url, secure, speaker_url, without_scheme,
};
use crate::address::{normalize_relay_addr, strip_scheme};
use crate::message::{set_buffer_record, set_config_record, set_crossover_record, Message, Said};
#[allow(unused_imports)]
use crate::message::{set_buffer_members, set_config_members, set_crossover_members};
use crate::quantity::{Quantity, ONE, ZERO};
#[allow(unused_imports)]
use crate::registry::{
    directory, directory_of_images, entry_is_found, found_is_entry, image_of_insert, listing,
    listing_of_directory,
};
use crate::state::{
    pan_str, role_str, App, AppState, ClientConfig, ClientEntry, ClientMsg, Mode, Pan, RelayChild,
    Role, Speaker,
};
#[allow(unused_imports)]
use crate::state::{pan_word, role_word, texts};
#[allow(unused_imports)]
use crate::text::starts;
use vstd::prelude::*;
use vstd::string::*;

verus! {

/// The shortest buffer that can be set.
pub const MIN_BUFFER_MS: u32 = 100;

/// The longest buffer that can be set: ten seconds.
pub const MAX_BUFFER_MS: u32 = 10_000;

/// Something to send.
pub enum Action {
    /// To the task of a connected client.
    Client(u32, ClientMsg),
    /// To the relay.
    Uplink(Message),
}

/// What is sent, and to whom.
pub enum Acted {
    Client(u32, ClientMsg),
    Uplink(Said),
}

impl View for Action {
    type V = Acted;

    open spec fn view(&self) -> Acted {
        match self {
            Action::Client(id, message) => Acted::Client(*id, *message),
            Action::Uplink(message) => Acted::Uplink(message@),
        }
    }
}

/// What is sent, in order.
pub open spec fn acted(actions: Seq<Action>) -> Seq<Acted> {
    actions.map_values(|action: Action| action@)
}

/// What becomes of the master's own playback.
#[derive(Debug, Clone, Copy, PartialEq, Eq, Structural)]
pub enum Playback {
    Start,
    Stop,
    Leave,
}

impl App {
    /// Hosting directly begins.
    pub open spec fn mastering(self, source: Seq<char>, warnings: Seq<Seq<char>>) -> App {
        App {
            mode: Mode::Master,
            capture_source: source,
            warnings,
            client_addr: None,
            relay_url: None,
            relay_children: Map::empty(),
            uplink_open: false,
            ..self
        }
    }

    /// Hosting through the relay at `relay` begins.
    pub open spec fn relaying(
        self,
        relay: Seq<char>,
        source: Seq<char>,
        warnings: Seq<Seq<char>>,
    ) -> App {
        App {
            mode: Mode::RelayHost,
            capture_source: source,
            warnings,
            client_addr: None,
            clients: Map::empty(),
            relay_children: Map::empty(),
            relay_url: Some(public_url(relay)),
            ..self
        }
    }

    /// Hosting ends.
    pub open spec fn unhosted(self) -> App {
        App {
            mode: Mode::Idle,
            clients: Map::empty(),
            relay_children: Map::empty(),
            relay_url: None,
            uplink_open: false,
            capture_source: Seq::empty(),
            warnings: Seq::empty(),
            ..self
        }
    }

    /// A message for the relay, where the uplink takes it.
    pub open spec fn to_relay(self, said: Said) -> Seq<Acted> {
        if self.uplink_open {
            seq![Acted::Uplink(said)]
        } else {
            Seq::empty()
        }
    }

    /// Every connected client is sent its settings.
    pub open spec fn configs(self) -> Seq<Acted> {
        listing(self.clients).map_values(
            |speaker: Speaker| Acted::Client(speaker.id, ClientMsg::Config(speaker.config)),
        )
    }

    /// One speaker gets new settings: a child of the relay, or a client of this master.
    pub open spec fn assigned(self, id: u32, config: ClientConfig) -> App {
        if self.mode == Mode::RelayHost {
            if self.relay_children.contains_key(id) {
                App {
                    relay_children: self.relay_children.insert(
                        id,
                        Speaker { config, ..self.relay_children[id] },
                    ),
                    ..self
                }
            } else {
                self
            }
        } else if self.clients.contains_key(id) {
            App {
                clients: self.clients.insert(id, Speaker { config, ..self.clients[id] }),
                ..self
            }
        } else {
            self
        }
    }

    /// Who is told of the new settings.
    pub open spec fn assign_actions(self, id: u32, config: ClientConfig) -> Seq<Acted> {
        if self.mode == Mode::RelayHost {
            self.to_relay(
                Said::Plain(
                    set_config_members(
                        id,
                        role_word(config.role),
                        pan_word(config.pan),
                        config.gain,
                    ),
                ),
            )
        } else if self.clients.contains_key(id) {
            seq![Acted::Client(id, ClientMsg::Config(config))]
        } else {
            Seq::empty()
        }
    }

    /// Who is told of a new crossover frequency.
    pub open spec fn crossover_actions(self, hz: Quantity) -> Seq<Acted> {
        if self.mode == Mode::RelayHost {
            self.to_relay(Said::Plain(set_crossover_members(hz)))
        } else {
            self.configs()
        }
    }

    /// Who is told of a new buffer.
    pub open spec fn buffer_actions(self, ms: u32) -> Seq<Acted> {
        if self.mode == Mode::RelayHost {
            self.to_relay(Said::Plain(set_buffer_members(ms)))
        } else {
            self.configs()
        }
    }

    /// Where the master's own playback connects to. A master that serves its clients plays
    /// from itself; behind a relay it plays like any other child.
    pub open spec fn playback_target(self) -> Seq<char> {
        if self.mode == Mode::RelayHost && self.relay_url is Some {
            without_scheme(self.relay_url->0)
        } else {
            "127.0.0.1"@
        }
    }

    /// This machine hosts, directly or through a relay.
    pub open spec fn hosting(self) -> bool {
        self.mode == Mode::Master || self.mode == Mode::RelayHost
    }
}

/// The buffer that is set for a wish.
pub open spec fn buffer_granted(ms: u32) -> u32 {
    if ms < MIN_BUFFER_MS {
        MIN_BUFFER_MS
    } else if ms > MAX_BUFFER_MS {
        MAX_BUFFER_MS
    } else {
        ms
    }
}

impl AppState {
    /// Forgets the clients.
    fn forget_clients(&mut self)
        requires
            old(self).wf(),
        ensures
            final(self).wf(),
            final(self)@ == (App { clients: Map::empty(), ..old(self)@ }),
    {
        self.clients.clear();
        assert(self@.clients =~= Map::empty());
    }

    /// Forgets the children of the relay.
    pub fn forget_children(&mut self)
        requires
            old(self).wf(),
        ensures
            final(self).wf(),
            final(self)@ == (App { relay_children: Map::empty(), ..old(self)@ }),
    {
        self.relay_children.clear();
        assert(self@.relay_children =~= Map::empty());
    }

    /// Whether hosting directly would be a change; if so, whatever hosts now is stopped and
    /// a capture is started before `start_master`.
    pub fn can_start_master(&self) -> (r: bool)
        ensures
            r == (self.mode != Mode::Master),
    {
        !matches!(self.mode, Mode::Master)
    }

    /// Whether hosting through a relay would be a change; if so, whatever hosts now is
    /// stopped and a capture is started before `start_relay_host`.
    pub fn can_start_relay_host(&self) -> (r: bool)
        ensures
            r == (self.mode != Mode::RelayHost),
    {
        !matches!(self.mode, Mode::RelayHost)
    }

    /// Hosting directly begins, with a capture that has started. Returns whether the master
    /// plays along.
    pub fn start_master(&mut self, source: String, warnings: Vec<String>) -> (r: bool)
        requires
            old(self).wf(),
        ensures
            final(self).wf(),
            final(self)@ == old(self)@.mastering(source@, texts(warnings@)),
            r == old(self).master_plays,
    {
        self.mode = Mode::Master;
        self.capture_source = source;
        self.warnings = warnings;
        self.client_addr = None;
        self.relay_url = None;
        self.forget_children();
        self.uplink_open = false;
        self.master_plays
    }

    /// Hosting through the relay at `relay` begins, with a capture that has started. Returns
    /// whether the master plays along.
    pub fn start_relay_host(&mut self, relay: &str, source: String, warnings: Vec<String>) -> (r:
        bool)
        requires
            old(self).wf(),
        ensures
            final(self).wf(),
            final(self)@ == old(self)@.relaying(relay@, source@, texts(warnings@)),
            r == old(self).master_plays,
    {
        let (public, _) = normalize_relay_addr(relay);
        self.mode = Mode::RelayHost;
        self.capture_source = source;
        self.warnings = warnings;
        self.client_addr = None;
        self.forget_clients();
        self.forget_children();
        self.relay_url = Some(public);
        self.master_plays
    }

    /// Hosting ends.
    pub fn stop_master(&mut self)
        requires
            old(self).wf(),
        ensures
            final(self).wf(),
            final(self)@ == old(self)@.unhosted(),
    {
        self.mode = Mode::Idle;
        self.forget_clients();
        self.forget_children();
        self.relay_url = None;
        self.uplink_open = false;
        self.capture_source = String::new();
        self.warnings = Vec::new();
        proof {
            assert(self@.capture_source =~= Seq::empty());
            assert(self@.warnings =~= Seq::empty());
        }
    }

    /// A message for the relay, where the uplink takes it.
    fn send_relay(&self, message: Message) -> (r: Vec<Action>)
        ensures
            acted(r@) == self@.to_relay(message@),
    {
        let mut actions: Vec<Action> = Vec::new();
        if self.uplink_open {
            actions.push(Action::Uplink(message));
        }
        assert(acted(actions@) =~= self@.to_relay(message@));
        actions
    }

    /// Every connected client is sent its settings.
    fn send_configs(&self) -> (r: Vec<Action>)
        requires
            self.wf(),
        ensures
            acted(r@) == self@.configs(),
    {
        let mut actions: Vec<Action> = Vec::new();
        let mut i: usize = 0;
        while i < self.clients.len()
            invariant
                i <= self.clients@.len(),
                actions@.len() == i,
                forall|j: int|
                    0 <= j < i ==> (#[trigger] actions@[j])@ == Acted::Client(
                        self.clients@[j].id,
                        ClientMsg::Config(self.clients@[j].config),
                    ),
            decreases self.clients@.len() - i,
        {
            let client = self.clients.at(i);
            actions.push(Action::Client(client.id, ClientMsg::Config(client.config)));
            i = i + 1;
        }
        proof {
            self.listings();
            assert(acted(actions@) =~= self@.configs());
        }
        actions
    }

    /// Assigns the settings of one speaker.
    pub fn set_client_config(&mut self, id: u32, role: Role, pan: Pan, gain: Quantity) -> (r: Vec<
        Action,
    >)
        requires
            old(self).wf(),
        ensures
            final(self).wf(),
            final(self)@ == old(self)@.assigned(id, ClientConfig { role, pan, gain }),
            acted(r@) == old(self)@.assign_actions(id, ClientConfig { role, pan, gain }),
    {
        let config = ClientConfig { role, pan, gain };
        if matches!(self.mode, Mode::RelayHost) {
            let ghost map = self.relay_children.map();
            if let Some(child) = self.relay_children.get_mut(id) {
                child.config = config;
                proof {
                    image_of_insert(map, |c: RelayChild| c@, id, *child);
                }
            }
            self.send_relay(
                Message::Plain(set_config_record(id, role_str(role), pan_str(pan), gain)),
            )
        } else {
            let mut actions: Vec<Action> = Vec::new();
            assert(acted(actions@) =~= Seq::empty());
            let ghost start = self@;
            let ghost map = self.clients.map();
            if let Some(client) = self.clients.get_mut(id) {
                client.config = config;
                actions.push(Action::Client(id, ClientMsg::Config(config)));
                proof {
                    image_of_insert(map, |c: ClientEntry| c@, id, *client);
                    assert(acted(actions@) =~= start.assign_actions(id, config));
                }
            }
            actions
        }
    }

    /// Sets the crossover frequency for all speakers.
    pub fn set_crossover(&mut self, hz: Quantity) -> (r: Vec<Action>)
        requires
            old(self).wf(),
        ensures
            final(self).wf(),
            final(self)@ == (App { crossover_hz: hz, ..old(self)@ }),
            acted(r@) == old(self)@.crossover_actions(hz),
    {
        self.crossover_hz = hz;
        if matches!(self.mode, Mode::RelayHost) {
            self.send_relay(Message::Plain(set_crossover_record(hz)))
        } else {
            self.send_configs()
        }
    }

    /// Sets the buffer for all speakers, as far as it can be granted.
    pub fn set_buffer(&mut self, ms: u32) -> (r: Vec<Action>)
        requires
            old(self).wf(),
        ensures
            final(self).wf(),
            final(self)@ == (App { buffer_ms: buffer_granted(ms), ..old(self)@ }),
            acted(r@) == old(self)@.buffer_actions(buffer_granted(ms)),
    {
        let granted = if ms < MIN_BUFFER_MS {
            MIN_BUFFER_MS
        } else if ms > MAX_BUFFER_MS {
            MAX_BUFFER_MS
        } else {
            ms
        };
        self.buffer_ms = granted;
        if matches!(self.mode, Mode::RelayHost) {
            self.send_relay(Message::Plain(set_buffer_record(granted)))
        } else {
            self.send_configs()
        }
    }

    /// Sets the volume of the master, from 0 to 1.
    pub fn set_master_volume(&mut self, v: Quantity)
        requires
            old(self).wf(),
        ensures
            final(self).wf(),
            final(self)@ == (App {
                master_volume: v.clamped(Quantity { bits: ZERO }, Quantity { bits: ONE }),
                ..old(self)@
            }),
    {
        self.master_volume = v.clamp(&Quantity::new(ZERO), &Quantity::new(ONE));
    }

    /// Sets whether the master plays along, and says what becomes of its playback.
    pub fn set_master_plays(&mut self, on: bool) -> (r: Playback)
        requires
            old(self).wf(),
        ensures
            final(self).wf(),
            final(self)@ == (App { master_plays: on, ..old(self)@ }),
            r == if !old(self)@.hosting() {
                Playback::Leave
            } else if on {
                Playback::Start
            } else {
                Playback::Stop
            },
    {
        self.master_plays = on;
        if matches!(self.mode, Mode::Master | Mode::RelayHost) {
            if on {
                Playback::Start
            } else {
                Playback::Stop
            }
        } else {
            Playback::Leave
        }
    }

    /// Becomes a speaker of the master at `addr`.
    pub fn start_client(&mut self, addr: String)
        requires
            old(self).wf(),
        ensures
            final(self).wf(),
            final(self)@ == (App {
                mode: Mode::Client,
                client_addr: Some(addr@),
                ..old(self)@
            }),
    {
        self.mode = Mode::Client;
        self.client_addr = Some(addr);
    }

    /// Stops being a speaker.
    pub fn stop_client(&mut self)
        requires
            old(self).wf(),
        ensures
            final(self).wf(),
            final(self)@ == (App {
                mode: Mode::Idle,
                client_addr: None,
                client_status: None,
                ..old(self)@
            }),
    {
        self.mode = Mode::Idle;
        self.client_addr = None;
        self.client_status = None;
    }

    /// Where the master's own playback connects to.
    pub fn playback_target(&self) -> (r: String)
        ensures
            r@ == self@.playback_target(),
    {
        if matches!(self.mode, Mode::RelayHost) {
            match &self.relay_url {
                Some(url) => strip_scheme(url.as_str()),
                None => "127.0.0.1".to_owned(),
            }
        } else {
            "127.0.0.1".to_owned()
        }
    }
}

/// Something to do to a background task.
#[derive(Debug, Clone, Copy, PartialEq, Eq, Structural)]
pub enum TaskAction {
    AbortServer,
    AbortUplink,
    SignalUplink,
    SignalPlayback,
    AbortClient,
    SignalClient,
}

/// Which background tasks have been started and not been stopped.
#[derive(Debug, Clone, Copy, PartialEq, Eq, Structural)]
pub struct Runtime {
    pub server: bool,
    pub playback: bool,
    pub client: bool,
    pub uplink: bool,
}

/// `actions`, where `wanted`.
pub open spec fn actions_if(wanted: bool, actions: Seq<TaskAction>) -> Seq<TaskAction> {
    if wanted {
        actions
    } else {
        Seq::empty()
    }
}

impl Runtime {
    /// What stops whatever hosts, and the master's own playback.
    pub open spec fn stop_actions(self) -> Seq<TaskAction> {
        actions_if(self.server, seq![TaskAction::AbortServer]) + actions_if(
            self.uplink,
            seq![TaskAction::AbortUplink, TaskAction::SignalUplink],
        ) + actions_if(self.playback, seq![TaskAction::SignalPlayback])
    }

    /// No task runs.
    pub fn new() -> (r: Runtime)
        ensures
            r == (Runtime { server: false, playback: false, client: false, uplink: false }),
    {
        Runtime { server: false, playback: false, client: false, uplink: false }
    }

    /// The server has been started.
    pub fn server_started(&mut self)
        ensures
            *final(self) == (Runtime { server: true, ..*old(self) }),
    {
        self.server = true;
    }

    /// The uplink has been started.
    pub fn uplink_started(&mut self)
        ensures
            *final(self) == (Runtime { uplink: true, ..*old(self) }),
    {
        self.uplink = true;
    }

    /// The own client pipeline has been started.
    pub fn client_started(&mut self)
        ensures
            *final(self) == (Runtime { client: true, ..*old(self) }),
    {
        self.client = true;
    }

    /// Stops whatever hosts, and the master's own playback.
    pub fn stop_hosting(&mut self) -> (r: Vec<TaskAction>)
        ensures
            *final(self) == (Runtime {
                server: false,
                uplink: false,
                playback: false,
                ..*old(self)
            }),
            r@ == old(self).stop_actions(),
    {
        let mut actions: Vec<TaskAction> = Vec::new();
        if self.server {
            actions.push(TaskAction::AbortServer);
        }
        if self.uplink {
            actions.push(TaskAction::AbortUplink);
            actions.push(TaskAction::SignalUplink);
        }
        if self.stop_local_playback() {
            actions.push(TaskAction::SignalPlayback);
        }
        self.server = false;
        self.uplink = false;
        assert(actions@ =~= old(self).stop_actions());
        actions
    }

    /// Starts the master's own playback; `false` where it runs already.
    pub fn start_local_playback(&mut self) -> (r: bool)
        ensures
            r == !old(self).playback,
            *final(self) == (Runtime { playback: true, ..*old(self) }),
    {
        let start = !self.playback;
        self.playback = true;
        start
    }

    /// Stops the master's own playback; `false` where it does not run.
    pub fn stop_local_playback(&mut self) -> (r: bool)
        ensures
            r == old(self).playback,
            *final(self) == (Runtime { playback: false, ..*old(self) }),
    {
        let stop = self.playback;
        self.playback = false;
        stop
    }

    /// Stops being a speaker.
    pub fn stop_client(&mut self) -> (r: Vec<TaskAction>)
        ensures
            *final(self) == (Runtime { client: false, ..*old(self) }),
            r@ == actions_if(
                old(self).client,
                seq![TaskAction::AbortClient, TaskAction::SignalClient],
            ),
    {
        let mut actions: Vec<TaskAction> = Vec::new();
        if self.client {
            actions.push(TaskAction::AbortClient);
            actions.push(TaskAction::SignalClient);
        }
        self.client = false;
        assert(actions@ =~= actions_if(
            old(self).client,
            seq![TaskAction::AbortClient, TaskAction::SignalClient],
        ));
        actions
    }
}

/// The buffer that is set lies within its bounds, and a wish within them is granted.
pub proof fn buffer_stays_in_bounds(ms: u32)
    ensures
        MIN_BUFFER_MS <= buffer_granted(ms) <= MAX_BUFFER_MS,
        MIN_BUFFER_MS <= ms <= MAX_BUFFER_MS ==> buffer_granted(ms) == ms,
{
}

/// Ending to host forgets every speaker, whatever went before, and another end changes
/// nothing.
pub proof fn stopping_forgets_everybody(app: App)
    ensures
        app.unhosted().speakers() == Seq::<Speaker>::empty(),
        app.unhosted().unhosted() == app.unhosted(),
{
    listing_of_directory(Seq::<Speaker>::empty());
    assert(directory(Seq::<Speaker>::empty()) =~= Map::empty());
}

/// Hosting through a relay shows the relay's children alone, and the address that speakers
/// join by is the relay's.
pub proof fn relay_host_shares_the_relay(
    app: App,
    relay: Seq<char>,
    source: Seq<char>,
    warnings: Seq<Seq<char>>,
    lan_ip: Option<Seq<char>>,
)
    ensures
        app.relaying(relay, source, warnings).shown(lan_ip).addr == Some(public_url(relay)),
        app.relaying(relay, source, warnings).speakers() == Seq::<Speaker>::empty(),
{
    listing_of_directory(Seq::<Speaker>::empty());
    assert(directory(Seq::<Speaker>::empty()) =~= Map::empty());
}

/// New settings reach the speaker they are for and nobody else.
pub proof fn assignment_is_for_one_speaker(app: App, id: u32, config: ClientConfig, other: u32)
    requires
        other != id,
    ensures
        app.assigned(id, config).clients.contains_key(other) == app.clients.contains_key(other),
        app.clients.contains_key(other) ==> app.assigned(id, config).clients[other]
            == app.clients[other],
        app.assigned(id, config).relay_children.contains_key(other)
            == app.relay_children.contains_key(other),
        app.relay_children.contains_key(other) ==> app.assigned(id, config).relay_children[other]
            == app.relay_children[other],
{
}

/// What is assigned to a client of this master is stored and is what the client is told.
pub proof fn assignment_is_told(app: App, id: u32, config: ClientConfig)
    requires
        app.mode != Mode::RelayHost,
        app.clients.contains_key(id),
    ensures
        app.assigned(id, config).clients[id].config == config,
        app.assign_actions(id, config) == seq![Acted::Client(id, ClientMsg::Config(config))],
{
}

/// A change of the crossover or of the buffer reaches every client of this master, each with
/// its own settings.
pub proof fn changes_reach_every_client(state: AppState, hz: Quantity, ms: u32, id: u32)
    requires
        state.wf(),
        state@.mode != Mode::RelayHost,
        state@.clients.contains_key(id),
    ensures
        state@.crossover_actions(hz).contains(
            Acted::Client(id, ClientMsg::Config(state@.clients[id].config)),
        ),
        state@.buffer_actions(ms).contains(
            Acted::Client(id, ClientMsg::Config(state@.clients[id].config)),
        ),
{
    let view = |c: ClientEntry| c@;
    directory_of_images(state.clients@, view);
    let list = listing(state@.clients);
    let i = found_is_entry(list, id);
    assert(state@.configs()[i] == Acted::Client(
        id,
        ClientMsg::Config(state@.clients[id].config),
    ));
}

/// Whatever was running, after the end of hosting another end has nothing left to stop.
pub proof fn stopped_once_is_stopped(runtime: Runtime)
    ensures
        (Runtime { server: false, uplink: false, playback: false, ..runtime }).stop_actions()
            == Seq::<TaskAction>::empty(),
{
    assert((Runtime { server: false, uplink: false, playback: false, ..runtime }).stop_actions()
        =~= Seq::<TaskAction>::empty());
}

/// Hosting directly begins: the source and its warnings are shown, nothing is left of a relay, and
/// the clients, their numbers and all settings stay.
pub proof fn mastering_keeps_the_settings(app: App, source: Seq<char>, warnings: Seq<Seq<char>>)
    ensures
        ({
            let after = app.mastering(source, warnings);
            &&& after.mode is Master
            &&& after.capture_source == source && after.warnings == warnings
            &&& after.client_addr is None && after.relay_url is None && !after.uplink_open
            &&& after.relay_children.dom() == Set::<u32>::empty()
            &&& after.clients == app.clients && after.next_client_id == app.next_client_id
            &&& after.crossover_hz == app.crossover_hz && after.buffer_ms == app.buffer_ms
            &&& after.master_volume == app.master_volume && after.master_plays == app.master_plays
            &&& after.client_status == app.client_status
        }),
{
}

/// Hosting through a relay begins: the source and its warnings are shown, every speaker from
/// before is out of sight, and all settings stay.
pub proof fn relaying_keeps_the_settings(
    app: App,
    relay: Seq<char>,
    source: Seq<char>,
    warnings: Seq<Seq<char>>,
)
    ensures
        ({
            let after = app.relaying(relay, source, warnings);
            &&& after.mode is RelayHost
            &&& after.capture_source == source && after.warnings == warnings
            &&& after.client_addr is None && after.relay_url == Some(public_url(relay))
            &&& after.uplink_open == app.uplink_open
            &&& after.clients.dom() == Set::<u32>::empty()
            &&& after.relay_children.dom() == Set::<u32>::empty()
            &&& after.next_client_id == app.next_client_id
            &&& after.crossover_hz == app.crossover_hz && after.buffer_ms == app.buffer_ms
            &&& after.master_volume == app.master_volume && after.master_plays == app.master_plays
            &&& after.client_status == app.client_status
        }),
{
}

/// Hosting ends: no source, no warning and no address is left, and all settings stay.
pub proof fn unhosting_keeps_the_settings(app: App, lan_ip: Option<Seq<char>>)
    ensures
        ({
            let after = app.unhosted();
            &&& after.mode is Idle && after.shown(lan_ip).addr is None
            &&& after.capture_source.len() == 0 && after.warnings.len() == 0
            &&& after.relay_url is None && !after.uplink_open
            &&& after.clients.dom() == Set::<u32>::empty()
            &&& after.relay_children.dom() == Set::<u32>::empty()
            &&& after.next_client_id == app.next_client_id
            &&& after.crossover_hz == app.crossover_hz && after.buffer_ms == app.buffer_ms
            &&& after.master_volume == app.master_volume && after.master_plays == app.master_plays
            &&& after.client_addr == app.client_addr && after.client_status == app.client_status
        }),
{
}

/// Behind a relay the user's wishes go to the relay, one message for each, as long as the uplink
/// takes them: the settings of a speaker, the crossover and the buffer. No client of this master
/// is told.
pub proof fn wishes_go_to_the_relay(
    app: App,
    id: u32,
    config: ClientConfig,
    hz: Quantity,
    ms: u32,
)
    requires
        app.mode is RelayHost,
    ensures
        app.uplink_open ==> {
            &&& app.assign_actions(id, config).len() == 1
            &&& app.assign_actions(id, config)[0] == Acted::Uplink(
                Said::Plain(
                    set_config_members(
                        id,
                        role_word(config.role),
                        pan_word(config.pan),
                        config.gain,
                    ),
                ),
            )
            &&& app.crossover_actions(hz).len() == 1
            &&& app.crossover_actions(hz)[0] == Acted::Uplink(
                Said::Plain(set_crossover_members(hz)),
            )
            &&& app.buffer_actions(ms).len() == 1
            &&& app.buffer_actions(ms)[0] == Acted::Uplink(Said::Plain(set_buffer_members(ms)))
        },
        !app.uplink_open ==> {
            &&& app.assign_actions(id, config).len() == 0
            &&& app.crossover_actions(hz).len() == 0
            &&& app.buffer_actions(ms).len() == 0
        },
        app.relay_children.contains_key(id) ==> app.assigned(id, config).relay_children[id].config
            == config,
{
}

/// New settings change the settings of one speaker, and nothing else of it or of the application.
/// Settings for somebody who is not there change nothing, and without a relay they tell nobody.
pub proof fn assignment_changes_only_settings(app: App, id: u32, config: ClientConfig)
    ensures
        ({
            let after = app.assigned(id, config);
            &&& after == (App {
                clients: after.clients,
                relay_children: after.relay_children,
                ..app
            })
            &&& after.clients.contains_key(id) == app.clients.contains_key(id)
            &&& after.relay_children.contains_key(id) == app.relay_children.contains_key(id)
            &&& app.clients.contains_key(id) ==> after.clients[id] == (Speaker {
                config: after.clients[id].config,
                ..app.clients[id]
            })
            &&& app.relay_children.contains_key(id) ==> after.relay_children[id] == (Speaker {
                config: after.relay_children[id].config,
                ..app.relay_children[id]
            })
            &&& app.mode is RelayHost ==> after.clients == app.clients
            &&& !(app.mode is RelayHost) ==> after.relay_children == app.relay_children
            &&& !(app.mode is RelayHost) && !app.clients.contains_key(id) ==> {
                &&& after == app
                &&& app.assign_actions(id, config).len() == 0
            }
        }),
{
}

/// A change of the crossover or of the buffer is told to each client of this master once, and to
/// nobody else.
pub proof fn changes_reach_only_clients(state: AppState, hz: Quantity, ms: u32, i: int)
    requires
        state.wf(),
        !(state@.mode is RelayHost),
    ensures
        ({
            let told = state@.crossover_actions(hz);
            &&& told == state@.buffer_actions(ms)
            &&& told.len() == state.clients@.len()
            &&& 0 <= i < told.len() ==> {
                &&& told[i] matches Acted::Client(id, ClientMsg::Config(config))
                &&& state@.clients.contains_key(id) && state@.clients[id].config == config
                &&& id == state.clients@[i].id
            }
        }),
{
    directory_of_images(state.clients@, |c: ClientEntry| c@);
    let list = listing(state@.clients);
    if 0 <= i < list.len() {
        entry_is_found(list, i);
    }
}

/// A buffer from 100 ms to ten seconds is granted as it is; a shorter wish gets the shortest and a
/// longer one the longest.
pub proof fn buffers_last_up_to_ten_seconds(ms: u32)
    ensures
        100 <= ms <= 10_000 ==> buffer_granted(ms) == ms,
        ms < 100 ==> buffer_granted(ms) == 100,
        ms > 10_000 ==> buffer_granted(ms) == 10_000,
{
}

/// The master's own playback: behind a relay it dials the relay like any other speaker, and
/// without one it dials this machine.
pub proof fn own_playback_plays_the_stream(
    app: App,
    relay: Seq<char>,
    source: Seq<char>,
    warnings: Seq<Seq<char>>,
)
    ensures
        !secure(relay) && !starts(host_port(relay), "http://"@) ==> speaker_url(
            app.relaying(relay, source, warnings).playback_target(),
        ) == "ws://"@ + host_port(relay) + "/ws"@,
        !(app.mode is RelayHost) || app.relay_url is None ==> app.playback_target()
            == "127.0.0.1"@,
        app.mastering(source, warnings).playback_target() == "127.0.0.1"@,
{
    if !secure(relay) && !starts(host_port(relay), "http://"@) {
        own_playback_joins_the_relay(relay);
    }
}

/// This machine hosts exactly if it is a master, directly or through a relay.
pub proof fn masters_host(app: App)
    ensures
        app.hosting() <==> !(app.mode is Idle) && !(app.mode is Client),
{
}

/// The end of hosting stops exactly what hosts: each running task is stopped once, and one that
/// does not run is left alone, as is the own client pipeline.
pub proof fn running_tasks_are_stopped(runtime: Runtime)
    ensures
        ({
            let actions = runtime.stop_actions();
            &&& runtime.server <==> actions.contains(TaskAction::AbortServer)
            &&& runtime.uplink <==> actions.contains(TaskAction::AbortUplink)
            &&& runtime.uplink <==> actions.contains(TaskAction::SignalUplink)
            &&& runtime.playback <==> actions.contains(TaskAction::SignalPlayback)
            &&& !actions.contains(TaskAction::AbortClient)
            &&& !actions.contains(TaskAction::SignalClient)
            &&& actions.len() == (if runtime.server { 1int } else { 0 }) + (if runtime.uplink {
                2int
            } else {
                0
            }) + (if runtime.playback { 1int } else { 0 })
        }),
{
    let actions = runtime.stop_actions();
    let a: int = if runtime.server { 1 } else { 0 };
    let b: int = if runtime.uplink { a + 2 } else { a };
    if runtime.server {
        assert(actions[0] == TaskAction::AbortServer);
    }
    if runtime.uplink {
        assert(actions[a] == TaskAction::AbortUplink);
        assert(actions[a + 1] == TaskAction::SignalUplink);
    }
    if runtime.playback {
        assert(actions[b] == TaskAction::SignalPlayback);
    }
}

/// The end of the own client pipeline stops it exactly if it runs.
pub proof fn running_clients_are_stopped(running: bool)
    ensures
        ({
            let actions = actions_if(
                running,
                seq![TaskAction::AbortClient, TaskAction::SignalClient],
            );
            &&& running ==> actions.len() == 2 && actions[0] is AbortClient
                && actions[1] is SignalClient
            &&& !running ==> actions.len() == 0
        }),
{
}

/// What is sent is what the actions hold, each to whom it names, one after the other.
pub proof fn actions_are_sent_as_they_are(
    id: u32,
    wish: ClientMsg,
    message: Message,
    actions: Seq<Action>,
    i: int,
)
    ensures
        Action::Client(id, wish)@ == Acted::Client(id, wish),
        Action::Uplink(message)@ == Acted::Uplink(message@),
        acted(actions).len() == actions.len(),
        0 <= i < actions.len() ==> acted(actions)[i] == actions[i]@,
{
}

} // verus!
