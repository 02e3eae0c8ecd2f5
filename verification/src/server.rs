//! The master's side of a direct connection.
//!
//! A session waits for the hello of a client, registers the client and welcomes it. From
//! then on it answers pings, passes settings and audio on, and at its end it takes the
//! client off the register.

use crate::frame::encode_audio_frame;
#[allow(unused_imports)]
use crate::frame::{
    audio_reads_back, frame, frame_payload, frame_reads_back, frame_time, is_audio, pcm_bytes,
    pcm_samples,
};
use crate::json::Member;
use crate::message::{config_record, pong_record, welcome_record, Message, Said};
#[allow(unused_imports)]
use crate::message::{config_members, pong_members, welcome_members};
use crate::quantity::{Quantity, ZERO};
#[allow(unused_imports)]
use crate::registry::{image_of_insert, image_of_remove};
use crate::state::{
    kind_from_str, pan_str, role_str, App, AppState, ClientConfig, ClientEntry, ClientMsg, Speaker,
};
#[allow(unused_imports)]
use crate::state::{default_config, kind_meant, pan_word, role_word};
use vstd::prelude::*;
use vstd::string::*;

verus! {

/// How far a session has come.
#[derive(Debug, Clone, Copy, PartialEq, Eq, Structural)]
pub enum Session {
    /// The client has not said hello yet.
    Waiting,
    /// The client is registered under `id`.
    Live { id: u32 },
    Ended,
}

/// What happens to a session.
pub enum Event {
    Hello { name: String, kind: String },
    /// The client sent `t0` and was heard at `t1`; `rtt_half` is half of what lies between.
    Ping { t0: Quantity, t1: Quantity, rtt_half: Quantity },
    /// A text that makes no sense, or a frame of the transport itself.
    Noise,
    /// The client closes the connection.
    Close,
    /// The connection failed or ended.
    Gone,
    /// A message for the client, from the user's side.
    Control(ClientMsg),
    ControlClosed,
    /// A captured chunk, to be played at `play_at`.
    Audio { play_at: Quantity, pcm: Vec<i16> },
    /// The session was too slow and missed some chunks.
    AudioLagged,
    AudioClosed,
    /// Something could not be sent.
    SendFailed,
}

/// Something to send to the client.
pub enum Reply {
    Text(Message),
    Frame(Vec<u8>),
}

/// What is sent to the client.
pub enum Replied {
    Text(Said),
    Frame(Seq<u8>),
}

impl View for Reply {
    type V = Replied;

    open spec fn view(&self) -> Replied {
        match self {
            Reply::Text(message) => Replied::Text(message@),
            Reply::Frame(bytes) => Replied::Frame(bytes@),
        }
    }
}

/// What is sent to the client, in order.
pub open spec fn replied(replies: Seq<Reply>) -> Seq<Replied> {
    replies.map_values(|reply: Reply| reply@)
}

/// The settings of a client, as it receives them.
pub open spec fn config_said(
    config: ClientConfig,
    crossover_hz: Quantity,
    buffer_ms: u32,
) -> Map<Seq<char>, Member> {
    config_members(
        role_word(config.role),
        pan_word(config.pan),
        config.gain,
        crossover_hz,
        buffer_ms,
    )
}

/// The settings of a client, as it receives them.
pub fn config_to_json(cfg: &ClientConfig, crossover_hz: Quantity, buffer_ms: u32) -> (r: Message)
    ensures
        r@ == Said::Plain(config_said(*cfg, crossover_hz, buffer_ms)),
{
    Message::Plain(
        config_record(role_str(cfg.role), pan_str(cfg.pan), cfg.gain, crossover_hz, buffer_ms),
    )
}

impl App {
    /// The client that the next one to register will be.
    pub open spec fn newcomer(self, name: Seq<char>, kind: Seq<char>) -> Speaker {
        Speaker {
            id: self.next_client_id,
            name,
            kind: kind_meant(kind),
            latency_ms: Quantity { bits: ZERO },
            config: default_config(),
        }
    }

    /// A client is registered.
    pub open spec fn registered(self, name: Seq<char>, kind: Seq<char>) -> App {
        App {
            next_client_id: (self.next_client_id + 1) as u32,
            clients: self.clients.insert(self.next_client_id, self.newcomer(name, kind)),
            ..self
        }
    }

    /// A client is taken off the register.
    pub open spec fn deregistered(self, id: u32) -> App {
        App { clients: self.clients.remove(id), ..self }
    }

    /// A client has been measured.
    pub open spec fn timed(self, id: u32, latency_ms: Quantity) -> App {
        if self.clients.contains_key(id) {
            App {
                clients: self.clients.insert(id, Speaker { latency_ms, ..self.clients[id] }),
                ..self
            }
        } else {
            self
        }
    }

    /// No client has a number that is still to be given out.
    pub open spec fn numbered(self) -> bool {
        forall|id: u32| #[trigger] self.clients.contains_key(id) ==> id < self.next_client_id
    }
}

impl Session {
    /// The event ends a session that is live.
    pub open spec fn ends(event: Event) -> bool {
        match event {
            Event::Close | Event::Gone | Event::ControlClosed | Event::SendFailed => true,
            Event::Control(message) => message is Disconnect,
            _ => false,
        }
    }

    /// How far the session has come after the event.
    pub open spec fn next(self, app: App, event: Event) -> Session {
        match self {
            Session::Waiting => match event {
                Event::Hello { .. } => Session::Live { id: app.next_client_id },
                Event::Gone => Session::Ended,
                _ => Session::Waiting,
            },
            Session::Live { .. } => if Session::ends(event) {
                Session::Ended
            } else {
                self
            },
            Session::Ended => Session::Ended,
        }
    }

    /// What the application knows after the event.
    pub open spec fn effect(self, app: App, event: Event) -> App {
        match self {
            Session::Waiting => match event {
                Event::Hello { name, kind } => app.registered(name@, kind@),
                _ => app,
            },
            Session::Live { id } => if Session::ends(event) {
                app.deregistered(id)
            } else {
                match event {
                    Event::Ping { rtt_half, .. } => app.timed(id, rtt_half),
                    _ => app,
                }
            },
            Session::Ended => app,
        }
    }

    /// What is sent for the event. A client is welcomed and given its settings. Settings name
    /// the crossover and the buffer that are in force when they are sent.
    pub open spec fn replies(self, app: App, event: Event) -> Seq<Replied> {
        match self {
            Session::Waiting => match event {
                Event::Hello { .. } => seq![
                    Replied::Text(
                        Said::Plain(welcome_members(app.next_client_id, app.buffer_ms)),
                    ),
                    Replied::Text(
                        Said::Plain(
                            config_said(default_config(), app.crossover_hz, app.buffer_ms),
                        ),
                    ),
                ],
                _ => Seq::empty(),
            },
            Session::Live { .. } => match event {
                Event::Ping { t0, t1, .. } => seq![
                    Replied::Text(Said::Plain(pong_members(t0, t1))),
                ],
                Event::Control(ClientMsg::Config(config)) => seq![
                    Replied::Text(
                        Said::Plain(config_said(config, app.crossover_hz, app.buffer_ms)),
                    ),
                ],
                Event::Audio { play_at, pcm } => seq![
                    Replied::Frame(frame(play_at, pcm_bytes(pcm@))),
                ],
                _ => Seq::empty(),
            },
            Session::Ended => Seq::empty(),
        }
    }

    /// Takes the session one event further.
    pub fn step(&mut self, app: &mut AppState, event: Event) -> (r: Vec<Reply>)
        requires
            old(app).wf(),
            *old(self) is Waiting && event is Hello ==> old(app).next_client_id < u32::MAX,
        ensures
            final(app).wf(),
            *final(self) == old(self).next(old(app)@, event),
            final(app)@ == old(self).effect(old(app)@, event),
            replied(r@) == old(self).replies(old(app)@, event),
    {
        let ghost start = *self;
        let ghost before = app@;
        let mut replies: Vec<Reply> = Vec::new();
        assert(replied(replies@) =~= Seq::empty());
        match *self {
            Session::Waiting => match event {
                Event::Hello { name, kind } => {
                    let id = app.register(name, kind.as_str());
                    replies.push(Reply::Text(Message::Plain(welcome_record(id, app.buffer_ms))));
                    replies.push(
                        Reply::Text(
                            config_to_json(
                                &ClientConfig::default(),
                                app.crossover_hz,
                                app.buffer_ms,
                            ),
                        ),
                    );
                    *self = Session::Live { id };
                },
                Event::Gone => {
                    *self = Session::Ended;
                },
                _ => {},
            },
            Session::Live { id } => match event {
                Event::Ping { t0, t1, rtt_half } => {
                    app.time_client(id, rtt_half);
                    replies.push(Reply::Text(Message::Plain(pong_record(t0, t1))));
                },
                Event::Control(ClientMsg::Config(config)) => {
                    replies.push(
                        Reply::Text(config_to_json(&config, app.crossover_hz, app.buffer_ms)),
                    );
                },
                Event::Audio { play_at, pcm } => {
                    replies.push(Reply::Frame(encode_audio_frame(play_at, pcm.as_slice())));
                },
                Event::Close | Event::Gone | Event::ControlClosed | Event::SendFailed
                | Event::Control(ClientMsg::Disconnect) => {
                    app.deregister(id);
                    *self = Session::Ended;
                },
                Event::Hello { .. } | Event::Noise | Event::AudioLagged | Event::AudioClosed => {},
            },
            Session::Ended => {},
        }
        assert(replied(replies@) =~= start.replies(before, event));
        replies
    }
}

impl AppState {
    /// Registers a client under the next number, and returns the number.
    pub fn register(&mut self, name: String, kind: &str) -> (r: u32)
        requires
            old(self).wf(),
            old(self).next_client_id < u32::MAX,
        ensures
            final(self).wf(),
            r == old(self).next_client_id,
            final(self)@ == old(self)@.registered(name@, kind@),
    {
        let ghost map = self.clients.map();
        let id = self.next_client_id;
        self.next_client_id = id + 1;
        let entry = ClientEntry {
            id,
            name,
            kind: kind_from_str(kind),
            latency_ms: Quantity::new(ZERO),
            config: ClientConfig::default(),
        };
        self.clients.insert(entry);
        proof {
            image_of_insert(map, |c: ClientEntry| c@, id, entry);
        }
        id
    }

    /// Takes a client off the register.
    pub fn deregister(&mut self, id: u32)
        requires
            old(self).wf(),
        ensures
            final(self).wf(),
            final(self)@ == old(self)@.deregistered(id),
    {
        let ghost map = self.clients.map();
        self.clients.remove(id);
        proof {
            image_of_remove(map, |c: ClientEntry| c@, id);
        }
    }

    /// Notes how long a client's messages take.
    pub fn time_client(&mut self, id: u32, latency_ms: Quantity)
        requires
            old(self).wf(),
        ensures
            final(self).wf(),
            final(self)@ == old(self)@.timed(id, latency_ms),
    {
        let ghost map = self.clients.map();
        if let Some(client) = self.clients.get_mut(id) {
            client.latency_ms = latency_ms;
            proof {
                image_of_insert(map, |c: ClientEntry| c@, id, *client);
            }
        }
    }
}

/// However a live session ends, its client is off the register, and every other client
/// stays on it.
pub proof fn ended_sessions_leave_no_client(session: Session, app: App, event: Event, other: u32)
    requires
        session is Live,
        session.next(app, event) is Ended,
        other != session->id,
    ensures
        !session.effect(app, event).clients.contains_key(session->id),
        session.effect(app, event).clients.contains_key(other) == app.clients.contains_key(other),
        app.clients.contains_key(other) ==> session.effect(app, event).clients[other]
            == app.clients[other],
{
}

/// Before its hello a client is sent nothing and is not registered.
pub proof fn nothing_before_hello(app: App, event: Event)
    requires
        !(event is Hello),
    ensures
        Session::Waiting.replies(app, event) == Seq::<Replied>::empty(),
        Session::Waiting.effect(app, event) == app,
{
}

/// A session that is over says nothing and changes nothing.
pub proof fn nothing_after_the_end(app: App, event: Event)
    ensures
        Session::Ended.next(app, event) == Session::Ended,
        Session::Ended.replies(app, event) == Seq::<Replied>::empty(),
        Session::Ended.effect(app, event) == app,
{
}

/// Settings that a client is sent after a change of the buffer name the new one.
pub proof fn changed_buffer_reaches_the_client(
    session: Session,
    app: App,
    buffer_ms: u32,
    config: ClientConfig,
)
    requires
        session is Live,
    ensures
        session.replies(
            App { buffer_ms, ..app },
            Event::Control(ClientMsg::Config(config)),
        ) == seq![Replied::Text(Said::Plain(config_said(config, app.crossover_hz, buffer_ms)))],
{
}

/// Every client is sent the same audio: a frame depends neither on the client nor on what the
/// application knows.
pub proof fn audio_is_the_same_for_everybody(
    one: Session,
    other: Session,
    app: App,
    later: App,
    play_at: Quantity,
    pcm: Vec<i16>,
)
    requires
        one is Live,
        other is Live,
    ensures
        one.replies(app, Event::Audio { play_at, pcm }) == other.replies(
            later,
            Event::Audio { play_at, pcm },
        ),
{
}

/// The number that a client gets is in use by no other, and stays so: no event of any
/// session gives out a number twice.
pub proof fn numbers_are_fresh(session: Session, app: App, event: Event)
    requires
        app.numbered(),
        session is Waiting && event is Hello ==> app.next_client_id < u32::MAX,
    ensures
        !app.clients.contains_key(app.next_client_id),
        session.effect(app, event).numbered(),
        session.effect(app, event).next_client_id >= app.next_client_id,
{
}

/// A client that registers and is taken off again leaves the register as it was.
pub proof fn deregistering_undoes_registering(app: App, name: Seq<char>, kind: Seq<char>)
    requires
        app.numbered(),
        app.next_client_id < u32::MAX,
    ensures
        app.registered(name, kind).deregistered(app.next_client_id) == (App {
            next_client_id: (app.next_client_id + 1) as u32,
            ..app
        }),
{
    assert(app.registered(name, kind).deregistered(app.next_client_id).clients =~= app.clients);
}

/// Nothing that the user does gives a client a number that is still to be given out.
pub proof fn commands_keep_numbers(
    app: App,
    id: u32,
    config: ClientConfig,
    relay: Seq<char>,
    source: Seq<char>,
    warnings: Seq<Seq<char>>,
)
    requires
        app.numbered(),
    ensures
        app.mastering(source, warnings).numbered(),
        app.relaying(relay, source, warnings).numbered(),
        app.unhosted().numbered(),
        app.assigned(id, config).numbered(),
{
}

/// A client that says hello is registered under the next number, by the name it gives, unmeasured
/// and with the settings that everybody starts with. Nobody else is touched.
pub proof fn hello_registers_the_client(app: App, name: String, kind: String, other: u32)
    requires
        app.next_client_id < u32::MAX,
    ensures
        ({
            let event = Event::Hello { name, kind };
            let after = Session::Waiting.effect(app, event);
            let id = app.next_client_id;
            &&& Session::Waiting.next(app, event) == (Session::Live { id })
            &&& after.next_client_id == id + 1
            &&& after.clients.contains_key(id)
            &&& after.clients[id].id == id && after.clients[id].name == name@
            &&& after.clients[id].kind is Native <==> kind@ == "native"@
            &&& after.clients[id].latency_ms.bits == 0
            &&& after.clients[id].config == default_config()
            &&& other != id ==> after.clients.contains_key(other) == app.clients.contains_key(other)
            &&& other != id && app.clients.contains_key(other) ==> after.clients[other]
                == app.clients[other]
            &&& after == (App {
                next_client_id: after.next_client_id,
                clients: after.clients,
                ..app
            })
        }),
{
}

/// A client that says hello is welcomed by its number and then given its settings; both name the
/// buffer in force.
pub proof fn hello_is_answered(app: App, name: String, kind: String)
    ensures
        ({
            let replies = Session::Waiting.replies(app, Event::Hello { name, kind });
            &&& replies.len() == 2
            &&& replies[0] == Replied::Text(
                Said::Plain(welcome_members(app.next_client_id, app.buffer_ms)),
            )
            &&& replies[1] == Replied::Text(
                Said::Plain(config_said(default_config(), app.crossover_hz, app.buffer_ms)),
            )
        }),
{
}

/// Every ping of a registered client is answered by one pong that repeats its time and gives the
/// master's, and what it measures is noted of that client alone.
pub proof fn pings_are_answered(
    app: App,
    id: u32,
    t0: Quantity,
    t1: Quantity,
    rtt_half: Quantity,
    other: u32,
)
    ensures
        ({
            let session = Session::Live { id };
            let event = Event::Ping { t0, t1, rtt_half };
            let after = session.effect(app, event);
            &&& session.next(app, event) == session
            &&& session.replies(app, event).len() == 1
            &&& session.replies(app, event)[0] == Replied::Text(Said::Plain(pong_members(t0, t1)))
            &&& after == (App { clients: after.clients, ..app })
            &&& after.clients.contains_key(other) == app.clients.contains_key(other)
            &&& app.clients.contains_key(id) ==> after.clients[id] == (Speaker {
                latency_ms: rtt_half,
                ..app.clients[id]
            })
            &&& other != id && app.clients.contains_key(other) ==> after.clients[other]
                == app.clients[other]
        }),
{
}

/// Audio goes out whole: for every captured chunk a registered client is sent one frame, out of
/// which it reads the time of the chunk and every one of its samples.
pub proof fn audio_is_sent_whole(session: Session, app: App, play_at: Quantity, pcm: Vec<i16>)
    requires
        session is Live,
    ensures
        ({
            let event = Event::Audio { play_at, pcm };
            let replies = session.replies(app, event);
            &&& session.next(app, event) == session
            &&& session.effect(app, event) == app
            &&& replies.len() == 1
            &&& replies[0] matches Replied::Frame(sent)
            &&& is_audio(sent)
            &&& sent.len() == 12 + 2 * pcm@.len()
            &&& frame_time(sent) == play_at
            &&& pcm_samples(frame_payload(sent)) == pcm@
        }),
{
    frame_reads_back(play_at, pcm_bytes(pcm@));
    audio_reads_back(play_at, pcm@);
}

/// New settings go to the client as they are, with the crossover and the buffer in force, and
/// change nothing here.
pub proof fn settings_are_passed_on(session: Session, app: App, config: ClientConfig)
    requires
        session is Live,
    ensures
        ({
            let event = Event::Control(ClientMsg::Config(config));
            let replies = session.replies(app, event);
            &&& session.next(app, event) == session
            &&& session.effect(app, event) == app
            &&& replies.len() == 1
            &&& replies[0] == Replied::Text(
                Said::Plain(config_said(config, app.crossover_hz, app.buffer_ms)),
            )
        }),
{
}

/// A registered session ends when its client closes or is gone, when something cannot be sent, or
/// when the master lets the client go, and then it says nothing more. Nothing else ends it.
pub proof fn sessions_end_with_their_client(session: Session, app: App, event: Event)
    requires
        session is Live,
    ensures
        session.next(app, event) is Ended <==> {
            ||| event is Close || event is Gone || event is ControlClosed || event is SendFailed
            ||| event matches Event::Control(message) && message is Disconnect
        },
        !(session.next(app, event) is Ended) ==> session.next(app, event) == session,
        session.next(app, event) is Ended ==> {
            &&& session.replies(app, event).len() == 0
            &&& session.effect(app, event) == (App {
                clients: app.clients.remove(session->id),
                ..app
            })
        },
{
}

/// What makes no sense and audio that was missed leave a session as it was.
pub proof fn noise_changes_nothing(session: Session, app: App, event: Event)
    requires
        session is Live,
        event is Noise || event is AudioLagged || event is AudioClosed || event is Hello,
    ensures
        session.next(app, event) == session,
        session.effect(app, event) == app,
        session.replies(app, event).len() == 0,
{
}

/// A session waits for the hello as long as the connection stands.
pub proof fn sessions_wait_for_the_hello(app: App, event: Event)
    requires
        !(event is Hello),
    ensures
        Session::Waiting.next(app, event) == if event is Gone {
            Session::Ended
        } else {
            Session::Waiting
        },
{
}

/// What is sent is what the replies hold, one after the other.
pub proof fn replies_are_sent_as_they_are(
    message: Message,
    bytes: Vec<u8>,
    replies: Seq<Reply>,
    i: int,
)
    ensures
        Reply::Text(message)@ == Replied::Text(message@),
        Reply::Frame(bytes)@ == Replied::Frame(bytes@),
        replied(replies).len() == replies.len(),
        0 <= i < replies.len() ==> replied(replies)[i] == replies[i]@,
{
}

} // verus!
