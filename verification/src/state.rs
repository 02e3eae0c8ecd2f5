//! What the application knows: its mode, its speakers and its settings.

use crate::address::join_url;
use crate::quantity::{Quantity, ONE, ZERO};
#[allow(unused_imports)]
use crate::registry::{ascending, directory_of_images, found_is_entry, listing};
use crate::registry::{Entry, Keyed, Registry};
use crate::text::same;
use vstd::prelude::*;
use vstd::string::*;

verus! {

/// The gain of a speaker that nobody has adjusted: the binary32 value nearest to 0.8.
pub const DEFAULT_GAIN: u64 = 0x3fe9_9999_a000_0000;

/// The crossover frequency to start with: 220.0.
pub const DEFAULT_CROSSOVER: u64 = 0x406b_8000_0000_0000;

/// Overall mode of the application.
#[derive(Debug, Clone, Copy, PartialEq, Eq, Structural)]
pub enum Mode {
    Idle,
    Master,
    Client,
    /// Hosting via a remote relay uplink instead of serving children directly.
    RelayHost,
}

/// What kind of speaker a client is.
#[derive(Debug, Clone, Copy, PartialEq, Eq, Structural)]
pub enum ClientKind {
    Native,
    Browser,
}

/// The share of the spectrum that a speaker plays.
#[derive(Debug, Clone, Copy, PartialEq, Eq, Structural)]
pub enum Role {
    Sub,
    Tweeter,
    Full,
}

/// The channel that a speaker plays.
#[derive(Debug, Clone, Copy, PartialEq, Eq, Structural)]
pub enum Pan {
    Left,
    Mid,
    Right,
}

impl Default for Role {
    fn default() -> (r: Role)
        ensures
            r == Role::Full,
    {
        Role::Full
    }
}

impl Default for Pan {
    fn default() -> (r: Pan)
        ensures
            r == Pan::Mid,
    {
        Pan::Mid
    }
}

/// The word for a role on the wire.
pub open spec fn role_word(role: Role) -> Seq<char> {
    match role {
        Role::Sub => "sub"@,
        Role::Tweeter => "tweeter"@,
        Role::Full => "full"@,
    }
}

/// The word for a channel on the wire.
pub open spec fn pan_word(pan: Pan) -> Seq<char> {
    match pan {
        Pan::Left => "left"@,
        Pan::Mid => "mid"@,
        Pan::Right => "right"@,
    }
}

/// The role that a word means; one that means none is taken for the full range.
pub open spec fn role_meant(word: Option<Seq<char>>) -> Role {
    if word == Some("sub"@) {
        Role::Sub
    } else if word == Some("tweeter"@) {
        Role::Tweeter
    } else {
        Role::Full
    }
}

/// The channel that a word means; one that means none is taken for the mix.
pub open spec fn pan_meant(word: Option<Seq<char>>) -> Pan {
    if word == Some("left"@) {
        Pan::Left
    } else if word == Some("right"@) {
        Pan::Right
    } else {
        Pan::Mid
    }
}

/// The kind of client that a word means; one that means none is taken for a browser.
pub open spec fn kind_meant(word: Seq<char>) -> ClientKind {
    if word == "native"@ {
        ClientKind::Native
    } else {
        ClientKind::Browser
    }
}

/// The view of an optional text.
pub open spec fn maybe(word: Option<&str>) -> Option<Seq<char>> {
    match word {
        Some(word) => Some(word@),
        None => None,
    }
}

/// The word for a role.
pub fn role_str(role: Role) -> (r: &'static str)
    ensures
        r@ == role_word(role),
{
    match role {
        Role::Sub => "sub",
        Role::Tweeter => "tweeter",
        Role::Full => "full",
    }
}

/// The word for a channel.
pub fn pan_str(pan: Pan) -> (r: &'static str)
    ensures
        r@ == pan_word(pan),
{
    match pan {
        Pan::Left => "left",
        Pan::Mid => "mid",
        Pan::Right => "right",
    }
}

/// The kind of client that a word means.
pub fn kind_from_str(k: &str) -> (r: ClientKind)
    ensures
        r == kind_meant(k@),
{
    if same(k, "native") {
        ClientKind::Native
    } else {
        ClientKind::Browser
    }
}

/// The role that a word means.
pub fn role_from_str(s: Option<&str>) -> (r: Role)
    ensures
        r == role_meant(maybe(s)),
{
    match s {
        Some(word) => if same(word, "sub") {
            Role::Sub
        } else if same(word, "tweeter") {
            Role::Tweeter
        } else {
            Role::Full
        },
        None => Role::Full,
    }
}

/// The channel that a word means.
pub fn pan_from_str(s: Option<&str>) -> (r: Pan)
    ensures
        r == pan_meant(maybe(s)),
{
    match s {
        Some(word) => if same(word, "left") {
            Pan::Left
        } else if same(word, "right") {
            Pan::Right
        } else {
            Pan::Mid
        },
        None => Pan::Mid,
    }
}

/// A role and a channel are read back from the words they are written as.
pub proof fn words_read_back(role: Role, pan: Pan)
    ensures
        role_meant(Some(role_word(role))) == role,
        pan_meant(Some(pan_word(pan))) == pan,
{
    reveal_strlit("sub");
    reveal_strlit("tweeter");
    reveal_strlit("full");
    reveal_strlit("left");
    reveal_strlit("mid");
    reveal_strlit("right");
    assert("sub"@.len() != "tweeter"@.len());
    assert("left"@[0] == 'l' && "mid"@[0] == 'm' && "right"@[0] == 'r');
    assert("sub"@[0] == 's' && "tweeter"@[0] == 't' && "full"@[0] == 'f');
}

/// The settings of one speaker.
#[derive(Debug, Clone, Copy, PartialEq, Eq, Structural)]
pub struct ClientConfig {
    pub role: Role,
    pub pan: Pan,
    /// A binary32 value.
    pub gain: Quantity,
}

/// The settings of a speaker that nobody has adjusted.
pub open spec fn default_config() -> ClientConfig {
    ClientConfig { role: Role::Full, pan: Pan::Mid, gain: Quantity { bits: DEFAULT_GAIN } }
}

impl Default for ClientConfig {
    fn default() -> (r: ClientConfig)
        ensures
            r == default_config(),
    {
        ClientConfig { role: Role::Full, pan: Pan::Mid, gain: Quantity { bits: DEFAULT_GAIN } }
    }
}

/// Messages that can be pushed to a connected client's websocket task.
#[derive(Debug, Clone, Copy, PartialEq, Eq, Structural)]
pub enum ClientMsg {
    Config(ClientConfig),
    Disconnect,
}

/// What is known of a speaker.
pub struct Speaker {
    pub id: u32,
    pub name: Seq<char>,
    pub kind: ClientKind,
    pub latency_ms: Quantity,
    pub config: ClientConfig,
}

impl Keyed for Speaker {
    open spec fn key(&self) -> u32 {
        self.id
    }
}

/// A connected client (native app or browser tab).
pub struct ClientEntry {
    pub id: u32,
    pub name: String,
    pub kind: ClientKind,
    pub latency_ms: Quantity,
    pub config: ClientConfig,
}

impl View for ClientEntry {
    type V = Speaker;

    open spec fn view(&self) -> Speaker {
        Speaker {
            id: self.id,
            name: self.name@,
            kind: self.kind,
            latency_ms: self.latency_ms,
            config: self.config,
        }
    }
}

impl Keyed for ClientEntry {
    open spec fn key(&self) -> u32 {
        self.id
    }
}

impl Entry for ClientEntry {
    fn id(&self) -> (r: u32) {
        self.id
    }
}

/// A child tracked via a relay uplink: the relay owns the actual connection.
pub struct RelayChild {
    pub id: u32,
    pub name: String,
    pub kind: ClientKind,
    pub latency_ms: Quantity,
    pub config: ClientConfig,
}

impl View for RelayChild {
    type V = Speaker;

    open spec fn view(&self) -> Speaker {
        Speaker {
            id: self.id,
            name: self.name@,
            kind: self.kind,
            latency_ms: self.latency_ms,
            config: self.config,
        }
    }
}

impl Keyed for RelayChild {
    open spec fn key(&self) -> u32 {
        self.id
    }
}

impl Entry for RelayChild {
    fn id(&self) -> (r: u32) {
        self.id
    }
}

/// A speaker, as the user interface shows it.
pub struct ClientView {
    pub id: u32,
    pub name: String,
    pub kind: ClientKind,
    pub latency_ms: Quantity,
    pub config: ClientConfig,
}

impl View for ClientView {
    type V = Speaker;

    open spec fn view(&self) -> Speaker {
        Speaker {
            id: self.id,
            name: self.name@,
            kind: self.kind,
            latency_ms: self.latency_ms,
            config: self.config,
        }
    }
}

/// A connected client, as the user interface shows it.
impl From<&ClientEntry> for ClientView {
    fn from(c: &ClientEntry) -> (r: ClientView) {
        ClientView {
            id: c.id,
            name: c.name.clone(),
            kind: c.kind,
            latency_ms: c.latency_ms,
            config: c.config,
        }
    }
}

impl vstd::std_specs::convert::FromSpecImpl<&ClientEntry> for ClientView {
    open spec fn obeys_from_spec() -> bool {
        true
    }

    open spec fn from_spec(c: &ClientEntry) -> ClientView {
        ClientView {
            id: c.id,
            name: c.name,
            kind: c.kind,
            latency_ms: c.latency_ms,
            config: c.config,
        }
    }
}

/// A child of the relay, as the user interface shows it.
impl From<&RelayChild> for ClientView {
    fn from(c: &RelayChild) -> (r: ClientView) {
        ClientView {
            id: c.id,
            name: c.name.clone(),
            kind: c.kind,
            latency_ms: c.latency_ms,
            config: c.config,
        }
    }
}

impl vstd::std_specs::convert::FromSpecImpl<&RelayChild> for ClientView {
    open spec fn obeys_from_spec() -> bool {
        true
    }

    open spec fn from_spec(c: &RelayChild) -> ClientView {
        ClientView {
            id: c.id,
            name: c.name,
            kind: c.kind,
            latency_ms: c.latency_ms,
            config: c.config,
        }
    }
}

/// Live status of this application's own client pipeline.
pub struct ClientStatus {
    pub connected: bool,
    pub master_addr: String,
    pub role: Role,
    pub pan: Pan,
    pub gain: Quantity,
    pub crossover_hz: Quantity,
    pub latency_ms: Quantity,
}

/// What is known of the own client pipeline.
pub struct Status {
    pub connected: bool,
    pub master_addr: Seq<char>,
    pub role: Role,
    pub pan: Pan,
    pub gain: Quantity,
    pub crossover_hz: Quantity,
    pub latency_ms: Quantity,
}

impl View for ClientStatus {
    type V = Status;

    open spec fn view(&self) -> Status {
        Status {
            connected: self.connected,
            master_addr: self.master_addr@,
            role: self.role,
            pan: self.pan,
            gain: self.gain,
            crossover_hz: self.crossover_hz,
            latency_ms: self.latency_ms,
        }
    }
}

/// The status of a pipeline that has not started.
pub open spec fn initial_status() -> Status {
    Status {
        connected: false,
        master_addr: Seq::empty(),
        role: Role::Full,
        pan: Pan::Mid,
        gain: Quantity { bits: ZERO },
        crossover_hz: Quantity { bits: ZERO },
        latency_ms: Quantity { bits: ZERO },
    }
}

impl Default for ClientStatus {
    fn default() -> (r: ClientStatus)
        ensures
            r@ == initial_status(),
    {
        let r = ClientStatus {
            connected: false,
            master_addr: String::new(),
            role: Role::default(),
            pan: Pan::default(),
            gain: Quantity { bits: ZERO },
            crossover_hz: Quantity { bits: ZERO },
            latency_ms: Quantity { bits: ZERO },
        };
        assert(r.master_addr@ =~= Seq::empty());
        r
    }
}

impl ClientStatus {
    /// A copy for the user interface.
    pub fn copy(&self) -> (r: ClientStatus)
        ensures
            r@ == self@,
    {
        ClientStatus {
            connected: self.connected,
            master_addr: self.master_addr.clone(),
            role: self.role,
            pan: self.pan,
            gain: self.gain,
            crossover_hz: self.crossover_hz,
            latency_ms: self.latency_ms,
        }
    }
}

/// The view of an optional text.
pub open spec fn maybe_text(text: Option<String>) -> Option<Seq<char>> {
    match text {
        Some(text) => Some(text@),
        None => None,
    }
}

/// The views of some texts.
pub open spec fn texts(list: Seq<String>) -> Seq<Seq<char>> {
    list.map_values(|text: String| text@)
}

/// A copy of some texts.
pub fn copy_texts(list: &Vec<String>) -> (r: Vec<String>)
    ensures
        texts(r@) == texts(list@),
{
    let mut out: Vec<String> = Vec::new();
    let mut i: usize = 0;
    while i < list.len()
        invariant
            i <= list@.len(),
            out@.len() == i,
            forall|j: int| 0 <= j < i ==> (#[trigger] out@[j])@ == list@[j]@,
        decreases list@.len() - i,
    {
        out.push(list[i].clone());
        i = i + 1;
    }
    assert(texts(out@) =~= texts(list@));
    out
}

/// A copy of an optional text.
pub fn copy_text(text: &Option<String>) -> (r: Option<String>)
    ensures
        maybe_text(r) == maybe_text(*text),
{
    match text {
        Some(text) => Some(text.clone()),
        None => None,
    }
}

/// An optional text, borrowed.
pub fn borrowed(text: &Option<String>) -> (r: Option<&str>)
    ensures
        maybe(r) == maybe_text(*text),
{
    match text {
        Some(text) => Some(text.as_str()),
        None => None,
    }
}

/// What the application knows.
pub struct App {
    pub mode: Mode,
    pub clients: Map<u32, Speaker>,
    pub next_client_id: u32,
    pub crossover_hz: Quantity,
    pub buffer_ms: u32,
    pub master_volume: Quantity,
    pub master_plays: bool,
    pub capture_source: Seq<char>,
    pub warnings: Seq<Seq<char>>,
    pub client_addr: Option<Seq<char>>,
    pub client_status: Option<Status>,
    pub relay_children: Map<u32, Speaker>,
    pub relay_url: Option<Seq<char>>,
    pub uplink_open: bool,
}

/// Full shared application state.
pub struct AppState {
    pub mode: Mode,
    pub clients: Registry<ClientEntry>,
    pub next_client_id: u32,
    pub crossover_hz: Quantity,
    pub buffer_ms: u32,
    pub master_volume: Quantity,
    pub master_plays: bool,
    pub capture_source: String,
    pub warnings: Vec<String>,
    pub client_addr: Option<String>,
    pub client_status: Option<ClientStatus>,
    /// Children reported by a relay uplink, by the number that the relay gave them. Kept
    /// apart from `clients`; the user interface shows both.
    pub relay_children: Registry<RelayChild>,
    /// The address to share while a relay is used.
    pub relay_url: Option<String>,
    /// The uplink takes orders for the relay.
    pub uplink_open: bool,
}

/// The view of an optional status.
pub open spec fn maybe_status(status: Option<ClientStatus>) -> Option<Status> {
    match status {
        Some(status) => Some(status@),
        None => None,
    }
}

impl View for AppState {
    type V = App;

    open spec fn view(&self) -> App {
        App {
            mode: self.mode,
            clients: self.clients.map().map_values(|c: ClientEntry| c@),
            next_client_id: self.next_client_id,
            crossover_hz: self.crossover_hz,
            buffer_ms: self.buffer_ms,
            master_volume: self.master_volume,
            master_plays: self.master_plays,
            capture_source: self.capture_source@,
            warnings: texts(self.warnings@),
            client_addr: maybe_text(self.client_addr),
            client_status: maybe_status(self.client_status),
            relay_children: self.relay_children.map().map_values(|c: RelayChild| c@),
            relay_url: maybe_text(self.relay_url),
            uplink_open: self.uplink_open,
        }
    }
}

/// The buffer to start with.
pub const DEFAULT_BUFFER_MS: u32 = 250;

/// What the application knows when it starts.
pub open spec fn initial_app() -> App {
    App {
        mode: Mode::Idle,
        clients: Map::empty(),
        next_client_id: 1,
        crossover_hz: Quantity { bits: DEFAULT_CROSSOVER },
        buffer_ms: DEFAULT_BUFFER_MS,
        master_volume: Quantity { bits: ONE },
        master_plays: true,
        capture_source: Seq::empty(),
        warnings: Seq::empty(),
        client_addr: None,
        client_status: None,
        relay_children: Map::empty(),
        relay_url: None,
        uplink_open: false,
    }
}

/// The round-trip time above which a network counts as weak: 60.0.
pub const WEAK_RTT: u64 = 0x404e_0000_0000_0000;

/// The speaker has not been measured, or its round-trip time is not above the limit.
pub open spec fn well_connected(speaker: Speaker) -> bool {
    ||| speaker.latency_ms.at_most(Quantity { bits: ZERO })
    ||| speaker.latency_ms.at_most(Quantity { bits: WEAK_RTT })
}

/// Two lists, each in the order of the numbers, as one such list; of two with the same
/// number, the one from `a` comes first.
pub open spec fn merged(a: Seq<Speaker>, b: Seq<Speaker>) -> Seq<Speaker>
    decreases a.len() + b.len(),
{
    if a.len() == 0 {
        b
    } else if b.len() == 0 {
        a
    } else if a[0].id <= b[0].id {
        seq![a[0]] + merged(a.skip(1), b)
    } else {
        seq![b[0]] + merged(a, b.skip(1))
    }
}

/// What the user interface shows.
pub struct Shown {
    pub mode: Mode,
    pub clients: Seq<Speaker>,
    pub crossover_hz: Quantity,
    pub buffer_ms: u32,
    pub master_volume: Quantity,
    pub master_plays: bool,
    pub capture_source: Seq<char>,
    pub warnings: Seq<Seq<char>>,
    pub addr: Option<Seq<char>>,
    pub wifi_ok: bool,
    pub client: Option<Status>,
}

/// What the user interface shows.
pub struct StateView {
    pub mode: Mode,
    pub clients: Vec<ClientView>,
    pub crossover_hz: Quantity,
    pub buffer_ms: u32,
    pub master_volume: Quantity,
    pub master_plays: bool,
    pub capture_source: String,
    pub warnings: Vec<String>,
    /// Join URL when hosting.
    pub addr: Option<String>,
    /// Network health, derived from client ping round-trip times while hosting.
    pub wifi_ok: bool,
    /// Own client-pipeline status when in client mode.
    pub client: Option<ClientStatus>,
}

impl View for StateView {
    type V = Shown;

    open spec fn view(&self) -> Shown {
        Shown {
            mode: self.mode,
            clients: self.clients@.map_values(|c: ClientView| c@),
            crossover_hz: self.crossover_hz,
            buffer_ms: self.buffer_ms,
            master_volume: self.master_volume,
            master_plays: self.master_plays,
            capture_source: self.capture_source@,
            warnings: texts(self.warnings@),
            addr: maybe_text(self.addr),
            wifi_ok: self.wifi_ok,
            client: maybe_status(self.client),
        }
    }
}

impl App {
    /// All speakers, in the order of their numbers.
    pub open spec fn speakers(self) -> Seq<Speaker> {
        merged(listing(self.clients), listing(self.relay_children))
    }

    /// What the user interface shows; `lan_ip` is the address of this machine on the local
    /// network.
    pub open spec fn shown(self, lan_ip: Option<Seq<char>>) -> Shown {
        Shown {
            mode: self.mode,
            clients: self.speakers(),
            crossover_hz: self.crossover_hz,
            buffer_ms: self.buffer_ms,
            master_volume: self.master_volume,
            master_plays: self.master_plays,
            capture_source: self.capture_source,
            warnings: self.warnings,
            addr: match self.mode {
                Mode::Master => match lan_ip {
                    Some(ip) => Some("http://"@ + ip + ":8927"@),
                    None => None,
                },
                Mode::RelayHost => self.relay_url,
                _ => None,
            },
            wifi_ok: forall|i: int|
                0 <= i < self.speakers().len() ==> well_connected(#[trigger] self.speakers()[i]),
            client: self.client_status,
        }
    }
}

/// Merging keeps the order of the numbers.
pub proof fn merged_is_ordered(a: Seq<Speaker>, b: Seq<Speaker>, i: int, j: int)
    requires
        ascending(a),
        ascending(b),
        0 <= i <= j < merged(a, b).len(),
    ensures
        merged(a, b)[i].id <= merged(a, b)[j].id,
    decreases a.len() + b.len(),
{
    let m = merged(a, b);
    if a.len() == 0 {
        if i < j {
            assert(b[i].key() < b[j].key());
        }
    } else if b.len() == 0 {
        if i < j {
            assert(a[i].key() < a[j].key());
        }
    } else {
        let (c, d) = if a[0].id <= b[0].id {
            (a.skip(1), b)
        } else {
            (a, b.skip(1))
        };
        assert(ascending(c)) by {
            assert forall|x: int, y: int| 0 <= x < y < c.len() implies (#[trigger] c[x]).key() < (
            #[trigger] c[y]).key() by {
                if a[0].id <= b[0].id {
                    assert(c[x] == a[x + 1] && c[y] == a[y + 1]);
                }
            }
        }
        assert(ascending(d)) by {
            assert forall|x: int, y: int| 0 <= x < y < d.len() implies (#[trigger] d[x]).key() < (
            #[trigger] d[y]).key() by {
                if a[0].id > b[0].id {
                    assert(d[x] == b[x + 1] && d[y] == b[y + 1]);
                }
            }
        }
        let rest = merged(c, d);
        assert(forall|k: int| 1 <= k < m.len() ==> m[k] == rest[k - 1]);
        if i > 0 {
            merged_is_ordered(c, d, i - 1, j - 1);
        } else if j > 0 {
            merged_is_ordered(c, d, 0, j - 1);
            first_of_merged(c, d);
            if c.len() > 0 && a[0].id <= b[0].id {
                assert(a[0].key() < a[1].key());
            }
            if d.len() > 0 && a[0].id > b[0].id {
                assert(b[0].key() < b[1].key());
            }
        }
    }
}

/// The first of a merged list is the first of one of the two.
proof fn first_of_merged(a: Seq<Speaker>, b: Seq<Speaker>)
    requires
        a.len() + b.len() > 0,
    ensures
        merged(a, b).len() > 0,
        merged(a, b)[0] == a[0] && a.len() > 0 || merged(a, b)[0] == b[0] && b.len() > 0,
{
}

/// Merging loses nobody and invents nobody.
pub proof fn merged_shows_everybody(a: Seq<Speaker>, b: Seq<Speaker>)
    ensures
        merged(a, b).to_multiset() == a.to_multiset().add(b.to_multiset()),
        merged(a, b).len() == a.len() + b.len(),
    decreases a.len() + b.len(),
{
    broadcast use vstd::multiset::group_multiset_axioms;

    a.to_multiset_ensures();
    b.to_multiset_ensures();
    if a.len() == 0 {
        assert(a =~= Seq::empty());
        assert(a.to_multiset() =~= vstd::multiset::Multiset::empty());
        assert(a.to_multiset().add(b.to_multiset()) =~= b.to_multiset());
    } else if b.len() == 0 {
        assert(b =~= Seq::empty());
        assert(b.to_multiset() =~= vstd::multiset::Multiset::empty());
        assert(a.to_multiset().add(b.to_multiset()) =~= a.to_multiset());
    } else if a[0].id <= b[0].id {
        let rest = merged(a.skip(1), b);
        merged_shows_everybody(a.skip(1), b);
        assert(seq![a[0]] + rest =~= rest.insert(0, a[0]));
        vstd::seq_lib::to_multiset_insert(rest, 0, a[0]);
        assert(a =~= a.skip(1).insert(0, a[0]));
        vstd::seq_lib::to_multiset_insert(a.skip(1), 0, a[0]);
        assert(rest.to_multiset().insert(a[0]) =~= a.to_multiset().add(b.to_multiset()));
    } else {
        let rest = merged(a, b.skip(1));
        merged_shows_everybody(a, b.skip(1));
        assert(seq![b[0]] + rest =~= rest.insert(0, b[0]));
        vstd::seq_lib::to_multiset_insert(rest, 0, b[0]);
        assert(b =~= b.skip(1).insert(0, b[0]));
        vstd::seq_lib::to_multiset_insert(b.skip(1), 0, b[0]);
        assert(rest.to_multiset().insert(b[0]) =~= a.to_multiset().add(b.to_multiset()));
    }
}

impl AppState {
    /// Both registers are in order.
    pub open spec fn wf(&self) -> bool {
        self.clients.wf() && self.relay_children.wf()
    }

    /// What is known of the clients and of the relay's children, in their orders.
    pub proof fn listings(&self)
        requires
            self.wf(),
        ensures
            listing(self@.clients) == self.clients@.map_values(|c: ClientEntry| c@),
            listing(self@.relay_children) == self.relay_children@.map_values(|c: RelayChild| c@),
    {
        directory_of_images(self.clients@, |c: ClientEntry| c@);
        directory_of_images(self.relay_children@, |c: RelayChild| c@);
    }

    /// All speakers, in the order of their numbers.
    fn speakers(&self) -> (r: Vec<ClientView>)
        requires
            self.wf(),
        ensures
            r@.map_values(|c: ClientView| c@) == self@.speakers(),
    {
        let ghost a = listing(self@.clients);
        let ghost b = listing(self@.relay_children);
        proof {
            self.listings();
            assert(a.skip(0) =~= a);
            assert(b.skip(0) =~= b);
        }
        let mut out: Vec<ClientView> = Vec::new();
        let mut i: usize = 0;
        let mut j: usize = 0;
        assert(out@.map_values(|c: ClientView| c@) + merged(a, b) =~= merged(a, b));
        while i < self.clients.len() || j < self.relay_children.len()
            invariant
                i <= self.clients@.len(),
                j <= self.relay_children@.len(),
                a == self.clients@.map_values(|c: ClientEntry| c@),
                b == self.relay_children@.map_values(|c: RelayChild| c@),
                out@.map_values(|c: ClientView| c@) + merged(a.skip(i as int), b.skip(j as int))
                    == merged(a, b),
            decreases self.clients@.len() - i + self.relay_children@.len() - j,
        {
            let ghost before = out@.map_values(|c: ClientView| c@);
            let ghost x = a.skip(i as int);
            let ghost y = b.skip(j as int);
            let from_clients = if i >= self.clients.len() {
                false
            } else if j >= self.relay_children.len() {
                true
            } else {
                self.clients.at(i).id <= self.relay_children.at(j).id
            };
            if from_clients {
                out.push(ClientView::from(self.clients.at(i)));
                proof {
                    assert(x[0] == a[i as int]);
                    assert(x.skip(1) =~= a.skip(i + 1));
                    if y.len() == 0 {
                        assert(merged(x, y) =~= seq![x[0]] + merged(x.skip(1), y));
                    }
                    assert(out@.map_values(|c: ClientView| c@) =~= before + seq![x[0]]);
                    assert(before + (seq![x[0]] + merged(x.skip(1), y)) =~= before + seq![x[0]]
                        + merged(x.skip(1), y));
                }
                i = i + 1;
            } else {
                out.push(ClientView::from(self.relay_children.at(j)));
                proof {
                    assert(y[0] == b[j as int]);
                    assert(y.skip(1) =~= b.skip(j + 1));
                    if x.len() == 0 {
                        assert(merged(x, y) =~= seq![y[0]] + merged(x, y.skip(1)));
                    }
                    assert(out@.map_values(|c: ClientView| c@) =~= before + seq![y[0]]);
                    assert(before + (seq![y[0]] + merged(x, y.skip(1))) =~= before + seq![y[0]]
                        + merged(x, y.skip(1)));
                }
                j = j + 1;
            }
        }
        assert(merged(a.skip(i as int), b.skip(j as int)) =~= Seq::empty());
        assert(out@.map_values(|c: ClientView| c@) =~= merged(a, b));
        out
    }

    /// What the user interface shows; `lan_ip` is the address of this machine on the local
    /// network, where one could be found.
    pub fn to_view(&self, lan_ip: Option<&str>) -> (r: StateView)
        requires
            self.wf(),
        ensures
            r@ == self@.shown(maybe(lan_ip)),
    {
        let clients = self.speakers();
        let ghost shown = clients@.map_values(|c: ClientView| c@);
        let addr = match self.mode {
            Mode::Master => match lan_ip {
                Some(ip) => Some(join_url(ip)),
                None => None,
            },
            Mode::RelayHost => copy_text(&self.relay_url),
            _ => None,
        };
        let mut wifi_ok = true;
        let mut i: usize = 0;
        while i < clients.len()
            invariant
                i <= clients@.len(),
                shown == clients@.map_values(|c: ClientView| c@),
                wifi_ok == (forall|k: int| 0 <= k < i ==> well_connected(#[trigger] shown[k])),
            decreases clients@.len() - i,
        {
            let latency = clients[i].latency_ms;
            assert(shown[i as int] == clients@[i as int]@);
            if !(latency.le(&Quantity::new(ZERO)) || latency.le(&Quantity::new(WEAK_RTT))) {
                wifi_ok = false;
            }
            i = i + 1;
        }
        StateView {
            mode: self.mode,
            clients,
            crossover_hz: self.crossover_hz,
            buffer_ms: self.buffer_ms,
            master_volume: self.master_volume,
            master_plays: self.master_plays,
            capture_source: self.capture_source.clone(),
            warnings: copy_texts(&self.warnings),
            addr,
            wifi_ok,
            client: match &self.client_status {
                Some(status) => Some(status.copy()),
                None => None,
            },
        }
    }
}

impl Default for AppState {
    fn default() -> (r: AppState)
        ensures
            r.wf(),
            r@ == initial_app(),
    {
        let r = AppState {
            mode: Mode::Idle,
            clients: Registry::new(),
            next_client_id: 1,
            crossover_hz: Quantity { bits: DEFAULT_CROSSOVER },
            buffer_ms: DEFAULT_BUFFER_MS,
            master_volume: Quantity { bits: ONE },
            master_plays: true,
            capture_source: String::new(),
            warnings: Vec::new(),
            client_addr: None,
            client_status: None,
            relay_children: Registry::new(),
            relay_url: None,
            uplink_open: false,
        };
        proof {
            assert(r@.clients =~= Map::empty());
            assert(r@.relay_children =~= Map::empty());
            assert(r@.warnings =~= Seq::empty());
            assert(r@.capture_source =~= Seq::empty());
        }
        r
    }
}

/// The words of the protocol, and what every other word is taken for.
pub proof fn words_of_the_protocol(word: Seq<char>)
    ensures
        role_word(Role::Sub) == "sub"@ && role_word(Role::Tweeter) == "tweeter"@ && role_word(
            Role::Full,
        ) == "full"@,
        pan_word(Pan::Left) == "left"@ && pan_word(Pan::Mid) == "mid"@ && pan_word(Pan::Right)
            == "right"@,
        role_meant(Some(word)) is Sub <==> word == "sub"@,
        role_meant(Some(word)) is Tweeter <==> word == "tweeter"@,
        role_meant(None) is Full,
        pan_meant(Some(word)) is Left <==> word == "left"@,
        pan_meant(Some(word)) is Right <==> word == "right"@,
        pan_meant(None) is Mid,
        kind_meant(word) is Native <==> word == "native"@,
{
    words_read_back(Role::Tweeter, Pan::Right);
    words_read_back(Role::Sub, Pan::Left);
}

/// A speaker that nobody has adjusted plays the full range of the mix, at a gain of 0.8 in
/// binary32.
pub proof fn speakers_start_alike()
    ensures
        default_config().role is Full,
        default_config().pan is Mid,
        default_config().gain.bits == 0x3fe9_9999_a000_0000,
{
}

/// An application that has just started does nothing, knows nobody, and has the settings of the
/// protocol: a buffer of 250 ms, a crossover of 220 Hz, and full volume.
pub proof fn applications_start_idle()
    ensures
        initial_app().mode is Idle,
        initial_app().clients.dom() == Set::<u32>::empty(),
        initial_app().relay_children.dom() == Set::<u32>::empty(),
        initial_app().next_client_id == 1,
        initial_app().crossover_hz.bits == 0x406b_8000_0000_0000,
        initial_app().buffer_ms == 250,
        initial_app().master_volume.bits == 0x3ff0_0000_0000_0000,
        initial_app().master_plays,
        initial_app().capture_source.len() == 0 && initial_app().warnings.len() == 0,
        initial_app().client_addr is None && initial_app().client_status is None,
        initial_app().relay_url is None && !initial_app().uplink_open,
{
}

/// The network is shown as good exactly if no speaker has a round trip above 60 ms.
pub proof fn long_round_trips_are_weak(app: App, lan_ip: Option<Seq<char>>)
    ensures
        app.shown(lan_ip).wifi_ok <==> forall|i: int|
            0 <= i < app.shown(lan_ip).clients.len() ==> (
            #[trigger] app.shown(lan_ip).clients[i]).latency_ms.at_most(
                Quantity { bits: 0x404e_0000_0000_0000 },
            ),
{
    let list = app.shown(lan_ip).clients;
    assert(list == app.speakers());
    if app.shown(lan_ip).wifi_ok {
        assert forall|i: int| 0 <= i < list.len() implies (#[trigger] list[i]).latency_ms.at_most(
            Quantity { bits: 0x404e_0000_0000_0000 },
        ) by {
            assert(well_connected(app.speakers()[i]));
        }
    }
    if forall|i: int|
        0 <= i < list.len() ==> (#[trigger] list[i]).latency_ms.at_most(
            Quantity { bits: 0x404e_0000_0000_0000 },
        ) {
        assert forall|i: int| 0 <= i < app.speakers().len() implies well_connected(
            #[trigger] app.speakers()[i],
        ) by {
            assert(list[i].latency_ms.at_most(Quantity { bits: 0x404e_0000_0000_0000 }));
        }
    }
}

/// The settings are shown as they are. A master shows its own address on the local network, a
/// host behind a relay shows the relay's, and nobody else shows one.
pub proof fn settings_are_shown(app: App, ip: Seq<char>, lan_ip: Option<Seq<char>>)
    ensures
        app.shown(lan_ip).mode == app.mode,
        app.shown(lan_ip).crossover_hz == app.crossover_hz,
        app.shown(lan_ip).buffer_ms == app.buffer_ms,
        app.shown(lan_ip).master_volume == app.master_volume,
        app.shown(lan_ip).master_plays == app.master_plays,
        app.shown(lan_ip).capture_source == app.capture_source,
        app.shown(lan_ip).warnings == app.warnings,
        app.shown(lan_ip).client == app.client_status,
        app.mode is Master ==> app.shown(Some(ip)).addr == Some("http://"@ + ip + ":8927"@),
        app.mode is Master ==> app.shown(None).addr is None,
        app.mode is RelayHost ==> app.shown(lan_ip).addr == app.relay_url,
        app.mode is Idle || app.mode is Client ==> app.shown(lan_ip).addr is None,
{
}

/// Everybody is shown, and nobody else: the clients of this master and the children of its relay,
/// in the order of their numbers.
pub proof fn everybody_is_shown(
    state: AppState,
    lan_ip: Option<Seq<char>>,
    id: u32,
    i: int,
    j: int,
)
    requires
        state.wf(),
    ensures
        ({
            let list = state@.shown(lan_ip).clients;
            &&& list.len() == state.clients@.len() + state.relay_children@.len()
            &&& state@.clients.contains_key(id) ==> list.contains(state@.clients[id])
            &&& state@.relay_children.contains_key(id) ==> list.contains(
                state@.relay_children[id],
            )
            &&& 0 <= i <= j < list.len() ==> list[i].id <= list[j].id
        }),
{
    state.listings();
    let a = listing(state@.clients);
    let b = listing(state@.relay_children);
    let list = merged(a, b);
    directory_of_images(state.clients@, |c: ClientEntry| c@);
    directory_of_images(state.relay_children@, |c: RelayChild| c@);
    merged_shows_everybody(a, b);
    list.to_multiset_ensures();
    a.to_multiset_ensures();
    b.to_multiset_ensures();
    if state@.clients.contains_key(id) {
        let k = found_is_entry(a, id);
        assert(a.contains(a[k]));
        assert(a.to_multiset().count(a[k]) > 0);
        assert(list.to_multiset().count(a[k]) > 0);
    }
    if state@.relay_children.contains_key(id) {
        let k = found_is_entry(b, id);
        assert(b.contains(b[k]));
        assert(b.to_multiset().count(b[k]) > 0);
        assert(list.to_multiset().count(b[k]) > 0);
    }
    if 0 <= i <= j < list.len() {
        merged_is_ordered(a, b, i, j);
    }
}

/// What is known of a speaker is what its entry holds, whichever register it stands in.
pub proof fn entries_show_the_speaker(client: ClientEntry, child: RelayChild, view: ClientView)
    ensures
        client@.id == client.id && client@.name == client.name@ && client@.kind == client.kind,
        client@.latency_ms == client.latency_ms && client@.config == client.config,
        child@.id == child.id && child@.name == child.name@ && child@.kind == child.kind,
        child@.latency_ms == child.latency_ms && child@.config == child.config,
        view@.id == view.id && view@.name == view.name@ && view@.kind == view.kind,
        view@.latency_ms == view.latency_ms && view@.config == view.config,
{
}

/// What is known of the own pipeline is what its status holds.
pub proof fn statuses_show_the_pipeline(status: ClientStatus)
    ensures
        status@.connected == status.connected && status@.master_addr == status.master_addr@,
        status@.role == status.role && status@.pan == status.pan,
        status@.gain == status.gain && status@.crossover_hz == status.crossover_hz,
        status@.latency_ms == status.latency_ms,
        maybe_status(Some(status)) == Some(status@),
        maybe_status(None) is None,
{
}

/// Optional and listed texts are looked at one by one.
pub proof fn texts_are_looked_at(text: String, word: &str, list: Seq<String>, i: int)
    ensures
        maybe_text(Some(text)) == Some(text@),
        maybe_text(None) is None,
        maybe(Some(word)) == Some(word@),
        maybe(None) is None,
        texts(list).len() == list.len(),
        0 <= i < list.len() ==> texts(list)[i] == list[i]@,
{
}

/// What the application knows is what its state holds.
pub proof fn states_show_the_application(state: AppState, id: u32)
    ensures
        state@.mode == state.mode && state@.next_client_id == state.next_client_id,
        state@.crossover_hz == state.crossover_hz && state@.buffer_ms == state.buffer_ms,
        state@.master_volume == state.master_volume && state@.master_plays == state.master_plays,
        state@.capture_source == state.capture_source@ && state@.warnings == texts(
            state.warnings@,
        ),
        state@.client_addr == maybe_text(state.client_addr) && state@.relay_url == maybe_text(
            state.relay_url,
        ),
        state@.client_status == maybe_status(state.client_status),
        state@.uplink_open == state.uplink_open,
        state@.clients.contains_key(id) == state.clients.map().contains_key(id),
        state.clients.map().contains_key(id) ==> state@.clients[id] == state.clients.map()[id]@,
        state@.relay_children.contains_key(id) == state.relay_children.map().contains_key(id),
        state.relay_children.map().contains_key(id) ==> state@.relay_children[id]
            == state.relay_children.map()[id]@,
{
}

/// What the user interface shows is what the view holds.
pub proof fn views_show_what_they_hold(view: StateView, i: int)
    ensures
        view@.mode == view.mode && view@.buffer_ms == view.buffer_ms,
        view@.crossover_hz == view.crossover_hz && view@.master_volume == view.master_volume,
        view@.master_plays == view.master_plays && view@.wifi_ok == view.wifi_ok,
        view@.capture_source == view.capture_source@ && view@.warnings == texts(view.warnings@),
        view@.addr == maybe_text(view.addr) && view@.client == maybe_status(view.client),
        view@.clients.len() == view.clients@.len(),
        0 <= i < view.clients@.len() ==> view@.clients[i] == view.clients@[i]@,
{
}

/// Of two lists the smaller number comes first, and of equal ones that of the first list.
pub proof fn smaller_numbers_come_first(a: Seq<Speaker>, b: Seq<Speaker>)
    ensures
        a.len() == 0 ==> merged(a, b) == b,
        b.len() == 0 ==> merged(a, b) == a,
        a.len() > 0 && b.len() > 0 && a[0].id <= b[0].id ==> merged(a, b)[0] == a[0] && merged(
            a,
            b,
        ).skip(1) == merged(a.skip(1), b),
        a.len() > 0 && b.len() > 0 && a[0].id > b[0].id ==> merged(a, b)[0] == b[0] && merged(
            a,
            b,
        ).skip(1) == merged(a, b.skip(1)),
{
    if a.len() > 0 && b.len() > 0 {
        if a[0].id <= b[0].id {
            assert(merged(a, b).skip(1) =~= merged(a.skip(1), b));
        } else {
            assert(merged(a, b).skip(1) =~= merged(a, b.skip(1)));
        }
    }
}

} // verus!
