//! The two ends of the protocol understand each other.
//!
//! What one part of the system writes is read by another. Here the parts meet: audio arrives
//! as it was captured, directly or through a relay, and a message says at one end what it was
//! made to say at the other.

use crate::client::{client_move, heard_in, ClientMove, Heard};
use crate::frame::{audio_reads_back, frame, frame_reads_back, pcm_bytes, pcm_samples};
use crate::history::Stamped;
use crate::json::{
    count_of, faithful, flag_of, number_of, text_members, text_of, Member, Parsed,
};
use crate::message::{
    child_joined_members, child_left_members, hello_members, ping_members, pong_members,
    set_buffer_members, set_config_members, set_crossover_members, source_hello_members,
    welcome_members, Said,
};
use crate::quantity::Quantity;
use crate::relay::{
    order_meant, report_in, ChildState, Ordered, Posted, RelayState, Report, SourceMove,
};
use crate::relay_uplink::{uplink_move, UplinkEvent, UplinkMove};
use crate::server::{config_said, Event, Replied, Session};
use crate::socket::Incoming;
use crate::state::{
    pan_meant, pan_word, role_meant, role_word, words_read_back, App, ClientConfig, ClientMsg,
};
use vstd::prelude::*;

verus! {

/// A speaker that a master serves directly receives every chunk with the samples and the time
/// that the master gave it.
pub proof fn direct_audio_arrives(play_at: Quantity, pcm: Seq<i16>, bin: Vec<u8>)
    requires
        bin@ == frame(play_at, pcm_bytes(pcm)),
    ensures
        client_move(Incoming::Binary(bin)) == (ClientMove::Audio { play_at, pcm }),
{
    frame_reads_back(play_at, pcm_bytes(pcm));
    audio_reads_back(play_at, pcm);
}

/// A speaker behind a relay receives every chunk with the samples that the master sent and the
/// time that the relay gave it.
pub proof fn relayed_audio_arrives(
    state: RelayState,
    gen: u64,
    sent_at: Quantity,
    play_at: Quantity,
    pcm: Seq<i16>,
    upload: Vec<u8>,
    download: Vec<u8>,
)
    requires
        state.active_source == Some(gen),
        pcm.len() > 0,
        upload@ == frame(sent_at, pcm_bytes(pcm)),
        state.source_move(gen, Incoming::Binary(upload)) matches SourceMove::Audio { payload, .. }
            ==> download@ == frame(play_at, payload),
    ensures
        state.source_move(gen, Incoming::Binary(upload)) == (SourceMove::Audio {
            master_ts: sent_at,
            payload: pcm_bytes(pcm),
        }),
        client_move(Incoming::Binary(download)) == (ClientMove::Audio { play_at, pcm }),
{
    frame_reads_back(sent_at, pcm_bytes(pcm));
    direct_audio_arrives(play_at, pcm, download);
}

/// A speaker that joins a relay receives every chunk of the relay's history with its samples
/// and its time.
pub proof fn backfilled_audio_arrives(
    state: RelayState,
    name: Seq<char>,
    kind: Seq<char>,
    chunk: Stamped,
    pcm: Seq<i16>,
    bin: Vec<u8>,
)
    requires
        state.history.contains(chunk),
        chunk.payload == pcm_bytes(pcm),
        bin@ == chunk.frame(),
    ensures
        state.join_posts(name, kind).contains(Posted::Audio(state.next_id, bin@)),
        client_move(Incoming::Binary(bin)) == (ClientMove::Audio { play_at: chunk.play_at, pcm }),
{
    direct_audio_arrives(chunk.play_at, pcm, bin);
    let posts = state.join_posts(name, kind);
    let tail = state.backfill(state.next_id);
    let j = choose|j: int| 0 <= j < state.history.len() && state.history[j] == chunk;
    assert(tail[j] == Posted::Audio(state.next_id, chunk.frame()));
    assert(posts[posts.len() - tail.len() + j] == tail[j]);
}

/// The names of the fields differ.
proof fn field_names()
    ensures
        "type"@ != "role"@,
        "type"@ != "pan"@,
        "type"@ != "gain"@,
        "type"@ != "crossover_hz"@,
        "type"@ != "buffer_ms"@,
        "type"@ != "suspect"@,
        "type"@ != "id"@,
        "type"@ != "hz"@,
        "type"@ != "t0"@,
        "type"@ != "t1"@,
        "t0"@ != "t1"@,
        "role"@ != "pan"@,
        "role"@ != "gain"@,
        "role"@ != "crossover_hz"@,
        "role"@ != "buffer_ms"@,
        "role"@ != "suspect"@,
        "role"@ != "id"@,
        "pan"@ != "gain"@,
        "pan"@ != "crossover_hz"@,
        "pan"@ != "buffer_ms"@,
        "pan"@ != "suspect"@,
        "pan"@ != "id"@,
        "gain"@ != "crossover_hz"@,
        "gain"@ != "buffer_ms"@,
        "gain"@ != "suspect"@,
        "gain"@ != "id"@,
        "crossover_hz"@ != "buffer_ms"@,
        "crossover_hz"@ != "suspect"@,
        "buffer_ms"@ != "suspect"@,
        "rtt"@ != "type"@,
        "rtt"@ != "t0"@,
        "jitter"@ != "type"@,
        "jitter"@ != "t0"@,
{
    reveal_strlit("type");
    reveal_strlit("role");
    reveal_strlit("pan");
    reveal_strlit("gain");
    reveal_strlit("crossover_hz");
    reveal_strlit("buffer_ms");
    reveal_strlit("suspect");
    reveal_strlit("id");
    reveal_strlit("hz");
    reveal_strlit("t0");
    reveal_strlit("t1");
    reveal_strlit("rtt");
    reveal_strlit("jitter");
    assert("type"@[0] == 't' && "role"@[0] == 'r' && "pan"@[0] == 'p' && "gain"@[0] == 'g');
    assert("crossover_hz"@[0] == 'c' && "buffer_ms"@[0] == 'b' && "suspect"@[0] == 's');
    assert("id"@[0] == 'i' && "hz"@[0] == 'h' && "jitter"@[0] == 'j' && "rtt"@[0] == 'r');
    assert("t0"@[1] == '0' && "t1"@[1] == '1');
    assert("t0"@.len() == 2 && "type"@.len() == 4 && "rtt"@.len() == 3);
}

/// The kinds of message differ.
proof fn message_kinds()
    ensures
        "pong"@ != "config"@,
        "source_hello"@ != "set_config"@,
        "source_hello"@ != "set_crossover"@,
        "set_config"@ != "set_crossover"@,
{
    reveal_strlit("pong");
    reveal_strlit("config");
    reveal_strlit("source_hello");
    reveal_strlit("set_config");
    reveal_strlit("set_crossover");
    assert("pong"@.len() == 4 && "config"@.len() == 6);
    assert("source_hello"@.len() == 12 && "set_config"@.len() == 10 && "set_crossover"@.len()
        == 13);
}

/// A speaker understands the answer to its ping.
pub proof fn pong_is_understood(t0: Quantity, t1: Quantity, read: Map<Seq<char>, Parsed>)
    requires
        faithful(pong_members(t0, t1), read),
    ensures
        heard_in(read) == (Heard::Pong { t0, t1 }),
{
    field_names();
    message_kinds();
    let written = pong_members(t0, t1);
    assert(written.contains_key("type"@) && written["type"@] == Member::Text("pong"@));
    assert(written.contains_key("t0"@) && written["t0"@] == Member::Number(t0));
    assert(written.contains_key("t1"@) && written["t1"@] == Member::Number(t1));
}

/// A relay understands a ping; a native speaker reports no measurements along with it.
pub proof fn ping_is_understood(t0: Quantity, read: Map<Seq<char>, Parsed>)
    requires
        faithful(ping_members(t0), read),
    ensures
        report_in(read) == (Report::Ping { t0, rtt: None, jitter: None }),
{
    field_names();
    let written = ping_members(t0);
    assert(written.contains_key("type"@) && written["type"@] == Member::Text("ping"@));
    assert(written.contains_key("t0"@) && written["t0"@] == Member::Number(t0));
    assert(!read.dom().contains("rtt"@));
    assert(!read.dom().contains("jitter"@));
}

/// A speaker that a master serves directly understands its settings, and stays sounding.
pub proof fn config_is_understood(
    config: ClientConfig,
    crossover_hz: Quantity,
    buffer_ms: u32,
    read: Map<Seq<char>, Parsed>,
)
    requires
        faithful(config_said(config, crossover_hz, buffer_ms), read),
    ensures
        heard_in(read) == (Heard::Config { config, crossover_hz, suspect: false }),
{
    field_names();
    message_kinds();
    words_read_back(config.role, config.pan);
    let written = config_said(config, crossover_hz, buffer_ms);
    assert(written.contains_key("type"@) && written["type"@] == Member::Text("config"@));
    assert(written.contains_key("role"@) && written.contains_key("pan"@));
    assert(written.contains_key("gain"@) && written["gain"@] == Member::Number(config.gain));
    assert(written.contains_key("crossover_hz"@) && written["crossover_hz"@] == Member::Number(
        crossover_hz,
    ));
    assert(!read.dom().contains("suspect"@));
}

/// A speaker behind a relay understands its settings, and learns whether the group holds it for
/// a sync outlier.
pub proof fn relayed_config_is_understood(
    child: ChildState,
    crossover_hz: Quantity,
    buffer_ms: u32,
    read: Map<Seq<char>, Parsed>,
)
    requires
        faithful(child.config(crossover_hz, buffer_ms), read),
    ensures
        heard_in(read) == (Heard::Config {
            config: ClientConfig {
                role: role_meant(Some(child.role)),
                pan: pan_meant(Some(child.pan)),
                gain: child.gain,
            },
            crossover_hz,
            suspect: child.suspect,
        }),
{
    field_names();
    message_kinds();
    let written = child.config(crossover_hz, buffer_ms);
    assert(written.contains_key("type"@) && written["type"@] == Member::Text("config"@));
    assert(written.contains_key("role"@) && written["role"@] == Member::Text(child.role));
    assert(written.contains_key("pan"@) && written["pan"@] == Member::Text(child.pan));
    assert(written.contains_key("gain"@) && written["gain"@] == Member::Number(child.gain));
    assert(written.contains_key("crossover_hz"@) && written["crossover_hz"@] == Member::Number(
        crossover_hz,
    ));
    assert(written.contains_key("suspect"@) && written["suspect"@] == Member::Flag(child.suspect));
}

/// A relay understands the hello of its master.
pub proof fn source_hello_is_understood(
    buffer_ms: u32,
    crossover_hz: Quantity,
    read: Map<Seq<char>, Parsed>,
)
    requires
        faithful(source_hello_members(buffer_ms, crossover_hz), read),
    ensures
        order_meant(read) == (Ordered::Hello {
            buffer_ms: Some(buffer_ms as u64),
            crossover_hz: Some(crossover_hz),
        }),
{
    field_names();
    message_kinds();
    let written = source_hello_members(buffer_ms, crossover_hz);
    assert(written.contains_key("type"@) && written["type"@] == Member::Text("source_hello"@));
    assert(written.contains_key("buffer_ms"@) && written["buffer_ms"@] == Member::Count(
        buffer_ms as u64,
    ));
    assert(written.contains_key("crossover_hz"@) && written["crossover_hz"@] == Member::Number(
        crossover_hz,
    ));
}

/// A relay that has heard the hello of its master works with the master's settings.
pub proof fn relay_adopts_the_settings(
    state: RelayState,
    buffer_ms: u32,
    crossover_hz: Quantity,
    read: Map<Seq<char>, Parsed>,
)
    requires
        faithful(source_hello_members(buffer_ms, crossover_hz), read),
    ensures
        state.ordered(order_meant(read)) == (RelayState { buffer_ms, crossover_hz, ..state }),
{
    source_hello_is_understood(buffer_ms, crossover_hz, read);
}

/// A relay understands the settings that its master assigns to a child.
pub proof fn assignment_is_understood(
    id: u32,
    role: Seq<char>,
    pan: Seq<char>,
    gain: Quantity,
    read: Map<Seq<char>, Parsed>,
)
    requires
        faithful(set_config_members(id, role, pan, gain), read),
    ensures
        order_meant(read) == (Ordered::SetConfig {
            id,
            role: Some(role),
            pan: Some(pan),
            gain: Some(gain),
        }),
{
    field_names();
    message_kinds();
    let written = set_config_members(id, role, pan, gain);
    assert(written.contains_key("type"@) && written["type"@] == Member::Text("set_config"@));
    assert(written.contains_key("id"@) && written["id"@] == Member::Count(id as u64));
    assert(written.contains_key("role"@) && written["role"@] == Member::Text(role));
    assert(written.contains_key("pan"@) && written["pan"@] == Member::Text(pan));
    assert(written.contains_key("gain"@) && written["gain"@] == Member::Number(gain));
}

/// What a master assigns to a speaker behind its relay is what the speaker applies: the relay
/// reads `at_relay`, writes `written`, and the speaker reads `at_speaker`.
pub proof fn assignment_reaches_the_speaker(
    state: RelayState,
    id: u32,
    config: ClientConfig,
    at_relay: Map<Seq<char>, Parsed>,
    written: Map<Seq<char>, Member>,
    at_speaker: Map<Seq<char>, Parsed>,
)
    requires
        state.children.contains_key(id),
        faithful(
            set_config_members(id, role_word(config.role), pan_word(config.pan), config.gain),
            at_relay,
        ),
        state.order_posts(order_meant(at_relay)) == seq![
            Posted::Child(state.children[id].id, Said::Plain(written)),
        ],
        faithful(written, at_speaker),
    ensures
        heard_in(at_speaker) == (Heard::Config {
            config,
            crossover_hz: state.crossover_hz,
            suspect: state.children[id].suspect,
        }),
{
    assignment_is_understood(
        id,
        role_word(config.role),
        pan_word(config.pan),
        config.gain,
        at_relay,
    );
    words_read_back(config.role, config.pan);
    let child = state.ordered(order_meant(at_relay)).children[id];
    let posts = state.order_posts(order_meant(at_relay));
    assert(posts[0] == Posted::Child(state.children[id].id, Said::Plain(written)));
    assert(written == child.config(state.crossover_hz, state.buffer_ms));
    relayed_config_is_understood(child, state.crossover_hz, state.buffer_ms, at_speaker);
}

/// A relay understands the crossover frequency that its master sets.
pub proof fn crossover_is_understood(hz: Quantity, read: Map<Seq<char>, Parsed>)
    requires
        faithful(set_crossover_members(hz), read),
    ensures
        order_meant(read) == (Ordered::SetCrossover { hz: Some(hz) }),
{
    field_names();
    message_kinds();
    let written = set_crossover_members(hz);
    assert(written.contains_key("type"@) && written["type"@] == Member::Text("set_crossover"@));
    assert(written.contains_key("hz"@) && written["hz"@] == Member::Number(hz));
}

/// The text says what was written with `written`, every member as it was.
pub open spec fn says(text: Seq<char>, written: Map<Seq<char>, Member>) -> bool {
    text_members(text) matches Some(read) && faithful(written, read)
}

/// How the names of the fields are spelled, as far as it takes to tell them apart.
proof fn spelling()
    ensures
        "type"@.len() == 4 && "type"@[0] == 't',
        "name"@.len() == 4 && "name"@[0] == 'n',
        "kind"@.len() == 4 && "kind"@[0] == 'k',
        "role"@.len() == 4 && "role"@[0] == 'r',
        "gain"@.len() == 4 && "gain"@[0] == 'g',
        "pan"@.len() == 3,
        "id"@.len() == 2 && "id"@[0] == 'i',
        "t0"@.len() == 2 && "t0"@[0] == 't' && "t0"@[1] == '0',
        "t1"@.len() == 2 && "t1"@[0] == 't' && "t1"@[1] == '1',
        "hz"@.len() == 2 && "hz"@[0] == 'h',
        "ms"@.len() == 2 && "ms"@[0] == 'm',
        "suspect"@.len() == 7,
        "buffer_ms"@.len() == 9 && "buffer_ms"@[0] == 'b',
        "jitter_ms"@.len() == 9 && "jitter_ms"@[0] == 'j',
        "latency_ms"@.len() == 10,
        "sample_rate"@.len() == 11,
        "crossover_hz"@.len() == 12,
{
    reveal_strlit("type");
    reveal_strlit("name");
    reveal_strlit("kind");
    reveal_strlit("role");
    reveal_strlit("gain");
    reveal_strlit("pan");
    reveal_strlit("id");
    reveal_strlit("t0");
    reveal_strlit("t1");
    reveal_strlit("hz");
    reveal_strlit("ms");
    reveal_strlit("suspect");
    reveal_strlit("buffer_ms");
    reveal_strlit("jitter_ms");
    reveal_strlit("latency_ms");
    reveal_strlit("sample_rate");
    reveal_strlit("crossover_hz");
}

/// A written member is found by its reader.
proof fn member_is_read(
    written: Map<Seq<char>, Member>,
    read: Map<Seq<char>, Parsed>,
    key: Seq<char>,
)
    requires
        faithful(written, read),
    ensures
        read.contains_key(key) <==> written.contains_key(key),
        written.contains_key(key) ==> match written[key] {
            Member::Text(text) => text_of(read, key) == Some(text),
            Member::Count(count) => count_of(read, key) == Some(count),
            Member::Flag(flag) => flag_of(read, key) == Some(flag),
            Member::Number(number) => number_of(read, key) == Some(number),
        },
{
    assert(read.dom().contains(key) <==> written.dom().contains(key));
}

/// A reader of the messages of the clock finds the times under the names of the protocol, and
/// nothing else.
pub proof fn clock_messages_are_read(
    t0: Quantity,
    t1: Quantity,
    ping: Map<Seq<char>, Parsed>,
    pong: Map<Seq<char>, Parsed>,
    key: Seq<char>,
)
    requires
        faithful(ping_members(t0), ping),
        faithful(pong_members(t0, t1), pong),
    ensures
        text_of(ping, "type"@) == Some("ping"@),
        number_of(ping, "t0"@) == Some(t0),
        ping.contains_key(key) <==> key == "type"@ || key == "t0"@,
        text_of(pong, "type"@) == Some("pong"@),
        number_of(pong, "t0"@) == Some(t0),
        number_of(pong, "t1"@) == Some(t1),
        pong.contains_key(key) <==> key == "type"@ || key == "t0"@ || key == "t1"@,
{
    spelling();
    member_is_read(ping_members(t0), ping, "type"@);
    member_is_read(ping_members(t0), ping, "t0"@);
    member_is_read(ping_members(t0), ping, key);
    member_is_read(pong_members(t0, t1), pong, "type"@);
    member_is_read(pong_members(t0, t1), pong, "t0"@);
    member_is_read(pong_members(t0, t1), pong, "t1"@);
    member_is_read(pong_members(t0, t1), pong, key);
}

/// A reader of the messages by which speakers join and leave finds who it is under the names of
/// the protocol, and nothing else.
pub proof fn joining_messages_are_read(
    id: u32,
    name: Seq<char>,
    kind: Seq<char>,
    buffer_ms: u32,
    hello: Map<Seq<char>, Parsed>,
    welcome: Map<Seq<char>, Parsed>,
    joined: Map<Seq<char>, Parsed>,
    left: Map<Seq<char>, Parsed>,
    key: Seq<char>,
)
    requires
        faithful(hello_members(name), hello),
        faithful(welcome_members(id, buffer_ms), welcome),
        faithful(child_joined_members(id, name, kind), joined),
        faithful(child_left_members(id), left),
    ensures
        text_of(hello, "type"@) == Some("hello"@),
        text_of(hello, "name"@) == Some(name),
        text_of(hello, "kind"@) == Some("native"@),
        hello.contains_key(key) <==> key == "type"@ || key == "name"@ || key == "kind"@,
        text_of(welcome, "type"@) == Some("welcome"@),
        count_of(welcome, "id"@) == Some(id as u64),
        count_of(welcome, "sample_rate"@) == Some(48000u64),
        count_of(welcome, "buffer_ms"@) == Some(buffer_ms as u64),
        welcome.contains_key(key) <==> key == "type"@ || key == "id"@ || key == "sample_rate"@
            || key == "buffer_ms"@,
        text_of(joined, "type"@) == Some("child_joined"@),
        count_of(joined, "id"@) == Some(id as u64),
        text_of(joined, "name"@) == Some(name),
        text_of(joined, "kind"@) == Some(kind),
        joined.contains_key(key) <==> key == "type"@ || key == "id"@ || key == "name"@ || key
            == "kind"@,
        text_of(left, "type"@) == Some("child_left"@),
        count_of(left, "id"@) == Some(id as u64),
        left.contains_key(key) <==> key == "type"@ || key == "id"@,
{
    spelling();
    let a = hello_members(name);
    member_is_read(a, hello, "type"@);
    member_is_read(a, hello, "name"@);
    member_is_read(a, hello, "kind"@);
    member_is_read(a, hello, key);
    let b = welcome_members(id, buffer_ms);
    member_is_read(b, welcome, "type"@);
    member_is_read(b, welcome, "id"@);
    member_is_read(b, welcome, "sample_rate"@);
    member_is_read(b, welcome, "buffer_ms"@);
    member_is_read(b, welcome, key);
    let c = child_joined_members(id, name, kind);
    member_is_read(c, joined, "type"@);
    member_is_read(c, joined, "id"@);
    member_is_read(c, joined, "name"@);
    member_is_read(c, joined, "kind"@);
    member_is_read(c, joined, key);
    let d = child_left_members(id);
    member_is_read(d, left, "type"@);
    member_is_read(d, left, "id"@);
    member_is_read(d, left, key);
}

/// A reader of the settings that a master sends finds them under the names of the protocol, the
/// buffer among them, and nothing else.
pub proof fn settings_are_read(
    config: ClientConfig,
    crossover_hz: Quantity,
    buffer_ms: u32,
    read: Map<Seq<char>, Parsed>,
    key: Seq<char>,
)
    requires
        faithful(config_said(config, crossover_hz, buffer_ms), read),
    ensures
        text_of(read, "type"@) == Some("config"@),
        text_of(read, "role"@) == Some(role_word(config.role)),
        text_of(read, "pan"@) == Some(pan_word(config.pan)),
        number_of(read, "gain"@) == Some(config.gain),
        number_of(read, "crossover_hz"@) == Some(crossover_hz),
        count_of(read, "buffer_ms"@) == Some(buffer_ms as u64),
        read.contains_key(key) <==> key == "type"@ || key == "role"@ || key == "pan"@ || key
            == "gain"@ || key == "crossover_hz"@ || key == "buffer_ms"@,
{
    spelling();
    let written = config_said(config, crossover_hz, buffer_ms);
    member_is_read(written, read, "type"@);
    member_is_read(written, read, "role"@);
    member_is_read(written, read, "pan"@);
    member_is_read(written, read, "gain"@);
    member_is_read(written, read, "crossover_hz"@);
    member_is_read(written, read, "buffer_ms"@);
    member_is_read(written, read, key);
}

/// A reader of the settings that a relay sends finds them under the same names, and whether the
/// group holds the child for an outlier.
pub proof fn relayed_settings_are_read(
    child: ChildState,
    crossover_hz: Quantity,
    buffer_ms: u32,
    read: Map<Seq<char>, Parsed>,
    key: Seq<char>,
)
    requires
        faithful(child.config(crossover_hz, buffer_ms), read),
    ensures
        text_of(read, "type"@) == Some("config"@),
        text_of(read, "role"@) == Some(child.role),
        text_of(read, "pan"@) == Some(child.pan),
        number_of(read, "gain"@) == Some(child.gain),
        number_of(read, "crossover_hz"@) == Some(crossover_hz),
        count_of(read, "buffer_ms"@) == Some(buffer_ms as u64),
        flag_of(read, "suspect"@) == Some(child.suspect),
        read.contains_key(key) <==> key == "type"@ || key == "role"@ || key == "pan"@ || key
            == "gain"@ || key == "crossover_hz"@ || key == "buffer_ms"@ || key == "suspect"@,
{
    spelling();
    let written = child.config(crossover_hz, buffer_ms);
    member_is_read(written, read, "type"@);
    member_is_read(written, read, "role"@);
    member_is_read(written, read, "pan"@);
    member_is_read(written, read, "gain"@);
    member_is_read(written, read, "crossover_hz"@);
    member_is_read(written, read, "buffer_ms"@);
    member_is_read(written, read, "suspect"@);
    member_is_read(written, read, key);
}

/// A reader of a row of the roster finds what the relay knows of the child under the names of the
/// protocol, and nothing else.
pub proof fn roster_rows_are_read(
    child: ChildState,
    read: Map<Seq<char>, Parsed>,
    key: Seq<char>,
)
    requires
        faithful(child.row(), read),
    ensures
        count_of(read, "id"@) == Some(child.id as u64),
        text_of(read, "name"@) == Some(child.name),
        text_of(read, "kind"@) == Some(child.kind),
        number_of(read, "latency_ms"@) == Some(child.latency_ms),
        number_of(read, "jitter_ms"@) == Some(child.jitter_ms),
        flag_of(read, "suspect"@) == Some(child.suspect),
        text_of(read, "role"@) == Some(child.role),
        text_of(read, "pan"@) == Some(child.pan),
        number_of(read, "gain"@) == Some(child.gain),
        read.contains_key(key) <==> key == "id"@ || key == "name"@ || key == "kind"@ || key
            == "latency_ms"@ || key == "jitter_ms"@ || key == "suspect"@ || key == "role"@ || key
            == "pan"@ || key == "gain"@,
{
    spelling();
    let written = child.row();
    member_is_read(written, read, "id"@);
    member_is_read(written, read, "name"@);
    member_is_read(written, read, "kind"@);
    member_is_read(written, read, "latency_ms"@);
    member_is_read(written, read, "jitter_ms"@);
    member_is_read(written, read, "suspect"@);
    member_is_read(written, read, "role"@);
    member_is_read(written, read, "pan"@);
    member_is_read(written, read, "gain"@);
    member_is_read(written, read, key);
}

/// A reader of the orders that a master sends finds them under the names of the protocol, and
/// nothing else.
pub proof fn orders_are_found(
    id: u32,
    config: ClientConfig,
    hz: Quantity,
    ms: u32,
    hello: Map<Seq<char>, Parsed>,
    assignment: Map<Seq<char>, Parsed>,
    crossover: Map<Seq<char>, Parsed>,
    buffer: Map<Seq<char>, Parsed>,
    key: Seq<char>,
)
    requires
        faithful(source_hello_members(ms, hz), hello),
        faithful(
            set_config_members(id, role_word(config.role), pan_word(config.pan), config.gain),
            assignment,
        ),
        faithful(set_crossover_members(hz), crossover),
        faithful(set_buffer_members(ms), buffer),
    ensures
        text_of(hello, "type"@) == Some("source_hello"@),
        count_of(hello, "buffer_ms"@) == Some(ms as u64),
        number_of(hello, "crossover_hz"@) == Some(hz),
        hello.contains_key(key) <==> key == "type"@ || key == "buffer_ms"@ || key
            == "crossover_hz"@,
        text_of(assignment, "type"@) == Some("set_config"@),
        count_of(assignment, "id"@) == Some(id as u64),
        text_of(assignment, "role"@) == Some(role_word(config.role)),
        text_of(assignment, "pan"@) == Some(pan_word(config.pan)),
        number_of(assignment, "gain"@) == Some(config.gain),
        assignment.contains_key(key) <==> key == "type"@ || key == "id"@ || key == "role"@ || key
            == "pan"@ || key == "gain"@,
        text_of(crossover, "type"@) == Some("set_crossover"@),
        number_of(crossover, "hz"@) == Some(hz),
        crossover.contains_key(key) <==> key == "type"@ || key == "hz"@,
        text_of(buffer, "type"@) == Some("set_buffer"@),
        count_of(buffer, "ms"@) == Some(ms as u64),
        buffer.contains_key(key) <==> key == "type"@ || key == "ms"@,
{
    spelling();
    let a = source_hello_members(ms, hz);
    member_is_read(a, hello, "type"@);
    member_is_read(a, hello, "buffer_ms"@);
    member_is_read(a, hello, "crossover_hz"@);
    member_is_read(a, hello, key);
    let b = set_config_members(id, role_word(config.role), pan_word(config.pan), config.gain);
    member_is_read(b, assignment, "type"@);
    member_is_read(b, assignment, "id"@);
    member_is_read(b, assignment, "role"@);
    member_is_read(b, assignment, "pan"@);
    member_is_read(b, assignment, "gain"@);
    member_is_read(b, assignment, key);
    let c = set_crossover_members(hz);
    member_is_read(c, crossover, "type"@);
    member_is_read(c, crossover, "hz"@);
    member_is_read(c, crossover, key);
    let d = set_buffer_members(ms);
    member_is_read(d, buffer, "type"@);
    member_is_read(d, buffer, "ms"@);
    member_is_read(d, buffer, key);
}

/// What the current source orders is an order to the relay: the settings of a child, with exactly
/// the values that the master gave.
pub proof fn assignments_are_orders(
    state: RelayState,
    gen: u64,
    text: String,
    id: u32,
    role: Seq<char>,
    pan: Seq<char>,
    gain: Quantity,
)
    requires
        state.active_source == Some(gen),
        says(text@, set_config_members(id, role, pan, gain)),
    ensures
        state.source_move(gen, Incoming::Text(text)) == SourceMove::Control(
            (Ordered::SetConfig {
                id,
                role: Some(role),
                pan: Some(pan),
                gain: Some(gain),
            }),
        ),
{
    assignment_is_understood(id, role, pan, gain, text_members(text@)->0);
}

/// What the current source orders is an order to the relay: the crossover of all children, with
/// exactly the frequency that the master gave.
pub proof fn crossovers_are_orders(state: RelayState, gen: u64, text: String, hz: Quantity)
    requires
        state.active_source == Some(gen),
        says(text@, set_crossover_members(hz)),
    ensures
        state.source_move(gen, Incoming::Text(text)) == SourceMove::Control(
            (Ordered::SetCrossover { hz: Some(hz) }),
        ),
{
    crossover_is_understood(hz, text_members(text@)->0);
}

/// What the current source announces is an order to the relay: the buffer and the crossover, with
/// exactly the values that the master gave.
pub proof fn announcements_are_orders(
    state: RelayState,
    gen: u64,
    text: String,
    buffer_ms: u32,
    crossover_hz: Quantity,
)
    requires
        state.active_source == Some(gen),
        says(text@, source_hello_members(buffer_ms, crossover_hz)),
    ensures
        state.source_move(gen, Incoming::Text(text)) == SourceMove::Control(
            (Ordered::Hello {
                buffer_ms: Some(buffer_ms as u64),
                crossover_hz: Some(crossover_hz),
            }),
        ),
{
    source_hello_is_understood(buffer_ms, crossover_hz, text_members(text@)->0);
}

/// The clocks of a speaker and its relay are compared: the ping of a native speaker is answered by
/// exactly one pong to it, and out of that pong the speaker reads the time of its ping and the
/// time of the relay.
pub proof fn clocks_are_compared(
    state: RelayState,
    id: u32,
    t0: Quantity,
    now: Quantity,
    ping: String,
    written: Map<Seq<char>, Member>,
    pong: String,
)
    requires
        says(ping@, ping_members(t0)),
        state.heard_posts(id, Incoming::Text(ping), now).contains(
            Posted::Child(id, Said::Plain(written)),
        ),
        says(pong@, written),
    ensures
        state.heard_posts(id, Incoming::Text(ping), now) == seq![
            Posted::Child(id, Said::Plain(pong_members(t0, now))),
        ],
        state.heard(id, Incoming::Text(ping)) == state,
        client_move(Incoming::Text(pong)) == (ClientMove::Pong { t0, t1: now }),
{
    ping_is_understood(t0, text_members(ping@)->0);
    let posts = state.heard_posts(id, Incoming::Text(ping), now);
    assert(posts =~= seq![Posted::Child(id, Said::Plain(pong_members(t0, now)))]);
    pong_is_understood(t0, now, text_members(pong@)->0);
}

/// A native speaker's ping is answered, whatever the relay knows of the speaker.
pub proof fn native_pings_are_answered(
    state: RelayState,
    id: u32,
    t0: Quantity,
    now: Quantity,
    ping: String,
)
    requires
        says(ping@, ping_members(t0)),
    ensures
        state.heard_posts(id, Incoming::Text(ping), now).len() == 1,
        state.heard_posts(id, Incoming::Text(ping), now)[0] == Posted::Child(
            id,
            Said::Plain(pong_members(t0, now)),
        ),
{
    ping_is_understood(t0, text_members(ping@)->0);
}

/// A speaker reads out of the pong of its master the time of its ping and the master's time.
pub proof fn direct_clocks_are_compared(
    session: Session,
    app: App,
    t0: Quantity,
    t1: Quantity,
    rtt_half: Quantity,
    written: Map<Seq<char>, Member>,
    pong: String,
)
    requires
        session is Live,
        session.replies(app, Event::Ping { t0, t1, rtt_half }).contains(
            Replied::Text(Said::Plain(written)),
        ),
        says(pong@, written),
    ensures
        client_move(Incoming::Text(pong)) == (ClientMove::Pong { t0, t1 }),
{
    pong_is_understood(t0, t1, text_members(pong@)->0);
}

/// A speaker applies the settings that its master assigns to it, with the crossover in force, and
/// stays sounding.
pub proof fn direct_settings_arrive(
    session: Session,
    app: App,
    config: ClientConfig,
    written: Map<Seq<char>, Member>,
    text: String,
)
    requires
        session is Live,
        session.replies(app, Event::Control(ClientMsg::Config(config))).contains(
            Replied::Text(Said::Plain(written)),
        ),
        says(text@, written),
    ensures
        client_move(Incoming::Text(text)) == (ClientMove::Config {
            config,
            crossover_hz: app.crossover_hz,
            suspect: false,
        }),
{
    config_is_understood(config, app.crossover_hz, app.buffer_ms, text_members(text@)->0);
}

/// A speaker receives every chunk that its master captures, with the samples and the time of the
/// chunk.
pub proof fn captured_audio_arrives(
    session: Session,
    app: App,
    play_at: Quantity,
    pcm: Vec<i16>,
    bin: Vec<u8>,
)
    requires
        session is Live,
        session.replies(app, Event::Audio { play_at, pcm }).contains(Replied::Frame(bin@)),
    ensures
        client_move(Incoming::Binary(bin)) == (ClientMove::Audio { play_at, pcm: pcm@ }),
{
    direct_audio_arrives(play_at, pcm@, bin);
}

/// The relay receives every chunk that its master captures: out of what the uplink sends it takes
/// the time of the chunk and all of its samples.
pub proof fn uploaded_audio_arrives(
    state: RelayState,
    gen: u64,
    play_at: Quantity,
    pcm: Vec<i16>,
    bin: Vec<u8>,
)
    requires
        state.active_source == Some(gen),
        pcm@.len() > 0,
        uplink_move(UplinkEvent::Audio { play_at, pcm }) == UplinkMove::Frame(bin@),
    ensures
        state.source_move(gen, Incoming::Binary(bin)) matches SourceMove::Audio {
            master_ts,
            payload,
        } && master_ts == play_at && pcm_samples(payload) == pcm@,
{
    frame_reads_back(play_at, pcm_bytes(pcm@));
    audio_reads_back(play_at, pcm@);
}

/// A speaker behind a relay applies the settings that the relay keeps for it, and learns whether
/// the group holds it for an outlier.
pub proof fn relayed_settings_arrive(
    child: ChildState,
    crossover_hz: Quantity,
    buffer_ms: u32,
    text: String,
)
    requires
        says(text@, child.config(crossover_hz, buffer_ms)),
    ensures
        client_move(Incoming::Text(text)) == (ClientMove::Config {
            config: ClientConfig {
                role: role_meant(Some(child.role)),
                pan: pan_meant(Some(child.pan)),
                gain: child.gain,
            },
            crossover_hz,
            suspect: child.suspect,
        }),
{
    relayed_config_is_understood(child, crossover_hz, buffer_ms, text_members(text@)->0);
}

} // verus!
