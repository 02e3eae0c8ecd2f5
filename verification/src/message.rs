//! The control messages of the wire protocol, as named fields.
//!
//! Every control message is one JSON object. A record is such an object before it
//! is written down. One without binary64 fields is written down here; a caller that
//! owns floating point writes the others, field by field.

use crate::json::{
    empty_object, insert_count, insert_flag, insert_text, no_members, render, Member,
};
#[allow(unused_imports)]
use crate::json::{object_members, object_text, read_back, text_members};
use crate::quantity::Quantity;
use vstd::prelude::*;
use vstd::string::*;

verus! {

/// What a field holds.
pub enum Content {
    Text(String),
    Count(u64),
    Flag(bool),
    Number(Quantity),
}

impl View for Content {
    type V = Member;

    open spec fn view(&self) -> Member {
        match self {
            Content::Text(text) => Member::Text(text@),
            Content::Count(count) => Member::Count(*count),
            Content::Flag(flag) => Member::Flag(*flag),
            Content::Number(number) => Member::Number(*number),
        }
    }
}

/// One field of a record.
pub struct Field {
    pub key: String,
    pub value: Content,
}

/// The members that the fields set, later ones in place of earlier ones.
pub open spec fn members(fields: Seq<Field>) -> Map<Seq<char>, Member>
    decreases fields.len(),
{
    if fields.len() == 0 {
        no_members()
    } else {
        members(fields.drop_last()).insert(fields.last().key@, fields.last().value@)
    }
}

/// Some field is a binary64.
pub open spec fn numeric(fields: Seq<Field>) -> bool {
    exists|i: int| 0 <= i < fields.len() && (#[trigger] fields[i]).value is Number
}

/// A flat JSON object.
pub struct Record {
    pub fields: Vec<Field>,
}

impl View for Record {
    type V = Map<Seq<char>, Member>;

    open spec fn view(&self) -> Map<Seq<char>, Member> {
        members(self.fields@)
    }
}

impl Record {
    /// The record of a message, with its `type`.
    pub fn new(kind: &str) -> (r: Record)
        ensures
            r@ == no_members().insert("type"@, Member::Text(kind@)),
            !numeric(r.fields@),
    {
        let mut r = Record { fields: Vec::new() };
        r.put_text("type", kind);
        r
    }

    /// A record without fields.
    pub fn empty() -> (r: Record)
        ensures
            r@ == no_members(),
    {
        Record { fields: Vec::new() }
    }

    fn put(&mut self, key: &str, value: Content)
        ensures
            final(self)@ == old(self)@.insert(key@, value@),
            numeric(final(self).fields@) == (numeric(old(self).fields@) || value is Number),
    {
        self.fields.push(Field { key: key.to_owned(), value });
        proof {
            let before = old(self).fields@;
            let after = self.fields@;
            assert(after.drop_last() =~= before);
            if numeric(before) {
                let i = choose|i: int|
                    0 <= i < before.len() && (#[trigger] before[i]).value is Number;
                assert(after[i].value is Number);
            }
            if value is Number {
                assert(after[before.len() as int].value is Number);
            }
            if numeric(after) {
                let i = choose|i: int|
                    0 <= i < after.len() && (#[trigger] after[i]).value is Number;
                if i < before.len() {
                    assert(before[i].value is Number);
                }
            }
        }
    }

    /// Sets a text.
    pub fn put_text(&mut self, key: &str, text: &str)
        ensures
            final(self)@ == old(self)@.insert(key@, Member::Text(text@)),
            numeric(final(self).fields@) == numeric(old(self).fields@),
    {
        self.put(key, Content::Text(text.to_owned()));
    }

    /// Sets an unsigned integer.
    pub fn put_count(&mut self, key: &str, count: u64)
        ensures
            final(self)@ == old(self)@.insert(key@, Member::Count(count)),
            numeric(final(self).fields@) == numeric(old(self).fields@),
    {
        self.put(key, Content::Count(count));
    }

    /// Sets a truth value.
    pub fn put_flag(&mut self, key: &str, flag: bool)
        ensures
            final(self)@ == old(self)@.insert(key@, Member::Flag(flag)),
            numeric(final(self).fields@) == numeric(old(self).fields@),
    {
        self.put(key, Content::Flag(flag));
    }

    /// Sets a binary64.
    pub fn put_number(&mut self, key: &str, number: Quantity)
        ensures
            final(self)@ == old(self)@.insert(key@, Member::Number(number)),
    {
        self.put(key, Content::Number(number));
    }

    /// The text of the record, where no field is a binary64. What is written can be
    /// read back.
    pub fn text(&self) -> (r: Option<String>)
        ensures
            r is None <==> numeric(self.fields@),
            r matches Some(text) ==> {
                &&& text@ == object_text(self@)
                &&& text_members(text@) is Some
                &&& read_back(self@, text_members(text@)->0)
            },
    {
        let mut object = empty_object();
        let mut i: usize = 0;
        while i < self.fields.len()
            invariant
                i <= self.fields@.len(),
                object_members(object) == members(self.fields@.take(i as int)),
                forall|j: int| 0 <= j < i ==> !((#[trigger] self.fields@[j]).value is Number),
            decreases self.fields@.len() - i,
        {
            let key = self.fields[i].key.as_str();
            match &self.fields[i].value {
                Content::Text(text) => {
                    insert_text(&mut object, key, text.as_str());
                },
                Content::Count(count) => {
                    insert_count(&mut object, key, *count);
                },
                Content::Flag(flag) => {
                    insert_flag(&mut object, key, *flag);
                },
                Content::Number(_) => {
                    assert(self.fields@[i as int].value is Number);
                    return None;
                },
            }
            assert(self.fields@.take(i + 1).drop_last() =~= self.fields@.take(i as int));
            i = i + 1;
        }
        assert(self.fields@.take(i as int) =~= self.fields@);
        Some(render(object))
    }
}

/// A control message.
pub enum Message {
    Plain(Record),
    /// The children that a relay serves.
    Roster(Vec<Record>),
}

/// What a control message says.
pub enum Said {
    Plain(Map<Seq<char>, Member>),
    /// An object with the type `roster` and the list `children`.
    Roster(Seq<Map<Seq<char>, Member>>),
}

impl Message {
    /// The text of the message, where it is flat and no field is a binary64. What is written
    /// can be read back.
    pub fn text(&self) -> (r: Option<String>)
        ensures
            match self {
                Message::Plain(record) => {
                    &&& r is None <==> numeric(record.fields@)
                    &&& r matches Some(text) ==> {
                        &&& text@ == object_text(record@)
                        &&& text_members(text@) is Some
                        &&& read_back(record@, text_members(text@)->0)
                    }
                },
                Message::Roster(_) => r is None,
            },
    {
        match self {
            Message::Plain(record) => record.text(),
            Message::Roster(_) => None,
        }
    }
}

impl View for Message {
    type V = Said;

    open spec fn view(&self) -> Said {
        match self {
            Message::Plain(record) => Said::Plain(record@),
            Message::Roster(rows) => Said::Roster(rows@.map_values(|row: Record| row@)),
        }
    }
}

/// The first message of a native speaker.
pub open spec fn hello_members(name: Seq<char>) -> Map<Seq<char>, Member> {
    no_members().insert("type"@, Member::Text("hello"@)).insert("name"@, Member::Text(name))
        .insert("kind"@, Member::Text("native"@))
}

/// The first message of a native speaker.
pub fn hello_record(name: &str) -> (r: Record)
    ensures
        r@ == hello_members(name@),
        !numeric(r.fields@),
{
    let mut record = Record::new("hello");
    record.put_text("name", name);
    record.put_text("kind", "native");
    record
}

/// A speaker asks for the clock; `t0` is its own.
pub open spec fn ping_members(t0: Quantity) -> Map<Seq<char>, Member> {
    no_members().insert("type"@, Member::Text("ping"@)).insert("t0"@, Member::Number(t0))
}

/// A speaker asks for the clock; `t0` is its own.
pub fn ping_record(t0: Quantity) -> (r: Record)
    ensures
        r@ == ping_members(t0),
{
    let mut record = Record::new("ping");
    record.put_number("t0", t0);
    record
}

/// The answer to a speaker that joins.
pub open spec fn welcome_members(id: u32, buffer_ms: u32) -> Map<Seq<char>, Member> {
    no_members().insert("type"@, Member::Text("welcome"@))
        .insert("id"@, Member::Count(id as u64)).insert("sample_rate"@, Member::Count(48000))
        .insert("buffer_ms"@, Member::Count(buffer_ms as u64))
}

/// The answer to a speaker that joins.
pub fn welcome_record(id: u32, buffer_ms: u32) -> (r: Record)
    ensures
        r@ == welcome_members(id, buffer_ms),
        !numeric(r.fields@),
{
    let mut record = Record::new("welcome");
    record.put_count("id", id as u64);
    record.put_count("sample_rate", 48000);
    record.put_count("buffer_ms", buffer_ms as u64);
    record
}

/// The settings of one speaker.
pub open spec fn config_members(
    role: Seq<char>,
    pan: Seq<char>,
    gain: Quantity,
    crossover_hz: Quantity,
    buffer_ms: u32,
) -> Map<Seq<char>, Member> {
    no_members().insert("type"@, Member::Text("config"@)).insert("role"@, Member::Text(role))
        .insert("pan"@, Member::Text(pan)).insert("gain"@, Member::Number(gain))
        .insert("crossover_hz"@, Member::Number(crossover_hz))
        .insert("buffer_ms"@, Member::Count(buffer_ms as u64))
}

/// The settings of one speaker.
pub fn config_record(
    role: &str,
    pan: &str,
    gain: Quantity,
    crossover_hz: Quantity,
    buffer_ms: u32,
) -> (r: Record)
    ensures
        r@ == config_members(role@, pan@, gain, crossover_hz, buffer_ms),
{
    let mut record = Record::new("config");
    record.put_text("role", role);
    record.put_text("pan", pan);
    record.put_number("gain", gain);
    record.put_number("crossover_hz", crossover_hz);
    record.put_count("buffer_ms", buffer_ms as u64);
    record
}

/// The answer to a ping: the clock of the speaker and the clock of the sender.
pub open spec fn pong_members(t0: Quantity, t1: Quantity) -> Map<Seq<char>, Member> {
    no_members().insert("type"@, Member::Text("pong"@)).insert("t0"@, Member::Number(t0))
        .insert("t1"@, Member::Number(t1))
}

/// The answer to a ping: the clock of the speaker and the clock of the sender.
pub fn pong_record(t0: Quantity, t1: Quantity) -> (r: Record)
    ensures
        r@ == pong_members(t0, t1),
{
    let mut record = Record::new("pong");
    record.put_number("t0", t0);
    record.put_number("t1", t1);
    record
}

/// A relay tells its master of a speaker that joined.
pub open spec fn child_joined_members(
    id: u32,
    name: Seq<char>,
    kind: Seq<char>,
) -> Map<Seq<char>, Member> {
    no_members().insert("type"@, Member::Text("child_joined"@))
        .insert("id"@, Member::Count(id as u64)).insert("name"@, Member::Text(name))
        .insert("kind"@, Member::Text(kind))
}

/// A relay tells its master of a speaker that joined.
pub fn child_joined_record(id: u32, name: &str, kind: &str) -> (r: Record)
    ensures
        r@ == child_joined_members(id, name@, kind@),
        !numeric(r.fields@),
{
    let mut record = Record::new("child_joined");
    record.put_count("id", id as u64);
    record.put_text("name", name);
    record.put_text("kind", kind);
    record
}

/// A relay tells its master of a speaker that left.
pub open spec fn child_left_members(id: u32) -> Map<Seq<char>, Member> {
    no_members().insert("type"@, Member::Text("child_left"@))
        .insert("id"@, Member::Count(id as u64))
}

/// A relay tells its master of a speaker that left.
pub fn child_left_record(id: u32) -> (r: Record)
    ensures
        r@ == child_left_members(id),
        !numeric(r.fields@),
{
    let mut record = Record::new("child_left");
    record.put_count("id", id as u64);
    record
}

/// The first message of a master to its relay.
pub open spec fn source_hello_members(
    buffer_ms: u32,
    crossover_hz: Quantity,
) -> Map<Seq<char>, Member> {
    no_members().insert("type"@, Member::Text("source_hello"@))
        .insert("buffer_ms"@, Member::Count(buffer_ms as u64))
        .insert("crossover_hz"@, Member::Number(crossover_hz))
}

/// The first message of a master to its relay.
pub fn source_hello_record(buffer_ms: u32, crossover_hz: Quantity) -> (r: Record)
    ensures
        r@ == source_hello_members(buffer_ms, crossover_hz),
{
    let mut record = Record::new("source_hello");
    record.put_count("buffer_ms", buffer_ms as u64);
    record.put_number("crossover_hz", crossover_hz);
    record
}

/// A master assigns the settings of one speaker through its relay.
pub open spec fn set_config_members(
    id: u32,
    role: Seq<char>,
    pan: Seq<char>,
    gain: Quantity,
) -> Map<Seq<char>, Member> {
    no_members().insert("type"@, Member::Text("set_config"@))
        .insert("id"@, Member::Count(id as u64)).insert("role"@, Member::Text(role))
        .insert("pan"@, Member::Text(pan)).insert("gain"@, Member::Number(gain))
}

/// A master assigns the settings of one speaker through its relay.
pub fn set_config_record(id: u32, role: &str, pan: &str, gain: Quantity) -> (r: Record)
    ensures
        r@ == set_config_members(id, role@, pan@, gain),
{
    let mut record = Record::new("set_config");
    record.put_count("id", id as u64);
    record.put_text("role", role);
    record.put_text("pan", pan);
    record.put_number("gain", gain);
    record
}

/// A master sets the crossover frequency through its relay.
pub open spec fn set_crossover_members(hz: Quantity) -> Map<Seq<char>, Member> {
    no_members().insert("type"@, Member::Text("set_crossover"@)).insert("hz"@, Member::Number(hz))
}

/// A master sets the crossover frequency through its relay.
pub fn set_crossover_record(hz: Quantity) -> (r: Record)
    ensures
        r@ == set_crossover_members(hz),
{
    let mut record = Record::new("set_crossover");
    record.put_number("hz", hz);
    record
}

/// A master announces the buffer to its relay.
pub open spec fn set_buffer_members(ms: u32) -> Map<Seq<char>, Member> {
    no_members().insert("type"@, Member::Text("set_buffer"@))
        .insert("ms"@, Member::Count(ms as u64))
}

/// A master announces the buffer to its relay.
pub fn set_buffer_record(ms: u32) -> (r: Record)
    ensures
        r@ == set_buffer_members(ms),
        !numeric(r.fields@),
{
    let mut record = Record::new("set_buffer");
    record.put_count("ms", ms as u64);
    record
}

/// What a field says is what it holds, and what a message says are its fields: those of a flat one
/// under their keys, and those of a roster row by row.
pub proof fn messages_say_their_fields(
    text: String,
    count: u64,
    flag: bool,
    number: Quantity,
    fields: Seq<Field>,
    field: Field,
    record: Record,
    rows: Vec<Record>,
    i: int,
)
    ensures
        Content::Text(text)@ == Member::Text(text@),
        Content::Count(count)@ == Member::Count(count),
        Content::Flag(flag)@ == Member::Flag(flag),
        Content::Number(number)@ == Member::Number(number),
        members(Seq::empty()) == no_members(),
        members(fields.push(field)) == members(fields).insert(field.key@, field.value@),
        record@ == members(record.fields@),
        no_members().dom() == Set::<Seq<char>>::empty(),
        Message::Plain(record)@ == Said::Plain(record@),
        Message::Roster(rows)@ matches Said::Roster(said) && said.len() == rows@.len() && (0 <= i
            < rows@.len() ==> said[i] == rows@[i]@),
        numeric(fields.push(field)) <==> numeric(fields) || field.value is Number,
        !numeric(Seq::empty()),
{
    assert(fields.push(field).drop_last() =~= fields);
    let after = fields.push(field);
    if numeric(fields) {
        let k = choose|k: int| 0 <= k < fields.len() && (#[trigger] fields[k]).value is Number;
        assert(after[k].value is Number);
    }
    if field.value is Number {
        assert(after[fields.len() as int].value is Number);
    }
    if numeric(after) {
        let k = choose|k: int| 0 <= k < after.len() && (#[trigger] after[k]).value is Number;
        if k < fields.len() {
            assert(fields[k].value is Number);
        }
    }
}

} // verus!
