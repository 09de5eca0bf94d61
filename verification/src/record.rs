//! The record model: one log line as a value, with its fields by name.

use vstd::prelude::*;
use crate::json::{
    entries_of,
    json_parse,
    map_entries,
    member,
    members_of,
    read_value,
    shape_of,
    take_member,
    without_key,
    Json,
    Shape,
};
use crate::lookup::{find_field, found, get_field_from_extras};
use crate::number::Number;
use crate::text::{is_word, lowered, same_text};
use crate::time::{time_parse, time_text, Timestamp};

verus! {

/// One log line, read.
#[derive(Debug)]
pub struct LogRecord {
    /// The version of the log format: 0 until the format changes in a way
    /// that breaks its readers.
    pub version: u8,
    /// See `NamedLogLevel`; any number is accepted.
    pub level: u8,
    /// Name of the service that wrote the line.
    pub name: String,
    /// Name of the host it ran on.
    pub hostname: String,
    /// Process identifier.
    pub process_identifier: u32,
    /// The time of the event.
    pub time: Timestamp,
    /// Log message.
    pub message: String,
    /// Whatever else the line holds, in the order in which it holds it.
    pub extras: serde_json::Map<String, serde_json::Value>,
}

/// What a record holds.
pub struct RecordView {
    pub version: u8,
    pub level: u8,
    pub name: Seq<char>,
    pub hostname: Seq<char>,
    pub process_identifier: u32,
    pub seconds: i64,
    pub nanos: u32,
    pub message: Seq<char>,
    pub extras: Seq<(Seq<char>, Json)>,
}

impl View for LogRecord {
    type V = RecordView;

    open spec fn view(&self) -> RecordView {
        RecordView {
            version: self.version,
            level: self.level,
            name: self.name@,
            hostname: self.hostname@,
            process_identifier: self.process_identifier,
            seconds: self.time.seconds(),
            nanos: self.time.nanos(),
            message: self.message@,
            extras: map_entries(self.extras),
        }
    }
}

/// The value of a field, in the type in which it is compared.
#[derive(Debug)]
pub enum LogRecordTypes {
    U8(u8),
    Str(String),
    Num(Number),
}

/// What the value of a field holds.
pub enum FieldValue {
    U8(u8),
    Str(Seq<char>),
    Num(Number),
}

impl View for LogRecordTypes {
    type V = FieldValue;

    open spec fn view(&self) -> FieldValue {
        match self {
            LogRecordTypes::U8(n) => FieldValue::U8(*n),
            LogRecordTypes::Str(s) => FieldValue::Str(s@),
            LogRecordTypes::Num(x) => FieldValue::Num(*x),
        }
    }
}

/// Why a line is no record.
#[derive(Clone, Copy, Debug, PartialEq, Eq, Structural)]
pub enum ParseError {
    /// The line is no JSON document.
    NotJson,
    /// The line is JSON, but no object that holds the seven fields of a
    /// record, each in its type.
    NotARecord,
}

/// The unsigned 8-bit integer that a member holds.
pub open spec fn small_in(json: Option<Json>) -> Option<u8> {
    match json {
        Some(Json::Number(n)) => match n.unsigned() {
            Some(u) => if u <= u8::MAX {
                Some(u as u8)
            } else {
                None
            },
            None => None,
        },
        _ => None,
    }
}

/// The unsigned 32-bit integer that a member holds.
pub open spec fn unsigned_in(json: Option<Json>) -> Option<u32> {
    match json {
        Some(Json::Number(n)) => match n.unsigned() {
            Some(u) => if u <= u32::MAX {
                Some(u as u32)
            } else {
                None
            },
            None => None,
        },
        _ => None,
    }
}

/// The string that a member holds.
pub open spec fn text_in(json: Option<Json>) -> Option<Seq<char>> {
    match json {
        Some(Json::Text(s)) => Some(s),
        _ => None,
    }
}

/// The point in time that a member holds, as seconds and nanoseconds.
pub open spec fn time_in(json: Option<Json>) -> Option<(i64, u32)> {
    match json {
        Some(Json::Text(s)) => time_parse(s),
        _ => None,
    }
}

/// The members of a line that are not among the seven fields of a record.
pub open spec fn extras_of(entries: Seq<(Seq<char>, Json)>) -> Seq<(Seq<char>, Json)> {
    without_key(
        without_key(
            without_key(
                without_key(
                    without_key(without_key(without_key(entries, "v"@), "level"@), "name"@),
                    "hostname"@,
                ),
                "pid"@,
            ),
            "time"@,
        ),
        "msg"@,
    )
}

/// The record that a JSON value is: an object with the members `v` and
/// `level` (integers from 0 to 255), `name` and `hostname` (strings), `pid`
/// (an integer from 0 to 4294967295), `time` (a string that is a timestamp)
/// and `msg` (a string). Its other members are the extras.
pub open spec fn record_of(json: Json) -> Option<RecordView> {
    match json {
        Json::Object(entries) => {
            let version = small_in(member(entries, "v"@));
            let level = small_in(member(entries, "level"@));
            let name = text_in(member(entries, "name"@));
            let hostname = text_in(member(entries, "hostname"@));
            let pid = unsigned_in(member(entries, "pid"@));
            let time = time_in(member(entries, "time"@));
            let (seconds, nanos) = time->0;
            let message = text_in(member(entries, "msg"@));
            if version is Some && level is Some && name is Some && hostname is Some && pid is Some
                && time is Some && message is Some {
                Some(
                    RecordView {
                        version: version->0,
                        level: level->0,
                        name: name->0,
                        hostname: hostname->0,
                        process_identifier: pid->0,
                        seconds,
                        nanos,
                        message: message->0,
                        extras: extras_of(entries),
                    },
                )
            } else {
                None
            }
        },
        _ => None,
    }
}

/// The record that a line is, or why it is none.
pub open spec fn parsed(line: Seq<char>) -> Result<RecordView, ParseError> {
    match json_parse(line) {
        None => Err(ParseError::NotJson),
        Some(json) => match record_of(json) {
            None => Err(ParseError::NotARecord),
            Some(record) => Ok(record),
        },
    }
}

/// What came of reading a line, as what it holds.
pub open spec fn read(r: Result<LogRecord, ParseError>) -> Result<RecordView, ParseError> {
    match r {
        Ok(record) => Ok(record@),
        Err(e) => Err(e),
    }
}

/// The shape of the first of `members` whose key is `key`.
fn shape_in(members: &Vec<(String, serde_json::Value)>, key: &str) -> (r: Option<Shape>)
    ensures
        match member(entries_of(members@), key@) {
            Some(json) => r matches Some(shape) && shape.shows(json),
            None => r is None,
        },
{
    let ghost entries = entries_of(members@);
    let mut i: usize = 0;
    assert(entries.skip(0) =~= entries);
    while i < members.len()
        invariant
            i <= members.len(),
            entries == entries_of(members@),
            member(entries, key@) == member(entries.skip(i as int), key@),
        decreases members.len() - i,
    {
        let ghost rest = entries.skip(i as int);
        assert(rest.drop_first() =~= entries.skip(i as int + 1));
        if same_text(members[i].0.as_str(), key) {
            return Some(shape_of(&members[i].1));
        }
        i = i + 1;
    }
    None
}

/// Whether `name` names one of the seven fields of a record, whatever the
/// case of its letters.
pub open spec fn is_field_name(name: Seq<char>) -> bool {
    let word = lowered(name);
    ||| word == "version"@
    ||| word == "level"@
    ||| word == "name"@
    ||| word == "hostname"@
    ||| word == "pid"@
    ||| word == "time"@
    ||| word == "message"@
}

impl RecordView {
    /// The time of the record as a timestamp.
    pub open spec fn timestamp(self) -> Seq<char> {
        time_text(self.seconds, self.nanos)->0
    }

    /// The field that `name` names. The case of ASCII letters is ignored for
    /// `version`, `level`, `name`, `hostname`, `pid`, `time` and `message`;
    /// any other name is looked for among the extras, to the letter.
    pub open spec fn field(self, name: Seq<char>) -> Option<FieldValue> {
        let word = lowered(name);
        if word == "version"@ {
            Some(FieldValue::U8(self.version))
        } else if word == "level"@ {
            Some(FieldValue::U8(self.level))
        } else if word == "name"@ {
            Some(FieldValue::Str(self.name))
        } else if word == "hostname"@ {
            Some(FieldValue::Str(self.hostname))
        } else if word == "pid"@ {
            Some(FieldValue::Num(Number::of_nat(self.process_identifier as nat)))
        } else if word == "time"@ {
            Some(FieldValue::Str(self.timestamp()))
        } else if word == "message"@ {
            Some(FieldValue::Str(self.message))
        } else {
            find_field(name, self.extras)
        }
    }
}

impl LogRecord {
    /// The field that `field_name` names (see [`RecordView::field`]).
    pub fn field_by_name(&self, field_name: &str) -> (r: Option<LogRecordTypes>)
        ensures
            found(r) == self@.field(field_name@),
    {
        if is_word(field_name, "version") {
            Some(LogRecordTypes::U8(self.version))
        } else if is_word(field_name, "level") {
            Some(LogRecordTypes::U8(self.level))
        } else if is_word(field_name, "name") {
            Some(LogRecordTypes::Str(self.name.clone()))
        } else if is_word(field_name, "hostname") {
            Some(LogRecordTypes::Str(self.hostname.clone()))
        } else if is_word(field_name, "pid") {
            Some(LogRecordTypes::Num(Number::from_u32(self.process_identifier)))
        } else if is_word(field_name, "time") {
            Some(LogRecordTypes::Str(self.time.to_text()))
        } else if is_word(field_name, "message") {
            Some(LogRecordTypes::Str(self.message.clone()))
        } else {
            get_field_from_extras(field_name, &self.extras)
        }
    }

    /// Whether none of the seven fields of a record is among the extras.
    pub open spec fn well_formed(self) -> bool {
        let extras = map_entries(self.extras);
        &&& member(extras, "v"@) is None
        &&& member(extras, "level"@) is None
        &&& member(extras, "name"@) is None
        &&& member(extras, "hostname"@) is None
        &&& member(extras, "pid"@) is None
        &&& member(extras, "time"@) is None
        &&& member(extras, "msg"@) is None
    }

    /// Reads one line as a record.
    pub fn parse(line: &str) -> (r: Result<LogRecord, ParseError>)
        ensures
            read(r) == parsed(line@),
            r matches Ok(record) ==> record.well_formed(),
    {
        let value = match read_value(line) {
            Some(value) => value,
            None => {
                return Err(ParseError::NotJson);
            },
        };
        let mut extras = match shape_of(&value) {
            Shape::Object(map) => map,
            _ => {
                return Err(ParseError::NotARecord);
            },
        };
        let ghost entries = map_entries(extras);
        let members = members_of(&extras);
        let version: u8 = match shape_in(&members, "v") {
            Some(Shape::Number { unsigned: Some(n), float: _ }) if n <= 255 => n as u8,
            _ => {
                return Err(ParseError::NotARecord);
            },
        };
        let level: u8 = match shape_in(&members, "level") {
            Some(Shape::Number { unsigned: Some(n), float: _ }) if n <= 255 => n as u8,
            _ => {
                return Err(ParseError::NotARecord);
            },
        };
        let name = match shape_in(&members, "name") {
            Some(Shape::Text(s)) => s,
            _ => {
                return Err(ParseError::NotARecord);
            },
        };
        let hostname = match shape_in(&members, "hostname") {
            Some(Shape::Text(s)) => s,
            _ => {
                return Err(ParseError::NotARecord);
            },
        };
        let process_identifier: u32 = match shape_in(&members, "pid") {
            Some(Shape::Number { unsigned: Some(n), float: _ }) if n <= 0xFFFF_FFFF => n as u32,
            _ => {
                return Err(ParseError::NotARecord);
            },
        };
        let time = match shape_in(&members, "time") {
            Some(Shape::Text(s)) => match Timestamp::parse(s.as_str()) {
                Some(t) => t,
                None => {
                    return Err(ParseError::NotARecord);
                },
            },
            _ => {
                return Err(ParseError::NotARecord);
            },
        };
        let message = match shape_in(&members, "msg") {
            Some(Shape::Text(s)) => s,
            _ => {
                return Err(ParseError::NotARecord);
            },
        };
        let _ = take_member(&mut extras, "v");
        let _ = take_member(&mut extras, "level");
        let _ = take_member(&mut extras, "name");
        let _ = take_member(&mut extras, "hostname");
        let _ = take_member(&mut extras, "pid");
        let _ = take_member(&mut extras, "time");
        let _ = take_member(&mut extras, "msg");
        proof {
            lemma_extras_hold_no_field(entries);
        }
        Ok(
            LogRecord {
                version,
                level,
                name,
                hostname,
                process_identifier,
                time,
                message,
                extras,
            },
        )
    }
}

/// Taking out a key leaves no member with that key, and brings back none
/// that was not there.
pub proof fn lemma_without_key(entries: Seq<(Seq<char>, Json)>, key: Seq<char>, other: Seq<char>)
    ensures
        member(without_key(entries, key), key) is None,
        member(entries, other) is None ==> member(without_key(entries, key), other) is None,
    decreases entries.len(),
{
    if entries.len() > 0 {
        let front = entries.drop_last();
        lemma_without_key(front, key, other);
        lemma_member_push(front, entries.last(), key);
        lemma_member_push(front, entries.last(), other);
        assert(front.push(entries.last()) =~= entries);
        lemma_member_push(without_key(front, key), entries.last(), key);
        lemma_member_push(without_key(front, key), entries.last(), other);
    }
}

/// A member added at the end is found only where no earlier one has its key.
pub proof fn lemma_member_push(entries: Seq<(Seq<char>, Json)>, last: (Seq<char>, Json), key: Seq<
    char,
>)
    ensures
        member(entries.push(last), key) == if member(entries, key) is Some {
            member(entries, key)
        } else if last.0 == key {
            Some(last.1)
        } else {
            None
        },
    decreases entries.len(),
{
    let all = entries.push(last);
    if entries.len() == 0 {
    } else {
        assert(all.drop_first() =~= entries.drop_first().push(last));
        lemma_member_push(entries.drop_first(), last, key);
    }
}

/// None of the seven fields of a record is among the extras of a line.
pub proof fn lemma_extras_hold_no_field(entries: Seq<(Seq<char>, Json)>)
    ensures
        member(extras_of(entries), "v"@) is None,
        member(extras_of(entries), "level"@) is None,
        member(extras_of(entries), "name"@) is None,
        member(extras_of(entries), "hostname"@) is None,
        member(extras_of(entries), "pid"@) is None,
        member(extras_of(entries), "time"@) is None,
        member(extras_of(entries), "msg"@) is None,
{
    let e1 = without_key(entries, "v"@);
    let e2 = without_key(e1, "level"@);
    let e3 = without_key(e2, "name"@);
    let e4 = without_key(e3, "hostname"@);
    let e5 = without_key(e4, "pid"@);
    let e6 = without_key(e5, "time"@);
    lemma_without_key(entries, "v"@, "v"@);
    lemma_without_key(e1, "level"@, "v"@);
    lemma_without_key(e2, "name"@, "v"@);
    lemma_without_key(e2, "name"@, "level"@);
    lemma_without_key(e3, "hostname"@, "v"@);
    lemma_without_key(e3, "hostname"@, "level"@);
    lemma_without_key(e3, "hostname"@, "name"@);
    lemma_without_key(e4, "pid"@, "v"@);
    lemma_without_key(e4, "pid"@, "level"@);
    lemma_without_key(e4, "pid"@, "name"@);
    lemma_without_key(e4, "pid"@, "hostname"@);
    lemma_without_key(e5, "time"@, "v"@);
    lemma_without_key(e5, "time"@, "level"@);
    lemma_without_key(e5, "time"@, "name"@);
    lemma_without_key(e5, "time"@, "hostname"@);
    lemma_without_key(e5, "time"@, "pid"@);
    lemma_without_key(e6, "msg"@, "v"@);
    lemma_without_key(e6, "msg"@, "level"@);
    lemma_without_key(e6, "msg"@, "name"@);
    lemma_without_key(e6, "msg"@, "hostname"@);
    lemma_without_key(e6, "msg"@, "pid"@);
    lemma_without_key(e6, "msg"@, "time"@);
}

} // verus!
