//! The renderer: a record as display text. One header line, the short extra
//! fields in brackets behind it, the long ones below it.

use vstd::prelude::*;
use crate::digits::{decimal, lemma_decimal_is_digits, push_decimal};
use crate::json::{
    entries_of,
    json_pretty,
    map_entries,
    members_of,
    pretty_text,
    shape_of,
    value_json,
    Json,
    Shape,
};
use crate::level::NamedLogLevel;
use crate::paint::{lemma_visible_plain, paint, paints, visible, Emphasis};
use crate::record::{LogRecord, RecordView};
use crate::style::Format;
use crate::text::{
    chars_of,
    contains_char,
    has_char,
    join,
    joined,
    lemma_occurs_between,
    lines_of,
    occurs_in,
    push_all,
    push_str,
    split_lines,
    text_of,
    views,
};

verus! {

/// The badge of a level, without emphasis: five characters for a named
/// level, `LVL` and the number for any other.
pub open spec fn level_label(level: u8) -> Seq<char> {
    match NamedLogLevel::of_value(level) {
        Some(NamedLogLevel::Fatal) => "FATAL"@,
        Some(NamedLogLevel::Error) => "ERROR"@,
        Some(NamedLogLevel::Warn) => " WARN"@,
        Some(NamedLogLevel::Info) => " INFO"@,
        Some(NamedLogLevel::Debug) => "DEBUG"@,
        Some(NamedLogLevel::Trace) => "TRACE"@,
        None => "LVL"@ + decimal(level as nat),
    }
}

/// Whether `badge` is the badge of `level`: its label to the eye, and its
/// label to the letter where there is no emphasis, which is where `colorize`
/// is off or the level has no name.
pub open spec fn is_badge(badge: Seq<char>, level: u8, colorize: bool) -> bool {
    &&& visible(badge) == level_label(level)
    &&& !colorize || NamedLogLevel::of_value(level) is None ==> badge == level_label(level)
}

/// No label holds an escape character, and the label of a named level is
/// five characters wide.
pub proof fn lemma_label_is_plain(level: u8)
    ensures
        visible(level_label(level)) == level_label(level),
        NamedLogLevel::of_value(level) is Some ==> level_label(level).len() == 5,
{
    reveal_strlit("FATAL");
    reveal_strlit("ERROR");
    reveal_strlit(" WARN");
    reveal_strlit(" INFO");
    reveal_strlit("DEBUG");
    reveal_strlit("TRACE");
    reveal_strlit("LVL");
    lemma_decimal_is_digits(level as nat);
    lemma_visible_plain(level_label(level));
}

/// The badge of a level: its label, with the emphasis of the level where it
/// has a name and `colorize` is on.
pub fn format_level(level: u8, colorize: bool) -> (r: String)
    ensures
        is_badge(r@, level, colorize),
{
    proof {
        lemma_label_is_plain(level);
    }
    match NamedLogLevel::try_from(level) {
        Ok(NamedLogLevel::Fatal) => paint("FATAL", Emphasis::Inverted, colorize),
        Ok(NamedLogLevel::Error) => paint("ERROR", Emphasis::Red, colorize),
        Ok(NamedLogLevel::Warn) => paint(" WARN", Emphasis::Magenta, colorize),
        Ok(NamedLogLevel::Info) => paint(" INFO", Emphasis::Cyan, colorize),
        Ok(NamedLogLevel::Debug) => paint("DEBUG", Emphasis::Yellow, colorize),
        Ok(NamedLogLevel::Trace) => paint("TRACE", Emphasis::White, colorize),
        Err(_) => {
            let mut out: Vec<char> = Vec::new();
            push_str(&mut out, "LVL");
            push_decimal(&mut out, level as u64);
            text_of(&out)
        },
    }
}

/// `s` with each of its lines set in by four spaces.
pub open spec fn indented(s: Seq<char>) -> Seq<char> {
    "    "@ + joined(lines_of(s), "\n    "@)
}

fn indent_chars(v: &Vec<char>) -> (r: Vec<char>)
    ensures
        r@ == indented(v@),
{
    let lines = split_lines(v);
    let body = join(&lines, "\n    ");
    let mut out: Vec<char> = Vec::new();
    push_str(&mut out, "    ");
    push_all(&mut out, &body);
    out
}

/// Sets each line of `s` in by four spaces.
pub fn indent(s: &str) -> (r: String)
    ensures
        r@ == indented(s@),
{
    let v = chars_of(s);
    let out = indent_chars(&v);
    text_of(&out)
}

/// The text of a value before any quotes: a string as it is, any other
/// value as indented JSON.
pub open spec fn raw_text(value: Json) -> Seq<char> {
    match value {
        Json::Text(s) => s,
        _ => json_pretty(value),
    }
}

/// Whether a value is shown in quotes: a string that is empty or holds a
/// space.
pub open spec fn needs_quotes(value: Json) -> bool {
    value matches Json::Text(s) && (s.len() == 0 || has_char(s, ' '))
}

/// `s` between double quotes.
pub open spec fn quoted(s: Seq<char>) -> Seq<char> {
    seq!['"'] + s + seq!['"']
}

/// A value as it is shown, in the header line or below it.
pub open spec fn stringified(value: Json) -> Seq<char> {
    if needs_quotes(value) {
        quoted(raw_text(value))
    } else {
        raw_text(value)
    }
}

/// Whether a value is shown below the header line: where it would hold a
/// line feed in the header line, or be longer than 50 characters.
pub open spec fn is_block(value: Json) -> bool {
    has_char(stringified(value), '\n') || stringified(value).len() > 50
}

/// One extra field in the header line: its key, `=`, its value.
pub open spec fn inline_item(key: Seq<char>, value: Json) -> Seq<char> {
    key + seq!['='] + stringified(value)
}

/// One extra field below the header line: its key, a colon and a space, its
/// value, every line set in.
pub open spec fn block_item(key: Seq<char>, value: Json) -> Seq<char> {
    indented(key + ": "@ + stringified(value))
}

/// The extra fields that stand in the header line, in their order.
pub open spec fn inline_items(entries: Seq<(Seq<char>, Json)>) -> Seq<Seq<char>>
    decreases entries.len(),
{
    if entries.len() == 0 {
        Seq::empty()
    } else if is_block(entries.last().1) {
        inline_items(entries.drop_last())
    } else {
        inline_items(entries.drop_last()).push(inline_item(entries.last().0, entries.last().1))
    }
}

/// The extra fields that stand below the header line, in their order.
pub open spec fn block_items(entries: Seq<(Seq<char>, Json)>) -> Seq<Seq<char>>
    decreases entries.len(),
{
    if entries.len() == 0 {
        Seq::empty()
    } else if is_block(entries.last().1) {
        block_items(entries.drop_last()).push(block_item(entries.last().0, entries.last().1))
    } else {
        block_items(entries.drop_last())
    }
}

/// What follows the message of a record: the inline fields in one pair of
/// brackets, with commas between them; the end of the header line; then the
/// block fields, with a line of two dashes between them and a line end behind
/// the last. Without inline fields there are no brackets, without block
/// fields nothing behind the header line.
pub open spec fn extras_text(entries: Seq<(Seq<char>, Json)>) -> Seq<char> {
    let inline = inline_items(entries);
    let blocks = block_items(entries);
    let group = if inline.len() > 0 {
        " ("@ + joined(inline, ","@) + ")"@
    } else {
        Seq::empty()
    };
    let below = if blocks.len() > 0 {
        joined(blocks, "\n    --\n"@) + "\n"@
    } else {
        Seq::empty()
    };
    group + "\n"@ + below
}

/// The extra fields of a record as display text (see [`extras_text`]).
pub fn format_extras(extra_fields: &serde_json::Map<String, serde_json::Value>) -> (r: String)
    ensures
        r@ == extras_text(map_entries(*extra_fields)),
{
    let members = members_of(extra_fields);
    let ghost entries = map_entries(*extra_fields);
    let mut details: Vec<Vec<char>> = Vec::new();
    let mut extras: Vec<Vec<char>> = Vec::new();
    let mut i: usize = 0;
    while i < members.len()
        invariant
            i <= members.len(),
            entries == entries_of(members@),
            views(extras@) == inline_items(entries.take(i as int)),
            views(details@) == block_items(entries.take(i as int)),
        decreases members.len() - i,
    {
        let ghost entry = entries[i as int];
        assert(entries.take(i as int + 1).drop_last() =~= entries.take(i as int));
        let shape = shape_of(&members[i].1);
        let (raw, quote) = match shape {
            Shape::Text(s) => {
                let raw = chars_of(s.as_str());
                let quote = raw.len() == 0 || contains_char(&raw, ' ');
                (raw, quote)
            },
            _ => {
                let text = pretty_text(&members[i].1);
                (chars_of(text.as_str()), false)
            },
        };
        let mut shown: Vec<char> = Vec::new();
        if quote {
            shown.push('"');
            push_all(&mut shown, &raw);
            shown.push('"');
        } else {
            push_all(&mut shown, &raw);
        }
        assert(shown@ =~= stringified(entry.1));
        let mut item = chars_of(members[i].0.as_str());
        if contains_char(&shown, '\n') || shown.len() > 50 {
            push_str(&mut item, ": ");
            push_all(&mut item, &shown);
            let block = indent_chars(&item);
            details.push(block);
        } else {
            item.push('=');
            push_all(&mut item, &shown);
            assert(item@ =~= inline_item(entry.0, entry.1));
            extras.push(item);
        }
        i = i + 1;
    }
    assert(entries.take(members.len() as int) =~= entries);
    let mut out: Vec<char> = Vec::new();
    if extras.len() > 0 {
        push_str(&mut out, " (");
        let group = join(&extras, ",");
        push_all(&mut out, &group);
        push_str(&mut out, ")");
    }
    push_str(&mut out, "\n");
    if details.len() > 0 {
        let below = join(&details, "\n    --\n");
        push_all(&mut out, &below);
        push_str(&mut out, "\n");
    }
    text_of(&out)
}

/// The two pieces of a rendered record that may carry emphasis, each as it
/// is written.
pub struct Paint {
    pub badge: Seq<char>,
    pub message: Seq<char>,
}

impl RecordView {
    /// The header: the timestamp in square brackets, the badge, then
    /// `name/pid on hostname`, then the message.
    pub open spec fn header(self, badge: Seq<char>, message: Seq<char>) -> Seq<char> {
        "["@ + self.timestamp() + "] "@ + badge + ": "@ + self.name + "/"@ + decimal(
            self.process_identifier as nat,
        ) + " on "@ + self.hostname + ": "@ + message
    }

    /// The record as display text, its badge and message as `paint` has them.
    pub open spec fn rendered(self, paint: Paint) -> Seq<char> {
        self.header(paint.badge, paint.message) + extras_text(self.extras)
    }

    /// The badge and the message of the record without any emphasis.
    pub open spec fn plain(self) -> Paint {
        Paint { badge: level_label(self.level), message: self.message }
    }

    /// Whether `paint` holds the badge and the message of this record, with
    /// or without emphasis.
    pub open spec fn painted_by(self, paint: Paint, colorize: bool) -> bool {
        &&& is_badge(paint.badge, self.level, colorize)
        &&& paints(paint.message, self.message, colorize)
    }

    /// Whether `text` is this record as display text: rendered with its
    /// badge and message painted in some way that `colorize` allows, which
    /// is without any emphasis where `colorize` is off.
    pub open spec fn shown_as(self, text: Seq<char>, colorize: bool) -> bool {
        &&& exists|paint: Paint| #[trigger]
            self.painted_by(paint, colorize) && text == self.rendered(paint)
        &&& !colorize ==> text == self.rendered(self.plain())
    }
}

impl LogRecord {
    /// The record as display text: the header, then the extra fields (see
    /// [`RecordView::header`] and [`extras_text`]). Where `colorize` is on,
    /// the badge and the message carry emphasis.
    pub fn format(&self, _format: Format, colorize: bool) -> (r: String)
        ensures
            self@.shown_as(r@, colorize),
    {
        let level = format_level(self.level, colorize);
        let message = paint(self.message.as_str(), Emphasis::Cyan, colorize);
        let extras = format_extras(&self.extras);
        let time = self.time.to_text();
        let mut out: Vec<char> = Vec::new();
        push_str(&mut out, "[");
        push_str(&mut out, time.as_str());
        push_str(&mut out, "] ");
        push_str(&mut out, level.as_str());
        push_str(&mut out, ": ");
        push_str(&mut out, self.name.as_str());
        push_str(&mut out, "/");
        push_decimal(&mut out, self.process_identifier as u64);
        push_str(&mut out, " on ");
        push_str(&mut out, self.hostname.as_str());
        push_str(&mut out, ": ");
        push_str(&mut out, message.as_str());
        push_str(&mut out, extras.as_str());
        proof {
            let paint = Paint { badge: level@, message: message@ };
            assert(self@.painted_by(paint, colorize));
        }
        text_of(&out)
    }
}

/// However a record is painted, its display text starts with the timestamp
/// in square brackets, and holds the name, the process identifier in decimal
/// notation and the host name, each character for character.
pub proof fn lemma_header_holds_fields(record: RecordView, text: Seq<char>, colorize: bool)
    requires
        record.shown_as(text, colorize),
    ensures
        ("["@ + record.timestamp() + "] "@).is_prefix_of(text),
        occurs_in(record.name, text),
        occurs_in(decimal(record.process_identifier as nat), text),
        occurs_in(record.hostname, text),
{
    let paint = choose|paint: Paint| #[trigger]
        record.painted_by(paint, colorize) && text == record.rendered(paint);
    let start = "["@ + record.timestamp() + "] "@;
    let pid = decimal(record.process_identifier as nat);
    let rest = " on "@ + record.hostname + ": "@ + paint.message + extras_text(record.extras);
    let to_name = start + paint.badge + ": "@;
    assert(text =~= to_name + record.name + ("/"@ + pid + rest));
    lemma_occurs_between(to_name, record.name, "/"@ + pid + rest);
    let to_pid = to_name + record.name + "/"@;
    assert(text =~= to_pid + pid + rest);
    lemma_occurs_between(to_pid, pid, rest);
    let to_host = to_pid + pid + " on "@;
    let behind = ": "@ + paint.message + extras_text(record.extras);
    assert(text =~= to_host + record.hostname + behind);
    lemma_occurs_between(to_host, record.hostname, behind);
}

/// All of an extra field stands either in the header line or below it.
pub proof fn lemma_every_field_is_laid_out(entries: Seq<(Seq<char>, Json)>)
    ensures
        inline_items(entries).len() + block_items(entries).len() == entries.len(),
    decreases entries.len(),
{
    if entries.len() > 0 {
        lemma_every_field_is_laid_out(entries.drop_last());
    }
}

/// A field stands where its value belongs: below the header line, as a
/// block, where the value is a block, and in the header line where not.
pub proof fn lemma_field_is_laid_out(entries: Seq<(Seq<char>, Json)>, i: int)
    requires
        0 <= i < entries.len(),
    ensures
        is_block(entries[i].1) ==> block_items(entries).contains(
            block_item(entries[i].0, entries[i].1),
        ),
        !is_block(entries[i].1) ==> inline_items(entries).contains(
            inline_item(entries[i].0, entries[i].1),
        ),
    decreases entries.len(),
{
    let front = entries.drop_last();
    if i < entries.len() - 1 {
        lemma_field_is_laid_out(front, i);
        if is_block(entries[i].1) {
            let item = block_item(entries[i].0, entries[i].1);
            let j = choose|j: int| 0 <= j < block_items(front).len() && block_items(front)[j] == item;
            assert(block_items(entries)[j] == item);
        } else {
            let item = inline_item(entries[i].0, entries[i].1);
            let j = choose|j: int|
                0 <= j < inline_items(front).len() && inline_items(front)[j] == item;
            assert(inline_items(entries)[j] == item);
        }
    } else {
        if is_block(entries[i].1) {
            assert(block_items(entries).last() == block_item(entries[i].0, entries[i].1));
        } else {
            assert(inline_items(entries).last() == inline_item(entries[i].0, entries[i].1));
        }
    }
}

/// A string of 1 to 50 characters that holds neither a space nor a line
/// feed stands in the header line, without quotes.
pub proof fn lemma_word_is_inline_unquoted(key: Seq<char>, word: Seq<char>)
    requires
        0 < word.len() <= 50,
        !has_char(word, ' '),
        !has_char(word, '\n'),
    ensures
        !is_block(Json::Text(word)),
        inline_item(key, Json::Text(word)) == key + seq!['='] + word,
        extras_text(seq![(key, Json::Text(word))]) == " ("@ + (key + seq!['='] + word) + ")"@
            + "\n"@,
{
    let entries = seq![(key, Json::Text(word))];
    assert(inline_items(entries.drop_last()) =~= Seq::<Seq<char>>::empty());
    assert(block_items(entries.drop_last()) =~= Seq::<Seq<char>>::empty());
}

/// A string of at most 48 characters that holds a space and no line feed
/// stands in the header line, in quotes.
pub proof fn lemma_phrase_is_inline_quoted(key: Seq<char>, phrase: Seq<char>)
    requires
        phrase.len() <= 48,
        has_char(phrase, ' '),
        !has_char(phrase, '\n'),
    ensures
        !is_block(Json::Text(phrase)),
        inline_item(key, Json::Text(phrase)) == key + seq!['='] + quoted(phrase),
        extras_text(seq![(key, Json::Text(phrase))]) == " ("@ + (key + seq!['='] + quoted(phrase))
            + ")"@ + "\n"@,
{
    let shown = quoted(phrase);
    assert forall|i: int| 0 <= i < shown.len() implies shown[i] != '\n' by {}
    let entries = seq![(key, Json::Text(phrase))];
    assert(inline_items(entries.drop_last()) =~= Seq::<Seq<char>>::empty());
    assert(block_items(entries.drop_last()) =~= Seq::<Seq<char>>::empty());
}

/// A value that would be longer than 50 characters in the header line, or
/// hold a line feed there, stands below it and not in it.
pub proof fn lemma_long_value_is_block(key: Seq<char>, value: Json)
    requires
        stringified(value).len() > 50 || has_char(stringified(value), '\n'),
    ensures
        is_block(value),
        inline_items(seq![(key, value)]).len() == 0,
        extras_text(seq![(key, value)]) == "\n"@ + block_item(key, value) + "\n"@,
{
    let entries = seq![(key, value)];
    assert(inline_items(entries.drop_last()) =~= Seq::<Seq<char>>::empty());
    assert(block_items(entries.drop_last()) =~= Seq::<Seq<char>>::empty());
}

} // verus!
