//! The wire encoding of a record: one TOML document with the keys `line`,
//! `prog_name` and `priority`, each a string, and the table `time` with the
//! integers `secs` and `nanos`.
//!
//! Reading and writing TOML is the `toml` crate's work; which keys make a
//! record is decided here.

use crate::record::{
    lemma_priority_names, priority_name, priority_named, LogLine, LogPriority, Record, Timestamp,
    NANOS_PER_SEC,
};
use vstd::prelude::*;

verus! {

/// `toml::Value`, a value of any TOML type. Nothing is read out of one
/// here but through [`table_get`].
#[verifier::external_type_specification]
#[verifier::external_body]
pub struct ExValue(toml::Value);

/// `toml::map::Map`, of which `toml::Table` is the one with strings for keys
/// and values for values. What a table holds goes by [`table_items`].
#[verifier::external_type_specification]
#[verifier::external_body]
#[verifier::reject_recursive_types(K)]
#[verifier::reject_recursive_types(V)]
pub struct ExTable<K, V>(toml::map::Map<K, V>);

/// `toml::de::Error`, why a text is no TOML document. Only that there is
/// one is used.
#[verifier::external_type_specification]
#[verifier::external_body]
pub struct ExReadError(toml::de::Error);

/// `toml::ser::Error`, why a document was not written. Only that there is
/// one is used.
#[verifier::external_type_specification]
#[verifier::external_body]
pub struct ExWriteError(toml::ser::Error);

/// What a TOML value holds, as far as a record's encoding uses it.
pub enum Item {
    Text(Seq<char>),
    Integer(i64),
    Table(Map<Seq<char>, Item>),
    /// A float, a boolean, a date or an array.
    Other,
}

/// The entries of a table, by key.
pub type Entries = Map<Seq<char>, Item>;

/// A value taken out of a table, or about to go into one.
enum Field {
    Text(String),
    Integer(i64),
    Table(toml::Table),
    /// A float, a boolean, a date or an array.
    Other,
}

/// The entries that `table` holds.
pub uninterp spec fn table_items(table: toml::Table) -> Entries;

/// The entries of the document that `text` is in TOML; none where `text` is
/// no TOML document.
pub uninterp spec fn parsed_document(text: Seq<char>) -> Option<Entries>;

/// The TOML document that the `toml` crate writes for a table with the
/// entries `items`; none where it refuses to write one.
pub uninterp spec fn written_document(items: Entries) -> Option<Seq<char>>;

impl Field {
    /// What the field holds.
    spec fn item(self) -> Item {
        match self {
            Field::Text(text) => Item::Text(text@),
            Field::Integer(number) => Item::Integer(number),
            Field::Table(table) => Item::Table(table_items(table)),
            Field::Other => Item::Other,
        }
    }
}

/// Whether `item` is a string or an integer.
spec fn scalar(item: Item) -> bool {
    item is Text || item is Integer
}

/// Whether `items` are strings and integers, and tables of strings and
/// integers, only.
spec fn writable(items: Entries) -> bool {
    forall|key: Seq<char>| #[trigger]
        items.contains_key(key) ==> scalar(items[key]) || (items[key] matches Item::Table(inner)
            && forall|k: Seq<char>| #[trigger] inner.contains_key(k) ==> scalar(inner[k]))
}

/// `toml::map::Map::new`, for a table: a table without entries.
#[verifier::external_body]
fn table_new() -> (fresh: toml::Table)
    ensures
        table_items(fresh) == Entries::empty(),
{
    toml::Table::new()
}

/// Whether `items` are `count` entries, no more and no fewer.
spec fn counted(items: Entries, count: nat) -> bool {
    items.dom().finite() && items.len() == count
}

/// `toml::map::Map::len`, for a table: the number of its entries.
#[verifier::external_body]
fn table_len(table: &toml::Table) -> (count: usize)
    ensures
        counted(table_items(*table), count as nat),
{
    table.len()
}

/// `toml::map::Map::get`, for a table: a copy of the value under `key`, if
/// the table has that key. A string, an integer and a table come back as
/// what they hold; of any other value only that it is one.
#[verifier::external_body]
fn table_get(table: &toml::Table, key: &str) -> (found: Option<Field>)
    ensures
        match found {
            Some(field) => table_items(*table).contains_key(key@) && table_items(*table)[key@]
                == field.item(),
            None => !table_items(*table).contains_key(key@),
        },
{
    match table.get(key).cloned() {
        None => None,
        Some(toml::Value::String(text)) => Some(Field::Text(text)),
        Some(toml::Value::Integer(number)) => Some(Field::Integer(number)),
        Some(toml::Value::Table(inner)) => Some(Field::Table(inner)),
        Some(toml::Value::Float(_)) => Some(Field::Other),
        Some(toml::Value::Boolean(_)) => Some(Field::Other),
        Some(toml::Value::Datetime(_)) => Some(Field::Other),
        Some(toml::Value::Array(_)) => Some(Field::Other),
    }
}

/// `toml::map::Map::insert`, for a table: afterwards the table holds `field`
/// under `key`, in place of what it held there, and its other entries as
/// before.
#[verifier::external_body]
fn table_insert(table: &mut toml::Table, key: &str, field: Field)
    requires
        !(field is Other),
    ensures
        table_items(*final(table)) == table_items(*old(table)).insert(key@, field.item()),
{
    match field {
        Field::Text(text) => table.insert(key.to_string(), toml::Value::String(text)),
        Field::Integer(number) => table.insert(key.to_string(), toml::Value::Integer(number)),
        Field::Table(inner) => table.insert(key.to_string(), toml::Value::Table(inner)),
        Field::Other => None,
    };
}

/// `toml::from_str`, asked for a table: the table of the document that
/// `text` is, or the crate's error where `text` is no TOML document.
#[verifier::external_body]
fn parse_document(text: &str) -> (parsed: Result<toml::Table, toml::de::Error>)
    ensures
        match parsed {
            Ok(table) => parsed_document(text@) == Some(table_items(table)),
            Err(_) => parsed_document(text@) is None,
        },
{
    toml::from_str::<toml::Table>(text)
}

/// `toml::to_string`, given a table: the document that the crate writes for
/// it, or the crate's error. Tables write their entries in the order of
/// their keys, so that the text follows from the entries.
#[verifier::external_body]
fn write_document(table: &toml::Table) -> (written: Result<String, toml::ser::Error>)
    requires
        writable(table_items(*table)),
    ensures
        match written {
            Ok(text) => written_document(table_items(*table)) == Some(text@),
            Err(_) => written_document(table_items(*table)) is None,
        },
{
    toml::to_string(table)
}

/// Why a packet is no record.
#[derive(Clone, Copy, Debug, PartialEq, Eq, Structural)]
pub enum DecodeError {
    /// The packet is no TOML document.
    Malformed,
    /// There is no string under `line`.
    Line,
    /// There is no string under `prog_name`.
    ProgName,
    /// There is no string under `priority`, or it names no priority.
    Priority,
    /// There is no table under `time` that holds `secs` and `nanos`, both
    /// integers in range, and nothing else.
    Time,
}

/// Why a record has no encoding.
#[derive(Clone, Copy, Debug, PartialEq, Eq, Structural)]
pub enum EncodeError {
    /// The seconds of the timestamp do not fit a TOML integer.
    TimeOutOfRange,
    /// The `toml` crate refused to write the document.
    Unwritable,
}

/// The string under `key`, if `items` has one there.
pub open spec fn text_at(items: Entries, key: Seq<char>) -> Option<Seq<char>> {
    if items.contains_key(key) {
        match items[key] {
            Item::Text(text) => Some(text),
            _ => None,
        }
    } else {
        None
    }
}

/// The priority that the string under `priority` names, if there is such a
/// string and it names one.
pub open spec fn priority_at(items: Entries) -> Option<LogPriority> {
    match text_at(items, "priority"@) {
        Some(name) => priority_named(name),
        None => None,
    }
}

/// The seconds and nanoseconds that `fields` hold as a timestamp, whole
/// seconds in the nanoseconds carried over; none unless `fields` are `secs`,
/// an integer that is not negative, `nanos`, an integer that fits 32 bits
/// unsigned, and nothing else.
pub open spec fn time_in(fields: Entries) -> Option<(nat, nat)> {
    if fields.dom() =~= set!["secs"@, "nanos"@] {
        match (fields["secs"@], fields["nanos"@]) {
            (Item::Integer(secs), Item::Integer(nanos)) => if 0 <= secs && 0 <= nanos
                <= u32::MAX {
                Some(
                    (
                        (secs + (nanos as int) / (NANOS_PER_SEC as int)) as nat,
                        ((nanos as int) % (NANOS_PER_SEC as int)) as nat,
                    ),
                )
            } else {
                None
            },
            _ => None,
        }
    } else {
        None
    }
}

/// The timestamp in the table under `time`, if there is one.
pub open spec fn time_at(items: Entries) -> Option<(nat, nat)> {
    if items.contains_key("time"@) {
        match items["time"@] {
            Item::Table(fields) => time_in(fields),
            _ => None,
        }
    } else {
        None
    }
}

/// The record that a document with the entries `items` encodes, or the first
/// of `line`, `prog_name`, `priority` and `time` that is not as it must be.
/// Other keys of the document are passed over.
pub open spec fn decoded(items: Entries) -> Result<Record, DecodeError> {
    match (text_at(items, "line"@), text_at(items, "prog_name"@), priority_at(items), time_at(items)) {
        (None, _, _, _) => Err(DecodeError::Line),
        (Some(_), None, _, _) => Err(DecodeError::ProgName),
        (Some(_), Some(_), None, _) => Err(DecodeError::Priority),
        (Some(_), Some(_), Some(_), None) => Err(DecodeError::Time),
        (Some(text), Some(source_name), Some(priority), Some(time)) => Ok(
            Record { text, source_name, priority, secs: time.0, nanos: time.1 },
        ),
    }
}

/// The record that `packet` encodes, or why it encodes none.
pub open spec fn decoded_packet(packet: Seq<char>) -> Result<Record, DecodeError> {
    match parsed_document(packet) {
        Some(items) => decoded(items),
        None => Err(DecodeError::Malformed),
    }
}

/// The entries of the `time` table of a record.
pub open spec fn time_items(record: Record) -> Entries {
    Entries::empty().insert("secs"@, Item::Integer(record.secs as i64)).insert(
        "nanos"@,
        Item::Integer(record.nanos as i64),
    )
}

/// The entries of the document that encodes `record`.
pub open spec fn wire_items(record: Record) -> Entries {
    Entries::empty().insert("line"@, Item::Text(record.text)).insert(
        "prog_name"@,
        Item::Text(record.source_name),
    ).insert("priority"@, Item::Text(priority_name(record.priority))).insert(
        "time"@,
        Item::Table(time_items(record)),
    )
}

/// The packet that encodes `record`, or why there is none.
pub open spec fn encoded(record: Record) -> Result<Seq<char>, EncodeError> {
    if record.secs > i64::MAX {
        Err(EncodeError::TimeOutOfRange)
    } else {
        match written_document(wire_items(record)) {
            Some(text) => Ok(text),
            None => Err(EncodeError::Unwritable),
        }
    }
}

/// The outcome of encoding, with the packet as the text it holds.
pub open spec fn packet_view(packet: Result<String, EncodeError>) -> Result<
    Seq<char>,
    EncodeError,
> {
    match packet {
        Ok(text) => Ok(text@),
        Err(error) => Err(error),
    }
}

/// The outcome of decoding, with the record as what it stands for.
pub open spec fn outcome_view(outcome: Result<LogLine, DecodeError>) -> Result<
    Record,
    DecodeError,
> {
    match outcome {
        Ok(record) => Ok(record@),
        Err(error) => Err(error),
    }
}

/// A packet whose priority is not one of the four encodes no record.
///
/// A document decodes only if it has a string under `priority` that names a
/// priority, and the record then has that priority. Anything else under
/// `priority`, or nothing, makes decoding fail: no priority stands in for an
/// unknown one.
pub proof fn lemma_unknown_priority_rejected(packet: Seq<char>, items: Entries)
    ensures
        priority_at(items) is None ==> decoded(items) is Err,
        decoded(items) matches Ok(record) ==> text_at(items, "priority"@) == Some(
            priority_name(record.priority),
        ),
        parsed_document(packet) == Some(items) && priority_at(items) is None ==> decoded_packet(
            packet,
        ) is Err,
{
    if let Ok(record) = decoded(items) {
        lemma_priority_names(record.priority, text_at(items, "priority"@).unwrap());
    }
}

/// The entries that encode a record decode to the record.
///
/// This holds of every record that has an encoding: one whose seconds fit a
/// TOML integer and whose nanoseconds stay below one second, as those of a
/// [`Timestamp`] do.
pub proof fn lemma_wire_round_trip(record: Record)
    requires
        record.secs <= i64::MAX,
        record.nanos < NANOS_PER_SEC,
    ensures
        decoded(wire_items(record)) == Ok::<Record, DecodeError>(record),
{
    reveal_strlit("line");
    reveal_strlit("prog_name");
    reveal_strlit("priority");
    reveal_strlit("time");
    reveal_strlit("secs");
    reveal_strlit("nanos");
    assert("line"@[0] == 'l' && "time"@[0] == 't');
    assert("line"@.len() == 4 && "prog_name"@.len() == 9 && "priority"@.len() == 8);
    assert("secs"@.len() == 4 && "nanos"@.len() == 5);
    assert(time_items(record).dom() =~= set!["secs"@, "nanos"@]);
    lemma_priority_names(record.priority, priority_name(record.priority));
}

/// A table holds `secs`, `nanos` and nothing else just when it holds the two
/// and has two entries.
proof fn lemma_two_fields(fields: Entries, count: nat)
    requires
        counted(fields, count),
    ensures
        fields.dom() =~= set!["secs"@, "nanos"@] <==> fields.contains_key("secs"@)
            && fields.contains_key("nanos"@) && count == 2,
{
    reveal_strlit("secs");
    reveal_strlit("nanos");
    assert("secs"@.len() == 4 && "nanos"@.len() == 5);
    let both = set!["secs"@, "nanos"@];
    if fields.contains_key("secs"@) && fields.contains_key("nanos"@) && count == 2 {
        let rest = fields.dom().remove("secs"@).remove("nanos"@);
        assert(rest.len() == 0);
        assert forall|key: Seq<char>| fields.dom().contains(key) implies both.contains(key) by {
            if key != "secs"@ && key != "nanos"@ {
                assert(rest.contains(key));
            }
        }
    }
    if fields.dom() =~= both {
        assert(both =~= Set::<Seq<char>>::empty().insert("secs"@).insert("nanos"@));
    }
}

/// The timestamp that the table `fields` holds, if it holds one.
fn read_time(fields: &toml::Table) -> (time: Option<Timestamp>)
    ensures
        match time {
            Some(t) => time_in(table_items(*fields)) == Some((t.seconds(), t.subsec())),
            None => time_in(table_items(*fields)) is None,
        },
{
    let secs = table_get(fields, "secs");
    let nanos = table_get(fields, "nanos");
    let len = table_len(fields);
    proof {
        lemma_two_fields(table_items(*fields), len as nat);
    }
    if len != 2 {
        return None;
    }
    match (secs, nanos) {
        (Some(Field::Integer(secs)), Some(Field::Integer(nanos))) => {
            if secs < 0 || nanos < 0 || nanos > u32::MAX as i64 {
                None
            } else {
                Timestamp::new(secs as u64, nanos as u32)
            }
        },
        _ => None,
    }
}

/// Reads a record out of a parsed document.
///
/// The document must hold a string under `line`, one under `prog_name`, one
/// under `priority` that names a priority, and under `time` a table of the
/// integers `secs` and `nanos` and nothing else. The error names the first of
/// the four that is not so.
pub fn decode_table(table: &toml::Table) -> (outcome: Result<LogLine, DecodeError>)
    ensures
        outcome_view(outcome) == decoded(table_items(*table)),
{
    let line = match table_get(table, "line") {
        Some(Field::Text(text)) => text,
        _ => {
            return Err(DecodeError::Line);
        },
    };
    let prog_name = match table_get(table, "prog_name") {
        Some(Field::Text(text)) => text,
        _ => {
            return Err(DecodeError::ProgName);
        },
    };
    let priority = match table_get(table, "priority") {
        Some(Field::Text(name)) => match LogPriority::from_name(name.as_str()) {
            Some(priority) => priority,
            None => {
                return Err(DecodeError::Priority);
            },
        },
        _ => {
            return Err(DecodeError::Priority);
        },
    };
    let time = match table_get(table, "time") {
        Some(Field::Table(fields)) => match read_time(&fields) {
            Some(time) => time,
            None => {
                return Err(DecodeError::Time);
            },
        },
        _ => {
            return Err(DecodeError::Time);
        },
    };
    Ok(LogLine { line, prog_name, priority, time })
}

/// Decodes one packet: the whole of what a producer sent over one
/// connection.
///
/// A packet that is no TOML document is `Malformed`; for a document, see
/// [`decode_table`].
pub fn decode(packet: &str) -> (outcome: Result<LogLine, DecodeError>)
    ensures
        outcome_view(outcome) == decoded_packet(packet@),
{
    match parse_document(packet) {
        Ok(table) => decode_table(&table),
        Err(_) => Err(DecodeError::Malformed),
    }
}

/// The table that encodes `record`.
fn wire_table(record: &LogLine) -> (table: toml::Table)
    requires
        record@.secs <= i64::MAX,
    ensures
        table_items(table) == wire_items(record@),
{
    let mut time = table_new();
    table_insert(&mut time, "secs", Field::Integer(record.time.as_secs() as i64));
    table_insert(&mut time, "nanos", Field::Integer(record.time.subsec_nanos() as i64));
    let mut table = table_new();
    table_insert(&mut table, "line", Field::Text(record.line.clone()));
    table_insert(&mut table, "prog_name", Field::Text(record.prog_name.clone()));
    table_insert(&mut table, "priority", Field::Text(record.priority.name().to_string()));
    table_insert(&mut table, "time", Field::Table(time));
    table
}

/// The packet for what the `toml` crate made of a record's table.
pub fn packet_of(written: Result<String, toml::ser::Error>) -> (packet: Result<
    String,
    EncodeError,
>)
    ensures
        match written {
            Ok(text) => packet == Ok::<String, EncodeError>(text),
            Err(_) => packet == Err::<String, EncodeError>(EncodeError::Unwritable),
        },
{
    match written {
        Ok(text) => Ok(text),
        Err(_) => Err(EncodeError::Unwritable),
    }
}

/// Encodes `record` as one packet.
///
/// A record whose seconds do not fit a TOML integer has no encoding. For any
/// other record the packet is the document that the `toml` crate writes for
/// the entries of [`wire_items`].
pub fn encode(record: &LogLine) -> (packet: Result<String, EncodeError>)
    ensures
        packet_view(packet) == encoded(record@),
{
    if record.time.as_secs() > i64::MAX as u64 {
        return Err(EncodeError::TimeOutOfRange);
    }
    let table = wire_table(record);
    packet_of(write_document(&table))
}

} // verus!
