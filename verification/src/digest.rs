//! The content digest of the device collection: a hash of its canonical
//! JSON text, in which the records stand in the order of their tags.

use vstd::prelude::*;
use vstd::string::*;
use vstd::std_specs::hash::DefaultHasherAdditionalSpecFns;
use std::collections::hash_map::DefaultHasher;
use std::hash::Hasher;
use crate::device::{family_name, ConnectedDevice, DeviceView};
use crate::entry::{EntryView, TyCmdListEntry};
use crate::text::{concat_all, concat_texts, decimal, decimal_text, join};

verus! {

/// The character that writes the hexadecimal digit `d` in lower case.
pub open spec fn hex_lower_char(d: int) -> char {
    if d < 10 {
        ((48 + d) as u8) as char
    } else {
        ((87 + d) as u8) as char
    }
}

/// How a character stands in a JSON string literal: a double quote and a
/// backslash behind a backslash; backspace, tab, line feed, form feed and
/// carriage return as `\b`, `\t`, `\n`, `\f` and `\r`; any other
/// character below U+0020 as `\u00` and its two hexadecimal digits in lower
/// case; every other character as it is.
pub open spec fn escaped_char(c: char) -> Seq<char> {
    let n = c as u32;
    if n == 0x22 {
        seq!['\\', '"']
    } else if n == 0x5C {
        seq!['\\', '\\']
    } else if n == 0x08 {
        seq!['\\', 'b']
    } else if n == 0x09 {
        seq!['\\', 't']
    } else if n == 0x0A {
        seq!['\\', 'n']
    } else if n == 0x0C {
        seq!['\\', 'f']
    } else if n == 0x0D {
        seq!['\\', 'r']
    } else if n < 0x20 {
        seq!['\\', 'u', '0', '0', hex_lower_char(n as int / 16), hex_lower_char(n as int % 16)]
    } else {
        seq![c]
    }
}

/// The characters of a text as they stand in a JSON string literal.
pub open spec fn escaped_text(text: Seq<char>) -> Seq<char>
    decreases text.len(),
{
    if text.len() == 0 {
        Seq::empty()
    } else {
        escaped_text(text.drop_last()) + escaped_char(text.last())
    }
}

/// The JSON string literal that writes `text`: its escaped characters
/// between double quotes.
pub open spec fn json_string(text: Seq<char>) -> Seq<char> {
    seq!['"'] + escaped_text(text) + seq!['"']
}

/// `serde_json::to_string` at the type `str`: writes `text` as a JSON string
/// literal. The contract states the literal character by character, as the
/// serializer's escape table has it.
#[verifier::external_body]
fn quote(text: &str) -> (quoted: String)
    ensures
        quoted@ == json_string(text@),
{
    serde_json::to_string(text).unwrap_or_default()
}

/// The parts in order, with a comma between each two.
pub open spec fn joined(parts: Seq<Seq<char>>) -> Seq<char>
    decreases parts.len(),
{
    if parts.len() == 0 {
        Seq::empty()
    } else if parts.len() == 1 {
        parts[0]
    } else {
        joined(parts.drop_last()) + ","@ + parts.last()
    }
}

/// The JSON array whose items are written by `parts`.
pub open spec fn json_list(parts: Seq<Seq<char>>) -> Seq<char> {
    "["@ + joined(parts) + "]"@
}

/// The JSON object whose members are written by `members`.
pub open spec fn json_object(members: Seq<Seq<char>>) -> Seq<char> {
    "{"@ + joined(members) + "}"@
}

/// The JSON array of the string literals of `texts`.
pub open spec fn json_texts(texts: Seq<Seq<char>>) -> Seq<char> {
    json_list(Seq::new(texts.len(), |i: int| json_string(texts[i])))
}

/// The JSON array of the arrays of `lists`.
pub open spec fn json_text_lists(lists: Seq<Seq<Seq<char>>>) -> Seq<char> {
    json_list(Seq::new(lists.len(), |i: int| json_texts(lists[i])))
}

/// The pieces of the JSON object that writes a descriptor: the names of its
/// members, in their order, each before its value.
pub open spec fn entry_pieces(entry: EntryView) -> Seq<Seq<char>> {
    seq![
        "{\"action\":"@,
        json_string(entry.action),
        ",\"capabilities\":"@,
        json_texts(entry.capabilities),
        ",\"description\":"@,
        json_string(entry.description),
        ",\"interfaces\":"@,
        json_text_lists(entry.interfaces),
        ",\"location\":"@,
        json_string(entry.location),
        ",\"model\":"@,
        json_string(entry.model),
        ",\"serial\":"@,
        json_string(entry.serial),
        ",\"tag\":"@,
        json_string(entry.tag),
        "}"@,
    ]
}

/// The JSON object that writes a descriptor, its members in the order of
/// their names.
pub open spec fn entry_json(entry: EntryView) -> Seq<char> {
    concat_all(entry_pieces(entry))
}

/// The pieces of the JSON object that writes a record: the names of its
/// members, in their order, each before its value.
pub open spec fn record_pieces(record: DeviceView) -> Seq<Seq<char>> {
    seq![
        "{\"action_history\":"@,
        json_texts(record.action_history),
        ",\"device_type\":\""@,
        family_name(record.device_type),
        "\",\"ty_cmd_info\":"@,
        entry_json(record.ty_cmd_info),
        ",\"updated_at\":"@,
        decimal(record.updated_at) + "}"@,
    ]
}

/// The JSON object that writes a record, its members in the order of their
/// names.
pub open spec fn record_json(record: DeviceView) -> Seq<char> {
    concat_all(record_pieces(record))
}

/// The member of the collection's object that writes one record: its tag as
/// the name and the record as the value.
pub open spec fn record_member(record: DeviceView) -> Seq<char> {
    json_string(record.ty_cmd_info.tag) + ":"@ + record_json(record)
}

/// The canonical JSON text of a device collection: one object with a member
/// for each record, in the order in which the records stand.
pub open spec fn registry_json(records: Seq<DeviceView>) -> Seq<char> {
    json_object(Seq::new(records.len(), |i: int| record_member(records[i])))
}

/// The hash of a text: that of a default hasher which has been fed the
/// UTF-8 bytes of the text and then the byte `0xff`.
pub open spec fn text_digest(text: Seq<char>) -> u64 {
    DefaultHasher::spec_finish(seq![vstd::utf8::encode_utf8(text), seq![0xffu8]])
}

/// The content digest of a device collection.
pub open spec fn digest_of(records: Seq<DeviceView>) -> u64 {
    text_digest(registry_json(records))
}

/// The views of a list of records.
pub open spec fn records_view(records: Seq<ConnectedDevice>) -> Seq<DeviceView> {
    Seq::new(records.len(), |i: int| records[i]@)
}

/// Joins the parts, with a comma between each two.
fn join_parts(parts: &Vec<String>) -> (text: String)
    ensures
        text@ == joined(parts.deep_view()),
{
    let mut text = String::new();
    let mut i: usize = 0;
    assert(parts.deep_view().take(0) =~= Seq::<Seq<char>>::empty());
    while i < parts.len()
        invariant
            i <= parts.len(),
            text@ == joined(parts.deep_view().take(i as int)),
        decreases parts.len() - i,
    {
        let ghost done = parts.deep_view().take(i as int);
        let ghost next = parts.deep_view().take(i + 1);
        assert(next.drop_last() =~= done);
        assert(next.last() == parts@[i as int]@);
        if i > 0 {
            text.append(",");
        } else {
            assert(text@ + parts@[i as int]@ =~= parts@[i as int]@);
        }
        text.append(parts[i].as_str());
        i = i + 1;
    }
    assert(parts.deep_view().take(i as int) =~= parts.deep_view());
    text
}

/// Writes the JSON array whose items are written by `parts`.
fn write_list(parts: &Vec<String>) -> (text: String)
    ensures
        text@ == json_list(parts.deep_view()),
{
    let inner = join_parts(parts);
    join("[", inner.as_str()).concat("]")
}

/// Writes the JSON object whose members are written by `members`.
fn write_object(members: &Vec<String>) -> (text: String)
    ensures
        text@ == json_object(members.deep_view()),
{
    let inner = join_parts(members);
    join("{", inner.as_str()).concat("}")
}

/// Writes the JSON array of the string literals of `texts`.
fn write_texts(texts: &Vec<String>) -> (text: String)
    ensures
        text@ == json_texts(texts.deep_view()),
{
    let mut parts: Vec<String> = Vec::new();
    let mut i: usize = 0;
    while i < texts.len()
        invariant
            i <= texts.len(),
            parts.len() == i,
            forall|j: int| 0 <= j < i ==> parts@[j]@ == json_string(texts@[j]@),
        decreases texts.len() - i,
    {
        parts.push(quote(texts[i].as_str()));
        i = i + 1;
    }
    assert(parts.deep_view() =~= Seq::new(
        texts.deep_view().len(),
        |i: int| json_string(texts.deep_view()[i]),
    ));
    write_list(&parts)
}

/// Writes the JSON array of the arrays of `lists`.
fn write_text_lists(lists: &Vec<Vec<String>>) -> (text: String)
    ensures
        text@ == json_text_lists(lists.deep_view()),
{
    let mut parts: Vec<String> = Vec::new();
    let mut i: usize = 0;
    while i < lists.len()
        invariant
            i <= lists.len(),
            parts.len() == i,
            forall|j: int| 0 <= j < i ==> parts@[j]@ == json_texts(lists@[j].deep_view()),
        decreases lists.len() - i,
    {
        parts.push(write_texts(&lists[i]));
        i = i + 1;
    }
    assert(parts.deep_view() =~= Seq::new(
        lists.deep_view().len(),
        |i: int| json_texts(lists.deep_view()[i]),
    ));
    write_list(&parts)
}

/// Writes a descriptor as a JSON object.
pub fn write_entry(entry: &TyCmdListEntry) -> (text: String)
    ensures
        text@ == entry_json(entry@),
{
    let mut pieces: Vec<String> = Vec::new();
    pieces.push(String::from_str("{\"action\":"));
    pieces.push(quote(entry.action.as_str()));
    pieces.push(String::from_str(",\"capabilities\":"));
    pieces.push(write_texts(&entry.capabilities));
    pieces.push(String::from_str(",\"description\":"));
    pieces.push(quote(entry.description.as_str()));
    pieces.push(String::from_str(",\"interfaces\":"));
    pieces.push(write_text_lists(&entry.interfaces));
    pieces.push(String::from_str(",\"location\":"));
    pieces.push(quote(entry.location.as_str()));
    pieces.push(String::from_str(",\"model\":"));
    pieces.push(quote(entry.model.as_str()));
    pieces.push(String::from_str(",\"serial\":"));
    pieces.push(quote(entry.serial.as_str()));
    pieces.push(String::from_str(",\"tag\":"));
    pieces.push(quote(entry.tag.as_str()));
    pieces.push(String::from_str("}"));
    assert(pieces.deep_view() =~= entry_pieces(entry@));
    concat_texts(&pieces)
}

/// Writes a record as a JSON object.
pub fn write_record(record: &ConnectedDevice) -> (text: String)
    ensures
        text@ == record_json(record@),
{
    let mut pieces: Vec<String> = Vec::new();
    pieces.push(String::from_str("{\"action_history\":"));
    pieces.push(write_texts(&record.action_history));
    pieces.push(String::from_str(",\"device_type\":\""));
    pieces.push(String::from_str(record.device_type.name()));
    pieces.push(String::from_str("\",\"ty_cmd_info\":"));
    pieces.push(write_entry(&record.ty_cmd_info));
    pieces.push(String::from_str(",\"updated_at\":"));
    pieces.push(decimal_text(record.updated_at).concat("}"));
    assert(pieces.deep_view() =~= record_pieces(record@));
    concat_texts(&pieces)
}

/// Writes the canonical JSON text of a list of records.
pub fn write_records(records: &Vec<ConnectedDevice>) -> (text: String)
    ensures
        text@ == registry_json(records_view(records@)),
{
    let mut members: Vec<String> = Vec::new();
    let mut i: usize = 0;
    while i < records.len()
        invariant
            i <= records.len(),
            members.len() == i,
            forall|j: int| 0 <= j < i ==> members@[j]@ == record_member(records@[j]@),
        decreases records.len() - i,
    {
        let name = quote(records[i].ty_cmd_info.tag.as_str());
        let member = name.concat(":").concat(write_record(&records[i]).as_str());
        members.push(member);
        i = i + 1;
    }
    assert(members.deep_view() =~= Seq::new(
        records_view(records@).len(),
        |i: int| record_member(records_view(records@)[i]),
    ));
    write_object(&members)
}

/// The hash of a text, as a default hasher gives it for a string.
pub fn hash_text(text: &str) -> (digest: u64)
    ensures
        digest == text_digest(text@),
{
    let mut hasher = DefaultHasher::new();
    hasher.write(text.as_bytes());
    let mut tail: Vec<u8> = Vec::new();
    tail.push(0xff);
    hasher.write(tail.as_slice());
    assert(tail@ =~= seq![0xffu8]);
    assert(hasher@ =~= seq![text.spec_bytes(), seq![0xffu8]]);
    hasher.finish()
}

/// The content digest of a list of records.
pub fn records_digest(records: &Vec<ConnectedDevice>) -> (digest: u64)
    ensures
        digest == digest_of(records_view(records@)),
{
    let text = write_records(records);
    hash_text(text.as_str())
}

} // verus!
