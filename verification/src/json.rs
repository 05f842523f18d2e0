//! JSON documents as the discovery tool writes them, and the reading of a
//! descriptor from a document.

use vstd::prelude::*;
use vstd::string::*;
use crate::entry::{EntryView, TyCmdListEntry};
use crate::text::same_text;

verus! {

/// A JSON value. A number is kept as the text that writes it.
#[derive(Debug, PartialEq, Eq)]
pub enum Json {
    Null,
    Bool(bool),
    Number(String),
    Text(String),
    List(Vec<Json>),
    Object(Vec<(String, Json)>),
}

/// The mathematical value of a JSON value.
pub enum JsonView {
    Null,
    Bool(bool),
    Number(Seq<char>),
    Text(Seq<char>),
    List(Seq<JsonView>),
    Object(Seq<(Seq<char>, JsonView)>),
}

/// The mathematical value of a JSON value.
pub open spec fn json_view(json: Json) -> JsonView
    decreases json,
{
    match json {
        Json::Null => JsonView::Null,
        Json::Bool(b) => JsonView::Bool(b),
        Json::Number(n) => JsonView::Number(n@),
        Json::Text(t) => JsonView::Text(t@),
        Json::List(items) => JsonView::List(
            Seq::new(
                items@.len(),
                |i: int|
                    if 0 <= i < items@.len() {
                        json_view(items@[i])
                    } else {
                        JsonView::Null
                    },
            ),
        ),
        Json::Object(fields) => JsonView::Object(
            Seq::new(
                fields@.len(),
                |i: int|
                    if 0 <= i < fields@.len() {
                        (fields@[i].0@, json_view(fields@[i].1))
                    } else {
                        (Seq::empty(), JsonView::Null)
                    },
            ),
        ),
    }
}

impl View for Json {
    type V = JsonView;

    open spec fn view(&self) -> JsonView {
        json_view(*self)
    }
}

/// The JSON value that a text writes, or nothing where the text is not one
/// JSON value with at most white space around it.
pub uninterp spec fn json_document(text: Seq<char>) -> Option<JsonView>;

/// `serde_json::Value`, a JSON value as the decoder builds it. Nothing is
/// known of what is inside.
#[verifier::external_type_specification]
#[verifier::external_body]
pub struct ExValue(serde_json::Value);

/// Turns a `serde_json::Value` into a `Json`, variant by variant. A number
/// is written out by `Number::to_string`; the fields of an object come in
/// the order in which `Map::into_iter` hands them out. Nothing is promised
/// of the result here: `read_document` names it.
#[verifier::external_body]
fn json_of_value(value: serde_json::Value) -> Json {
    match value {
        serde_json::Value::Null => Json::Null,
        serde_json::Value::Bool(b) => Json::Bool(b),
        serde_json::Value::Number(n) => Json::Number(n.to_string()),
        serde_json::Value::String(s) => Json::Text(s),
        serde_json::Value::Array(a) => Json::List(a.into_iter().map(json_of_value).collect()),
        serde_json::Value::Object(o) => Json::Object(
            o.into_iter().map(|(k, v)| (k, json_of_value(v))).collect(),
        ),
    }
}

/// `serde_json::from_str` at the type `serde_json::Value`: reads `text` as
/// one JSON value. The contract only gives the outcome its name,
/// `json_document`: what the text reads as depends on the text alone.
#[verifier::external_body]
fn read_document(text: &str) -> (document: Option<Json>)
    ensures
        match document {
            Some(json) => json_document(text@) == Some(json@),
            None => json_document(text@) is None,
        },
{
    match serde_json::from_str::<serde_json::Value>(text) {
        Ok(value) => Some(json_of_value(value)),
        Err(_) => None,
    }
}

/// The value of the first field named `key`, if there is one.
pub open spec fn field_of(fields: Seq<(Seq<char>, JsonView)>, key: Seq<char>) -> Option<JsonView>
    decreases fields.len(),
{
    if fields.len() == 0 {
        None
    } else if fields[0].0 == key {
        Some(fields[0].1)
    } else {
        field_of(fields.drop_first(), key)
    }
}

/// The texts of a list whose items are all texts.
pub open spec fn texts_of(items: Seq<JsonView>) -> Option<Seq<Seq<char>>> {
    if forall|i: int| 0 <= i < items.len() ==> #[trigger] items[i] is Text {
        Some(Seq::new(items.len(), |i: int| items[i]->Text_0))
    } else {
        None
    }
}

/// The text of a field that may be absent: empty where it is absent, its
/// text where it is a text, and nothing where it is anything else.
pub open spec fn text_field(fields: Seq<(Seq<char>, JsonView)>, key: Seq<char>) -> Option<
    Seq<char>,
> {
    match field_of(fields, key) {
        None => Some(Seq::empty()),
        Some(JsonView::Text(text)) => Some(text),
        Some(_) => None,
    }
}

/// The text of a field that must be present and a text.
pub open spec fn required_text_field(
    fields: Seq<(Seq<char>, JsonView)>,
    key: Seq<char>,
) -> Option<Seq<char>> {
    match field_of(fields, key) {
        Some(JsonView::Text(text)) => Some(text),
        _ => None,
    }
}

/// The texts of a field that may be absent: none where it is absent, its
/// items where it is a list of texts, and nothing where it is anything else.
pub open spec fn texts_field(fields: Seq<(Seq<char>, JsonView)>, key: Seq<char>) -> Option<
    Seq<Seq<char>>,
> {
    match field_of(fields, key) {
        None => Some(Seq::empty()),
        Some(JsonView::List(items)) => texts_of(items),
        Some(_) => None,
    }
}

/// The text lists of a list whose items are all lists of texts.
pub open spec fn text_lists_of(items: Seq<JsonView>) -> Option<Seq<Seq<Seq<char>>>> {
    if forall|i: int|
        0 <= i < items.len() ==> (#[trigger] items[i] matches JsonView::List(inner) && texts_of(
            inner,
        ) is Some) {
        Some(Seq::new(items.len(), |i: int| texts_of(items[i]->List_0)->0))
    } else {
        None
    }
}

/// The text lists of a field that may be absent.
pub open spec fn text_lists_field(
    fields: Seq<(Seq<char>, JsonView)>,
    key: Seq<char>,
) -> Option<Seq<Seq<Seq<char>>>> {
    match field_of(fields, key) {
        None => Some(Seq::empty()),
        Some(JsonView::List(items)) => text_lists_of(items),
        Some(_) => None,
    }
}

/// The descriptor that a JSON value holds. The value must be an object with
/// the texts `action` and `tag`. Each other field of a descriptor may be
/// absent, and is then empty; where it is present it must have its type: a
/// text, a list of texts, or for `interfaces` a list of lists of texts.
/// Fields of other names are ignored.
pub open spec fn entry_of(json: JsonView) -> Option<EntryView> {
    match json {
        JsonView::Object(fields) => {
            let action = required_text_field(fields, "action"@);
            let capabilities = texts_field(fields, "capabilities"@);
            let description = text_field(fields, "description"@);
            let interfaces = text_lists_field(fields, "interfaces"@);
            let location = text_field(fields, "location"@);
            let model = text_field(fields, "model"@);
            let serial = text_field(fields, "serial"@);
            let tag = required_text_field(fields, "tag"@);
            if action is Some && capabilities is Some && description is Some && interfaces is Some
                && location is Some && model is Some && serial is Some && tag is Some {
                Some(
                    EntryView {
                        action: action->0,
                        capabilities: capabilities->0,
                        description: description->0,
                        interfaces: interfaces->0,
                        location: location->0,
                        model: model->0,
                        serial: serial->0,
                        tag: tag->0,
                    },
                )
            } else {
                None
            }
        },
        _ => None,
    }
}

/// The descriptor that a text holds: that of the JSON value it writes.
pub open spec fn decoded(text: Seq<char>) -> Option<EntryView> {
    match json_document(text) {
        Some(json) => entry_of(json),
        None => None,
    }
}

/// The views of the fields of an object.
pub open spec fn fields_view(fields: Seq<(String, Json)>) -> Seq<(Seq<char>, JsonView)> {
    Seq::new(fields.len(), |i: int| (fields[i].0@, fields[i].1@))
}

/// The views of the items of a list.
pub open spec fn items_view(items: Seq<Json>) -> Seq<JsonView> {
    Seq::new(items.len(), |i: int| items[i]@)
}

proof fn lemma_object_view(json: Json)
    ensures
        json matches Json::Object(fields) ==> json@ == JsonView::Object(fields_view(fields@)),
        json matches Json::List(items) ==> json@ == JsonView::List(items_view(items@)),
{
    match json {
        Json::Object(fields) => {
            assert(json@ is Object);
            let viewed = json@->Object_0;
            assert(viewed.len() == fields@.len());
            assert forall|i: int| 0 <= i < viewed.len() implies viewed[i] == fields_view(
                fields@,
            )[i] by {
                assert(viewed[i] == (fields@[i].0@, fields@[i].1@));
            }
            assert(viewed =~= fields_view(fields@));
        },
        Json::List(items) => {
            assert(json@->List_0 =~= items_view(items@));
        },
        _ => {},
    }
}

fn find_field<'a>(fields: &'a Vec<(String, Json)>, key: &str) -> (found: Option<&'a Json>)
    ensures
        match found {
            Some(json) => field_of(fields_view(fields@), key@) == Some(json@),
            None => field_of(fields_view(fields@), key@) is None,
        },
{
    let mut i: usize = 0;
    assert(fields_view(fields@).skip(0) == fields_view(fields@));
    while i < fields.len()
        invariant
            i <= fields.len(),
            field_of(fields_view(fields@), key@) == field_of(
                fields_view(fields@).skip(i as int),
                key@,
            ),
        decreases fields.len() - i,
    {
        let ghost rest = fields_view(fields@).skip(i as int);
        assert(rest[0] == (fields@[i as int].0@, fields@[i as int].1@));
        assert(rest.drop_first() == fields_view(fields@).skip(i + 1));
        if same_text(fields[i].0.as_str(), key) {
            return Some(&fields[i].1);
        }
        i = i + 1;
    }
    None
}

fn read_texts(items: &Vec<Json>) -> (texts: Option<Vec<String>>)
    ensures
        match texts {
            Some(list) => texts_of(items_view(items@)) == Some(list.deep_view()),
            None => texts_of(items_view(items@)) is None,
        },
{
    let mut list: Vec<String> = Vec::new();
    let mut i: usize = 0;
    while i < items.len()
        invariant
            i <= items.len(),
            list.len() == i,
            forall|j: int|
                0 <= j < i ==> (#[trigger] items_view(items@)[j]) == JsonView::Text(list@[j]@),
        decreases items.len() - i,
    {
        match &items[i] {
            Json::Text(text) => {
                list.push(text.clone());
            },
            _ => {
                assert(!(items_view(items@)[i as int] is Text));
                return None;
            },
        }
        i = i + 1;
    }
    assert(texts_of(items_view(items@))->0 =~= list.deep_view());
    Some(list)
}

fn read_text_lists(items: &Vec<Json>) -> (lists: Option<Vec<Vec<String>>>)
    ensures
        match lists {
            Some(list) => text_lists_of(items_view(items@)) == Some(list.deep_view()),
            None => text_lists_of(items_view(items@)) is None,
        },
{
    let mut list: Vec<Vec<String>> = Vec::new();
    let mut i: usize = 0;
    while i < items.len()
        invariant
            i <= items.len(),
            list.len() == i,
            forall|j: int|
                0 <= j < i ==> (#[trigger] items_view(items@)[j] matches JsonView::List(inner)
                    && texts_of(inner) == Some(list@[j].deep_view())),
        decreases items.len() - i,
    {
        proof {
            lemma_object_view(items@[i as int]);
        }
        match &items[i] {
            Json::List(inner) => {
                match read_texts(inner) {
                    Some(texts) => {
                        list.push(texts);
                    },
                    None => {
                        assert(items_view(items@)[i as int] == JsonView::List(
                            items_view(inner@),
                        ));
                        return None;
                    },
                }
            },
            _ => {
                assert(!(items_view(items@)[i as int] is List));
                return None;
            },
        }
        i = i + 1;
    }
    assert(text_lists_of(items_view(items@))->0 =~= list.deep_view());
    Some(list)
}

fn read_text_field(fields: &Vec<(String, Json)>, key: &str, required: bool) -> (text: Option<
    String,
>)
    ensures
        match text {
            Some(t) => Some(t@),
            None => None,
        } == if required {
            required_text_field(fields_view(fields@), key@)
        } else {
            text_field(fields_view(fields@), key@)
        },
{
    match find_field(fields, key) {
        None => if required {
            None
        } else {
            Some(String::new())
        },
        Some(Json::Text(text)) => Some(text.clone()),
        Some(_) => None,
    }
}

fn read_texts_field(fields: &Vec<(String, Json)>, key: &str) -> (texts: Option<Vec<String>>)
    ensures
        match texts {
            Some(list) => texts_field(fields_view(fields@), key@) == Some(list.deep_view()),
            None => texts_field(fields_view(fields@), key@) is None,
        },
{
    match find_field(fields, key) {
        None => {
            let list: Vec<String> = Vec::new();
            assert(list.deep_view() =~= Seq::<Seq<char>>::empty());
            Some(list)
        },
        Some(json) => {
            proof {
                lemma_object_view(*json);
            }
            match json {
                Json::List(items) => read_texts(items),
                _ => None,
            }
        },
    }
}

fn read_text_lists_field(fields: &Vec<(String, Json)>, key: &str) -> (lists: Option<
    Vec<Vec<String>>,
>)
    ensures
        match lists {
            Some(list) => text_lists_field(fields_view(fields@), key@) == Some(list.deep_view()),
            None => text_lists_field(fields_view(fields@), key@) is None,
        },
{
    match find_field(fields, key) {
        None => {
            let list: Vec<Vec<String>> = Vec::new();
            assert(list.deep_view() =~= Seq::<Seq<Seq<char>>>::empty());
            Some(list)
        },
        Some(json) => {
            proof {
                lemma_object_view(*json);
            }
            match json {
                Json::List(items) => read_text_lists(items),
                _ => None,
            }
        },
    }
}

/// Reads a descriptor from a JSON value, as `entry_of` defines it.
pub fn entry_from_json(json: &Json) -> (entry: Option<TyCmdListEntry>)
    ensures
        match entry {
            Some(e) => entry_of(json@) == Some(e@),
            None => entry_of(json@) is None,
        },
{
    proof {
        lemma_object_view(*json);
    }
    match json {
        Json::Object(fields) => {
            let action = read_text_field(fields, "action", true);
            let capabilities = read_texts_field(fields, "capabilities");
            let description = read_text_field(fields, "description", false);
            let interfaces = read_text_lists_field(fields, "interfaces");
            let location = read_text_field(fields, "location", false);
            let model = read_text_field(fields, "model", false);
            let serial = read_text_field(fields, "serial", false);
            let tag = read_text_field(fields, "tag", true);
            match (action, capabilities, description, interfaces, location, model, serial, tag) {
                (
                    Some(action),
                    Some(capabilities),
                    Some(description),
                    Some(interfaces),
                    Some(location),
                    Some(model),
                    Some(serial),
                    Some(tag),
                ) => Some(
                    TyCmdListEntry {
                        action,
                        capabilities,
                        description,
                        interfaces,
                        location,
                        model,
                        serial,
                        tag,
                    },
                ),
                _ => None,
            }
        },
        _ => None,
    }
}

/// Reads a descriptor from a text: the text is read as a JSON value, and the
/// descriptor from that value.
pub fn decode_entry(text: &str) -> (entry: Option<TyCmdListEntry>)
    ensures
        match entry {
            Some(e) => decoded(text@) == Some(e@),
            None => decoded(text@) is None,
        },
{
    match read_document(text) {
        Some(json) => entry_from_json(&json),
        None => None,
    }
}

} // verus!
