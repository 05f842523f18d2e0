use m8_updater::entry::TyCmdListEntry;
use m8_updater::json::{decode_entry, entry_from_json, Json};
use m8_updater::parser::EntryParser;

const M8: &str = "{\"action\":\"add\",\"capabilities\":[\"unique\",\"run\"],\"description\":\"M8\",\"interfaces\":[[\"Serial\",\"/dev/cu.usbmodem1\"]],\"location\":\"usb-1-1\",\"model\":\"Teensy 4.0\",\"serial\":\"14908930\",\"tag\":\"14908930-Teensy\"}";

fn m8_entry() -> TyCmdListEntry {
    TyCmdListEntry {
        action: "add".into(),
        capabilities: vec!["unique".into(), "run".into()],
        description: "M8".into(),
        interfaces: vec![vec!["Serial".into(), "/dev/cu.usbmodem1".into()]],
        location: "usb-1-1".into(),
        model: "Teensy 4.0".into(),
        serial: "14908930".into(),
        tag: "14908930-Teensy".into(),
    }
}

fn short_entry(action: &str, tag: &str) -> TyCmdListEntry {
    TyCmdListEntry {
        action: action.into(),
        capabilities: vec![],
        description: String::new(),
        interfaces: vec![],
        location: String::new(),
        model: String::new(),
        serial: String::new(),
        tag: tag.into(),
    }
}

fn short_text(action: &str, tag: &str) -> String {
    format!("{{\"action\":\"{action}\",\"tag\":\"{tag}\"}}")
}

#[test]
fn a_full_descriptor_is_decoded() {
    assert_eq!(decode_entry(M8), Some(m8_entry()));
}

#[test]
fn absent_fields_are_empty() {
    assert_eq!(decode_entry("{\"action\":\"remove\",\"tag\":\"T1\"}"), Some(short_entry("remove", "T1")));
    assert_eq!(
        decode_entry(" {\"tag\" : \"T1\", \"extra\": 7, \"action\" : \"miss\"}\n"),
        Some(short_entry("miss", "T1"))
    );
}

#[test]
fn action_and_tag_are_required() {
    assert_eq!(decode_entry("{}"), None);
    assert_eq!(decode_entry("{\"action\":\"add\"}"), None);
    assert_eq!(decode_entry("{\"tag\":\"T1\"}"), None);
    assert_eq!(decode_entry("{\"foo\":1}"), None);
}

#[test]
fn fields_of_the_wrong_type_are_refused() {
    assert_eq!(decode_entry("{\"action\":1,\"tag\":\"T1\"}"), None);
    assert_eq!(decode_entry("{\"action\":\"add\",\"tag\":null}"), None);
    assert_eq!(decode_entry("{\"action\":\"add\",\"tag\":\"T\",\"model\":3}"), None);
    assert_eq!(decode_entry("{\"action\":\"add\",\"tag\":\"T\",\"capabilities\":\"x\"}"), None);
    assert_eq!(decode_entry("{\"action\":\"add\",\"tag\":\"T\",\"capabilities\":[1]}"), None);
    assert_eq!(decode_entry("{\"action\":\"add\",\"tag\":\"T\",\"interfaces\":[\"x\"]}"), None);
    assert_eq!(decode_entry("{\"action\":\"add\",\"tag\":\"T\",\"interfaces\":[[1]]}"), None);
}

#[test]
fn text_that_is_not_one_json_object_is_refused() {
    assert_eq!(decode_entry(""), None);
    assert_eq!(decode_entry("{bad}"), None);
    assert_eq!(decode_entry("[\"add\",\"T1\"]"), None);
    assert_eq!(decode_entry("\"add\""), None);
    assert_eq!(decode_entry("{\"action\":\"add\",\"tag\":\"T1\"} x"), None);
    assert_eq!(decode_entry("x{\"action\":\"add\",\"tag\":\"T1\"}"), None);
}

#[test]
fn nested_values_are_read_through() {
    let text = "{\"tag\":\"T\",\"action\":\"add\",\"interfaces\":[[\"a\",\"b\"],[],[\"c\"]],\"capabilities\":[\"x\\ny\",\"\"],\"n\":1.5e3,\"b\":true,\"z\":null,\"o\":{\"tag\":\"inner\"}}";
    let mut expected = short_entry("add", "T");
    expected.interfaces = vec![vec!["a".into(), "b".into()], vec![], vec!["c".into()]];
    expected.capabilities = vec!["x\ny".into(), String::new()];
    assert_eq!(decode_entry(text), Some(expected));
    assert_eq!(decode_entry("{\"action\":\"add\",\"tag\":\"T\",\"serial\":true}"), None);
    assert_eq!(decode_entry("{\"action\":\"add\",\"tag\":\"T\",\"serial\":12}"), None);
    assert_eq!(decode_entry("{\"action\":\"add\",\"tag\":\"T\",\"serial\":{}}"), None);
    assert_eq!(decode_entry("{\"action\":\"add\",\"tag\":\"T\",\"serial\":[]}"), None);
}

#[test]
fn a_descriptor_is_read_from_a_json_value() {
    let json = Json::Object(vec![
        ("tag".into(), Json::Text("T1".into())),
        ("action".into(), Json::Text("change".into())),
        ("capabilities".into(), Json::List(vec![Json::Text("run".into())])),
        ("interfaces".into(), Json::List(vec![Json::List(vec![])])),
        ("tag".into(), Json::Text("later".into())),
    ]);
    let mut expected = short_entry("change", "T1");
    expected.capabilities = vec!["run".into()];
    expected.interfaces = vec![vec![]];
    assert_eq!(entry_from_json(&json), Some(expected));
    assert_eq!(entry_from_json(&Json::List(vec![])), None);
    assert_eq!(entry_from_json(&Json::Null), None);
}

#[test]
fn concatenated_objects_come_out_in_order() {
    let mut parser = EntryParser::new();
    let text = format!("{}{}{}", short_text("add", "A"), M8, short_text("remove", "A"));
    let entries = parser.feed(&text);
    assert_eq!(entries, vec![short_entry("add", "A"), m8_entry(), short_entry("remove", "A")]);
    assert!(parser.is_empty());
    assert_eq!(parser.pending(), "");
}

#[test]
fn whitespace_between_objects_is_skipped() {
    let mut parser = EntryParser::new();
    let text = format!(
        "  {}\n\n{}\r\n\t{} \n",
        short_text("add", "A"),
        short_text("change", "A"),
        short_text("miss", "A")
    );
    let entries = parser.feed(&text);
    assert_eq!(
        entries,
        vec![short_entry("add", "A"), short_entry("change", "A"), short_entry("miss", "A")]
    );
    assert!(parser.is_empty());
}

#[test]
fn whitespace_within_objects_is_kept_by_the_decoder() {
    let mut parser = EntryParser::new();
    let entries = parser.feed("{ \"action\" : \"add\" ,\n \"tag\" : \"a tag\" }");
    assert_eq!(entries, vec![short_entry("add", "a tag")]);
    assert!(parser.is_empty());
}

#[test]
fn every_split_in_two_gives_the_same_entries() {
    let text = format!("{} {}\n{}", short_text("add", "A"), M8, short_text("remove", "A"));
    let expected = vec![short_entry("add", "A"), m8_entry(), short_entry("remove", "A")];
    for cut in 0..=text.len() {
        if !text.is_char_boundary(cut) {
            continue;
        }
        let mut parser = EntryParser::new();
        let mut entries = parser.feed(&text[..cut]);
        entries.extend(parser.feed(&text[cut..]));
        assert_eq!(entries, expected, "cut at {cut}");
        assert!(parser.is_empty(), "cut at {cut}");
    }
}

#[test]
fn one_character_at_a_time_gives_the_same_entries() {
    let text = format!("{}\n{}\n", M8, short_text("remove", "14908930-Teensy"));
    let mut parser = EntryParser::new();
    let mut entries = Vec::new();
    for c in text.chars() {
        entries.extend(parser.feed(&c.to_string()));
    }
    assert_eq!(entries, vec![m8_entry(), short_entry("remove", "14908930-Teensy")]);
    assert!(parser.is_empty());
}

#[test]
fn a_split_inside_a_text_with_a_space_keeps_the_space() {
    let mut parser = EntryParser::new();
    assert_eq!(parser.feed("{\"action\":\"add\",\"tag\":\"a "), vec![]);
    assert_eq!(parser.feed(" b\"}"), vec![short_entry("add", "a  b")]);
}

#[test]
fn an_incomplete_object_waits_for_its_end() {
    let mut parser = EntryParser::new();
    assert_eq!(parser.feed("{\"action\":\"add\",\"tag\":\"T1\""), vec![]);
    assert_eq!(parser.pending(), "{\"action\":\"add\",\"tag\":\"T1\"");
    assert!(!parser.is_empty());
    assert_eq!(parser.feed("}"), vec![short_entry("add", "T1")]);
    assert!(parser.is_empty());
}

#[test]
fn a_malformed_object_between_two_well_formed_ones_is_skipped() {
    for garbage in ["{bad}", "{\"foo\":1}", "{\"action\":}", "garbage}", "}}", "{\"action\":\"add\"}"] {
        let mut parser = EntryParser::new();
        let text = format!("{}{}{}", short_text("add", "A"), garbage, short_text("remove", "B"));
        let entries = parser.feed(&text);
        assert_eq!(
            entries,
            vec![short_entry("add", "A"), short_entry("remove", "B")],
            "garbage {garbage:?}"
        );
        assert!(parser.is_empty(), "garbage {garbage:?}");
    }
}

#[test]
fn garbage_before_and_between_objects_is_skipped() {
    let mut parser = EntryParser::new();
    let text = format!("noise {} more noise }} {}", short_text("add", "A"), M8);
    assert_eq!(parser.feed(&text), vec![short_entry("add", "A"), m8_entry()]);
    assert!(parser.is_empty());
}

#[test]
fn braces_nest() {
    let mut parser = EntryParser::new();
    let entries = parser.feed("{\"action\":\"add\",\"tag\":\"T\",\"extra\":{\"deep\":{}}}");
    assert_eq!(entries, vec![short_entry("add", "T")]);
    assert!(parser.is_empty());
}

#[test]
fn text_without_an_object_stays_in_the_buffer() {
    let mut parser = EntryParser::new();
    assert_eq!(parser.feed("  no braces here"), vec![]);
    assert_eq!(parser.pending(), "no braces here");
    assert_eq!(parser.feed("   "), vec![]);
    assert_eq!(parser.pending(), "no braces here   ");
}

#[test]
fn empty_chunks_change_nothing() {
    let mut parser = EntryParser::new();
    assert_eq!(parser.feed(""), vec![]);
    assert!(parser.is_empty());
    assert_eq!(parser.feed("{\"action\""), vec![]);
    assert_eq!(parser.feed(""), vec![]);
    assert_eq!(parser.pending(), "{\"action\"");
}
