use std::collections::hash_map::DefaultHasher;
use std::hash::{Hash, Hasher};

use m8_updater::device::{ConnectedDevice, DeviceType};
use m8_updater::digest::{hash_text, write_entry, write_record, write_records};
use m8_updater::entry::TyCmdListEntry;
use m8_updater::registry::{devices_digest, DeviceRegistry};

fn sample_entry(serial: &str, tag: &str) -> TyCmdListEntry {
    TyCmdListEntry {
        action: "add".into(),
        capabilities: vec!["serial".into(), "run".into()],
        description: "M8".into(),
        interfaces: vec![vec!["Serial".into(), "/dev/tty.usb".into()]],
        location: "usb-1-1".into(),
        model: "Teensy 4.0".into(),
        serial: serial.into(),
        tag: tag.into(),
    }
}

fn sample_device(serial: &str, tag: &str) -> ConnectedDevice {
    ConnectedDevice {
        action_history: vec!["add".into()],
        device_type: DeviceType::MODEL01,
        ty_cmd_info: sample_entry(serial, tag),
        updated_at: 0,
    }
}

fn entry(action: &str, tag: &str, description: &str, model: &str) -> TyCmdListEntry {
    TyCmdListEntry {
        action: action.into(),
        capabilities: vec![],
        description: description.into(),
        interfaces: vec![],
        location: String::new(),
        model: model.into(),
        serial: String::new(),
        tag: tag.into(),
    }
}

fn m8(action: &str, tag: &str) -> TyCmdListEntry {
    entry(action, tag, "M8", "Teensy MicroMod")
}

fn tags(registry: &DeviceRegistry) -> Vec<String> {
    registry.records().iter().map(|r| r.ty_cmd_info.tag.clone()).collect()
}

fn std_hash(text: &str) -> u64 {
    let mut hasher = DefaultHasher::new();
    text.to_string().hash(&mut hasher);
    hasher.finish()
}

#[test]
fn digest_changes_with_content() {
    let mut a = DeviceRegistry::new();
    assert!(a.insert(sample_device("123", "dev1")));

    let mut b = DeviceRegistry::new();
    assert!(b.insert(sample_device("123", "dev1")));
    assert!(b.insert(sample_device("456", "dev2")));

    let da = devices_digest(&a);
    let db = devices_digest(&b);
    assert_ne!(da, db);

    // identical map yields identical digest
    let da2 = devices_digest(&a);
    assert_eq!(da, da2);
}

#[test]
fn digest_does_not_depend_on_insertion_order() {
    let names = ["dev3", "dev1", "dev2", "alpha", "zeta"];
    let mut forward = DeviceRegistry::new();
    for name in names {
        assert!(forward.insert(sample_device("1", name)));
    }
    let mut backward = DeviceRegistry::new();
    for name in names.iter().rev() {
        assert!(backward.insert(sample_device("1", name)));
    }
    assert_eq!(tags(&forward), vec!["alpha", "dev1", "dev2", "dev3", "zeta"]);
    assert_eq!(tags(&backward), tags(&forward));
    assert_eq!(forward.records(), backward.records());
    assert_eq!(devices_digest(&forward), devices_digest(&backward));
    assert_eq!(forward.digest(), devices_digest(&forward));
}

#[test]
fn digest_changes_with_one_field_of_one_record() {
    let mut base = DeviceRegistry::new();
    base.insert(sample_device("123", "dev1"));
    base.insert(sample_device("456", "dev2"));
    let digest = devices_digest(&base);

    let mut variants: Vec<ConnectedDevice> = Vec::new();
    let mut v = sample_device("456", "dev2");
    v.updated_at = 1;
    variants.push(v);
    let mut v = sample_device("456", "dev2");
    v.action_history.push("change".into());
    variants.push(v);
    let mut v = sample_device("457", "dev2");
    v.ty_cmd_info.location = "usb-1-2".into();
    variants.push(v);
    let mut v = sample_device("456", "dev2");
    v.ty_cmd_info.capabilities.pop();
    variants.push(v);
    let mut v = sample_device("456", "dev2");
    v.ty_cmd_info.interfaces[0][1] = "/dev/tty.other".into();
    variants.push(v);
    let mut v = sample_device("456", "dev2");
    v.ty_cmd_info.model = "Teensy MicroMod".into();
    v.device_type = DeviceType::MODEL02;
    variants.push(v);
    let mut v = sample_device("456", "dev2");
    v.ty_cmd_info.description = "HalfKay".into();
    variants.push(v);
    let mut v = sample_device("456", "dev2");
    v.ty_cmd_info.action = "change".into();
    variants.push(v);

    for variant in variants {
        let mut changed = DeviceRegistry::new();
        changed.insert(sample_device("123", "dev1"));
        assert!(changed.insert(variant));
        assert_ne!(devices_digest(&changed), digest);
    }
}

#[test]
fn canonical_text_is_the_json_of_the_collection() {
    let mut registry = DeviceRegistry::new();
    assert_eq!(write_records(registry.records()), "{}");
    registry.insert(sample_device("123", "dev1"));
    let one = "{\"dev1\":{\"action_history\":[\"add\"],\"device_type\":\"MODEL01\",\"ty_cmd_info\":{\"action\":\"add\",\"capabilities\":[\"serial\",\"run\"],\"description\":\"M8\",\"interfaces\":[[\"Serial\",\"/dev/tty.usb\"]],\"location\":\"usb-1-1\",\"model\":\"Teensy 4.0\",\"serial\":\"123\",\"tag\":\"dev1\"},\"updated_at\":0}}";
    assert_eq!(write_records(registry.records()), one);
    assert_eq!(devices_digest(&registry), std_hash(one));

    let mut second = sample_device("4\"5\\6", "a\ntag");
    second.updated_at = -12;
    second.ty_cmd_info.capabilities.clear();
    second.ty_cmd_info.interfaces = vec![vec![], vec!["x".into()]];
    registry.insert(second);
    let two = format!(
        "{{\"a\\ntag\":{{\"action_history\":[\"add\"],\"device_type\":\"MODEL01\",\"ty_cmd_info\":{{\"action\":\"add\",\"capabilities\":[],\"description\":\"M8\",\"interfaces\":[[],[\"x\"]],\"location\":\"usb-1-1\",\"model\":\"Teensy 4.0\",\"serial\":\"4\\\"5\\\\6\",\"tag\":\"a\\ntag\"}},\"updated_at\":-12}},{}",
        &one[1..]
    );
    assert_eq!(write_records(registry.records()), two);
    assert_eq!(devices_digest(&registry), std_hash(&two));
}

#[test]
fn records_and_entries_are_written_as_json_objects() {
    let device = sample_device("123", "dev1");
    let entry_text = "{\"action\":\"add\",\"capabilities\":[\"serial\",\"run\"],\"description\":\"M8\",\"interfaces\":[[\"Serial\",\"/dev/tty.usb\"]],\"location\":\"usb-1-1\",\"model\":\"Teensy 4.0\",\"serial\":\"123\",\"tag\":\"dev1\"}";
    assert_eq!(write_entry(&device.ty_cmd_info), entry_text);
    assert_eq!(
        write_record(&device),
        format!(
            "{{\"action_history\":[\"add\"],\"device_type\":\"MODEL01\",\"ty_cmd_info\":{entry_text},\"updated_at\":0}}"
        )
    );
}

#[test]
fn hash_of_a_text_is_the_standard_hash_of_the_string() {
    for text in ["", "a", "{}", "héllo", "{\"dev1\":1}"] {
        assert_eq!(hash_text(text), std_hash(text));
    }
    assert_ne!(hash_text("a"), hash_text("b"));
}

#[test]
fn add_then_remove_leaves_no_record() {
    let mut registry = DeviceRegistry::new();
    registry.transit(m8("add", "T1"), 1);
    assert!(registry.contains("T1"));
    assert_eq!(registry.len(), 1);
    registry.transit(m8("remove", "T1"), 2);
    assert!(!registry.contains("T1"));
    assert_eq!(registry.len(), 0);
    assert_eq!(registry.get("T1"), None);
}

#[test]
fn add_puts_a_fresh_record() {
    let mut registry = DeviceRegistry::new();
    registry.transit(m8("add", "T1"), 10);
    registry.transit(m8("change", "T1"), 11);
    registry.transit(entry("add", "T1", "HalfKay", "Teensy 4.0"), 12);
    let record = registry.get("T1").unwrap();
    assert_eq!(record.action_history, vec!["add"]);
    assert_eq!(record.device_type, DeviceType::MODEL01);
    assert_eq!(record.ty_cmd_info, entry("add", "T1", "HalfKay", "Teensy 4.0"));
    assert_eq!(record.updated_at, 12);
}

#[test]
fn change_and_miss_update_the_record_that_is_there() {
    let mut registry = DeviceRegistry::new();
    registry.transit(m8("change", "T1"), 1);
    registry.transit(m8("miss", "T1"), 2);
    assert_eq!(registry.len(), 0);
    registry.transit(m8("add", "T1"), 3);
    registry.transit(entry("change", "T1", "M8", "Teensy 4.0"), 4);
    registry.transit(m8("miss", "T1"), 5);
    let record = registry.get("T1").unwrap();
    assert_eq!(record.action_history, vec!["add", "change", "miss"]);
    assert_eq!(record.device_type, DeviceType::MODEL02);
    assert_eq!(record.ty_cmd_info, m8("miss", "T1"));
    assert_eq!(record.updated_at, 5);
}

#[test]
fn history_is_capped_at_twenty() {
    let mut registry = DeviceRegistry::new();
    registry.transit(m8("add", "T1"), 0);
    for i in 0..19 {
        registry.transit(m8("change", "T1"), i);
    }
    let mut expected = vec!["add".to_string()];
    expected.extend(vec!["change".to_string(); 19]);
    assert_eq!(registry.get("T1").unwrap().action_history, expected);

    registry.transit(m8("change", "T1"), 20);
    assert_eq!(registry.get("T1").unwrap().action_history, vec!["change".to_string(); 20]);
}

#[test]
fn add_then_twenty_five_changes_leaves_the_twenty_newest() {
    let mut registry = DeviceRegistry::new();
    registry.transit(m8("add", "T1"), 0);
    for i in 0..24 {
        registry.transit(m8("change", "T1"), i);
    }
    registry.transit(m8("miss", "T1"), 24);
    let history = registry.get("T1").unwrap().action_history.clone();
    assert_eq!(history.len(), 20);
    let mut expected = vec!["change".to_string(); 19];
    expected.push("miss".to_string());
    assert_eq!(history, expected);
}

#[test]
fn unknown_actions_change_nothing() {
    let mut registry = DeviceRegistry::new();
    registry.transit(m8("add", "T1"), 1);
    let before = registry.get("T1").unwrap().clone();
    registry.transit(m8("rename", "T1"), 2);
    registry.transit(m8("", "T1"), 3);
    registry.transit(m8("rename", "T2"), 4);
    assert_eq!(registry.get("T1"), Some(&before));
    assert_eq!(registry.len(), 1);
}

#[test]
fn headless_and_unknown_devices_are_never_kept() {
    for action in ["add", "change", "miss", "remove", "other"] {
        let mut registry = DeviceRegistry::new();
        registry.transit(entry(action, "T1", "Teensyduino RawHID", "Teensy MicroMod"), 1);
        assert!(!registry.contains("T1"));
        registry.transit(entry(action, "T2", "M8", "Teensy 4.1"), 1);
        assert!(!registry.contains("T2"));

        registry.transit(m8("add", "T1"), 2);
        registry.transit(m8("add", "T3"), 2);
        assert!(registry.contains("T1"));
        registry.transit(entry(action, "T1", "Teensyduino RawHID", "Teensy 4.0"), 3);
        assert!(!registry.contains("T1"));
        assert!(registry.contains("T3"));
        registry.transit(entry(action, "T3", "HalfKay", "Teensy 4.1"), 3);
        assert_eq!(registry.len(), 0);
    }
}

#[test]
fn invalid_records_are_refused() {
    let mut registry = DeviceRegistry::new();
    let mut wrong = sample_device("1", "dev1");
    wrong.device_type = DeviceType::MODEL02;
    assert!(!registry.insert(wrong));
    let mut headless = sample_device("1", "dev1");
    headless.ty_cmd_info.model = "Teensy 4.1".into();
    headless.device_type = DeviceType::HEADLESS;
    assert!(!registry.insert(headless));
    let mut long = sample_device("1", "dev1");
    long.action_history = vec!["change".to_string(); 21];
    assert!(!registry.insert(long));
    assert_eq!(registry.len(), 0);
    assert!(registry.insert(sample_device("1", "dev1")));
    assert!(registry.insert(sample_device("2", "dev1")));
    assert_eq!(registry.len(), 1);
    assert_eq!(registry.get("dev1").unwrap().ty_cmd_info.serial, "2");
}

#[test]
fn remove_tells_whether_a_record_was_there() {
    let mut registry = DeviceRegistry::new();
    registry.insert(sample_device("1", "b"));
    registry.insert(sample_device("1", "a"));
    registry.insert(sample_device("1", "c"));
    assert!(!registry.remove("d"));
    assert!(registry.remove("b"));
    assert!(!registry.remove("b"));
    assert_eq!(tags(&registry), vec!["a", "c"]);
}

#[test]
fn only_a_changed_digest_is_announced() {
    let mut registry = DeviceRegistry::new();
    assert!(registry.note_digest());
    assert!(!registry.note_digest());
    assert!(registry.apply(m8("add", "T1"), 1));
    assert!(!registry.apply(m8("rename", "T1"), 2));
    assert!(!registry.note_digest());
    assert!(registry.apply(m8("change", "T1"), 3));
    assert!(!registry.apply(m8("change", "T2"), 4));
    assert!(registry.apply(m8("remove", "T1"), 5));
    assert!(!registry.apply(m8("remove", "T1"), 6));
}

#[test]
fn the_first_descriptor_is_always_announced() {
    let mut registry = DeviceRegistry::new();
    assert!(registry.apply(m8("remove", "T1"), 1));
    assert!(!registry.apply(m8("remove", "T1"), 1));
}

#[test]
fn apply_now_takes_the_time_of_the_clock() {
    let mut registry = DeviceRegistry::new();
    assert!(registry.apply_now(m8("add", "T1")));
    let first = registry.get("T1").unwrap().updated_at;
    assert!(first > 1_600_000_000_000);
    assert!(registry.apply_now(m8("change", "T1")));
    let second = registry.get("T1").unwrap().updated_at;
    assert!(second >= first);
    assert_eq!(registry.get("T1").unwrap().action_history, vec!["add", "change"]);
}

#[test]
fn texts_are_quoted_as_json_string_literals() {
    let mut entry = sample_entry("", "t");
    entry.capabilities.clear();
    entry.interfaces.clear();
    let names = ["\\u0000", "\\u0001", "\\u0002", "\\u0003", "\\u0004", "\\u0005", "\\u0006",
        "\\u0007", "\\b", "\\t", "\\n", "\\u000b", "\\f", "\\r", "\\u000e", "\\u000f", "\\u0010",
        "\\u0011", "\\u0012", "\\u0013", "\\u0014", "\\u0015", "\\u0016", "\\u0017", "\\u0018",
        "\\u0019", "\\u001a", "\\u001b", "\\u001c", "\\u001d", "\\u001e", "\\u001f"];
    for code in 0u32..=0x10FFFF {
        let Some(c) = char::from_u32(code) else { continue };
        if code > 0x3000 && code % 257 != 0 {
            continue;
        }
        let expected = if code < 0x20 {
            names[code as usize].to_string()
        } else if c == '"' {
            "\\\"".to_string()
        } else if c == '\\' {
            "\\\\".to_string()
        } else {
            c.to_string()
        };
        entry.serial = format!("a{c}b");
        let text = write_entry(&entry);
        let wanted = format!(
            "{{\"action\":\"add\",\"capabilities\":[],\"description\":\"M8\",\"interfaces\":[],\"location\":\"usb-1-1\",\"model\":\"Teensy 4.0\",\"serial\":\"a{expected}b\",\"tag\":\"t\"}}"
        );
        assert_eq!(text, wanted, "U+{code:04X}");
    }
}
