use m8_updater::device::{ConnectedDevice, DeviceType};
use m8_updater::entry::TyCmdListEntry;
use m8_updater::events::{
    payload_or_null, DownloadState, DownloadStatus, FlashingCycle, FlashingStatus,
    FlashingStatusPayload, FrontendLoaded, SerialWatchUpdate, StartFirmwareDownload, UploadState,
    UploadStatus, VersionSelected, VersionSelectedPayload,
};
use m8_updater::firmware::ArchiveSource;
use m8_updater::parser::EntryParser;
use m8_updater::session::FlashingUpdate;
use m8_updater::state::{
    process_tycmd_list_entry, process_tycmd_list_entry_now, AppStateData, DeviceState,
};

fn descriptor(action: &str, tag: &str) -> TyCmdListEntry {
    TyCmdListEntry {
        action: action.into(),
        capabilities: vec![],
        description: "M8".into(),
        interfaces: vec![],
        location: "usb-1-1".into(),
        model: "Teensy 4.0".into(),
        serial: "1".into(),
        tag: tag.into(),
    }
}

fn device(tag: &str) -> ConnectedDevice {
    ConnectedDevice {
        action_history: vec!["add".into()],
        device_type: DeviceType::MODEL01,
        ty_cmd_info: descriptor("add", tag),
        updated_at: 0,
    }
}

fn download(bytes: u32) -> DownloadStatus {
    DownloadStatus { bytes_downloaded: bytes, log: None, size: 100, state: DownloadState::Downloading }
}

fn upload(line: &str) -> UploadStatus {
    UploadStatus { log: Some(line.into()), state: UploadState::Uploading }
}

#[test]
fn no_device_is_disconnected_whatever_the_flashing_status() {
    let mut state = AppStateData::default();
    assert_eq!(state.consolidated_state(), DeviceState::Disconnected);
    state.flashing = Some(FlashingStatus::Downloading(download(1)));
    assert_eq!(state.consolidated_state(), DeviceState::Disconnected);
    state.flashing = Some(FlashingStatus::Uploading(upload("x")));
    assert_eq!(state.consolidated_state(), DeviceState::Disconnected);
}

#[test]
fn a_device_is_ready_downloading_or_uploading() {
    let mut state = AppStateData::default();
    state.device = Some(device("T1"));
    assert_eq!(state.consolidated_state(), DeviceState::Ready { device: device("T1") });
    state.flashing = Some(FlashingStatus::Downloading(download(7)));
    assert_eq!(
        state.consolidated_state(),
        DeviceState::Downloading { device: device("T1"), status: download(7) }
    );
    state.flashing = Some(FlashingStatus::Uploading(upload("line")));
    assert_eq!(
        state.consolidated_state(),
        DeviceState::Uploading { device: device("T1"), status: upload("line") }
    );
}

#[test]
fn the_same_state_is_announced_once() {
    let mut state = AppStateData::default();
    let first = state.take_device_state_update();
    assert_eq!(first.unwrap().state, DeviceState::Disconnected);
    assert_eq!(state.take_device_state_update(), None);
    assert_eq!(state.last_emitted_state, Some(DeviceState::Disconnected));

    state.device = Some(device("T1"));
    state.flashing = Some(FlashingStatus::Downloading(download(1)));
    let second = state.take_device_state_update();
    assert_eq!(
        second.unwrap().state,
        DeviceState::Downloading { device: device("T1"), status: download(1) }
    );
    assert_eq!(state.take_device_state_update(), None);
    state.flashing = Some(FlashingStatus::Downloading(download(1)));
    assert_eq!(state.take_device_state_update(), None);
    state.flashing = Some(FlashingStatus::Downloading(download(2)));
    assert!(state.take_device_state_update().is_some());
    state.flashing = None;
    assert_eq!(
        state.take_device_state_update().unwrap().state,
        DeviceState::Ready { device: device("T1") }
    );
}

#[test]
fn device_states_are_compared_by_value() {
    let ready = DeviceState::Ready { device: device("T1") };
    assert_eq!(ready.clone(), ready);
    assert_ne!(ready, DeviceState::Ready { device: device("T2") });
    assert_ne!(ready, DeviceState::Disconnected);
    let error = DeviceState::Error { device: device("T1"), message: "m".into() };
    assert_eq!(error.clone(), error);
    assert_ne!(error, DeviceState::Error { device: device("T1"), message: "n".into() });
    assert_ne!(
        DeviceState::Uploading { device: device("T1"), status: upload("a") },
        DeviceState::Uploading { device: device("T1"), status: upload("b") }
    );
}

#[test]
fn the_device_collection_is_announced_when_its_digest_changes() {
    let mut state = AppStateData::default();
    let first = state.take_devices_update().unwrap();
    assert!(first.devices.is_empty());
    assert_eq!(state.take_devices_update(), None);
    state.devices.insert(device("T2"));
    state.devices.insert(device("T1"));
    let second = state.take_devices_update().unwrap();
    assert_eq!(second.devices, vec![device("T1"), device("T2")]);
    assert_eq!(state.take_devices_update(), None);
}

#[test]
fn an_entry_moves_the_collection_and_the_followed_device() {
    let mut state = AppStateData::default();
    let first = state.apply_entry(descriptor("add", "T1"), 5);
    let mut record = device("T1");
    record.updated_at = 5;
    assert_eq!(first.devices.unwrap().devices, vec![record.clone()]);
    assert_eq!(first.state.unwrap().state, DeviceState::Ready { device: record.clone() });
    assert_eq!(state.device, Some(record.clone()));

    let second = state.apply_entry(descriptor("rename", "T1"), 6);
    assert_eq!(second.devices, None);
    assert_eq!(second.state, None);

    let third = state.apply_entry(descriptor("remove", "T9"), 7);
    assert_eq!(third.devices, None);
    assert_eq!(third.state, None);
    assert_eq!(state.device, Some(record));

    let fourth = state.apply_entry(descriptor("remove", "T1"), 8);
    assert!(fourth.devices.unwrap().devices.is_empty());
    assert_eq!(fourth.state.unwrap().state, DeviceState::Disconnected);
    assert_eq!(state.device, None);
}

#[test]
fn the_followed_device_is_the_one_last_touched() {
    let mut state = AppStateData::default();
    state.apply_entry(descriptor("add", "T1"), 1);
    state.apply_entry(descriptor("add", "T2"), 2);
    assert_eq!(state.device.as_ref().unwrap().ty_cmd_info.tag, "T2");
    state.apply_entry(descriptor("change", "T1"), 3);
    assert_eq!(state.device.as_ref().unwrap().ty_cmd_info.tag, "T1");
    assert_eq!(state.device.as_ref().unwrap().action_history, vec!["add", "change"]);
    state.apply_entry(descriptor("remove", "T2"), 4);
    assert_eq!(state.device.as_ref().unwrap().ty_cmd_info.tag, "T1");
    let mut raw = descriptor("change", "T1");
    raw.description = "Teensyduino RawHID".into();
    let out = state.apply_entry(raw, 5);
    assert_eq!(state.device, None);
    assert_eq!(out.state.unwrap().state, DeviceState::Disconnected);
    assert_eq!(state.devices.len(), 0);
}

#[test]
fn three_chunks_give_an_add_and_a_remove() {
    let mut state = AppStateData::default();
    let mut parser = EntryParser::new();
    let first = process_tycmd_list_entry(
        &mut state,
        &mut parser,
        "{\"action\":\"add\",\"capabilities\":[],\"description\":\"M8\",\"interfaces\":[],\"location\":\"usb-1-1\",\"model\":\"Teensy 4.0\",\"serial\":\"1\",\"tag\":\"T1\"",
        1,
    );
    assert!(first.is_empty());
    assert_eq!(state.devices.len(), 0);

    let second = process_tycmd_list_entry(&mut state, &mut parser, "}", 2);
    assert_eq!(second.len(), 1);
    let mut record = device("T1");
    record.updated_at = 2;
    assert_eq!(second[0].devices.as_ref().unwrap().devices, vec![record.clone()]);
    assert_eq!(second[0].state.as_ref().unwrap().state, DeviceState::Ready { device: record });
    assert!(state.devices.contains("T1"));

    let third =
        process_tycmd_list_entry(&mut state, &mut parser, "{\"action\":\"remove\",\"tag\":\"T1\"}", 3);
    assert_eq!(third.len(), 1);
    assert!(third[0].devices.as_ref().unwrap().devices.is_empty());
    assert_eq!(third[0].state.as_ref().unwrap().state, DeviceState::Disconnected);
    assert_eq!(state.devices.len(), 0);
    assert!(parser.is_empty());

    let signals = first.iter().chain(second.iter()).chain(third.iter());
    assert_eq!(signals.filter(|n| n.devices.is_some()).count(), 2);
}

#[test]
fn several_entries_in_one_chunk_are_taken_in_order() {
    let mut state = AppStateData::default();
    let mut parser = EntryParser::new();
    let chunk = "{\"action\":\"add\",\"description\":\"M8\",\"model\":\"Teensy 4.0\",\"tag\":\"A\"}\n{\"action\":\"change\",\"description\":\"M8\",\"model\":\"Teensy 4.0\",\"tag\":\"A\"}\n{\"action\":\"change\",\"description\":\"Teensyduino RawHID\",\"model\":\"Teensy 4.0\",\"tag\":\"A\"}\n";
    let out = process_tycmd_list_entry(&mut state, &mut parser, chunk, 9);
    assert_eq!(out.len(), 3);
    assert_eq!(out[0].devices.as_ref().unwrap().devices[0].action_history, vec!["add"]);
    assert_eq!(out[1].devices.as_ref().unwrap().devices[0].action_history, vec!["add", "change"]);
    assert!(out[2].devices.as_ref().unwrap().devices.is_empty());
    assert!(matches!(out[0].state.as_ref().unwrap().state, DeviceState::Ready { .. }));
    assert!(matches!(out[1].state.as_ref().unwrap().state, DeviceState::Ready { .. }));
    assert_eq!(out[2].state.as_ref().unwrap().state, DeviceState::Disconnected);
}

#[test]
fn a_selection_sets_source_version_and_size() {
    let mut state = AppStateData::default();
    state.size = 77;
    state.select_version(VersionSelectedPayload {
        path: "https://example.com/fw.zip".into(),
        version: Some("4.0.2".into()),
    });
    assert_eq!(state.archive_source, ArchiveSource::RemoteUrl("https://example.com/fw.zip".into()));
    assert_eq!(state.version, "4.0.2");
    assert_eq!(state.size, 77);
    state.select_version(VersionSelectedPayload { path: "/tmp/fw.zip".into(), version: None });
    assert_eq!(state.archive_source, ArchiveSource::LocalPath("/tmp/fw.zip".into()));
    assert_eq!(state.version, "");
    assert_eq!(state.size, 0);
    state.select_version(VersionSelectedPayload { path: "http://h/x".into(), version: None });
    assert_eq!(state.archive_source, ArchiveSource::RemoteUrl("http://h/x".into()));
    state.select_version(VersionSelectedPayload { path: "ftp://h/x".into(), version: None });
    assert_eq!(state.archive_source, ArchiveSource::LocalPath("ftp://h/x".into()));
}

#[test]
fn a_flashing_update_is_published_and_announced() {
    let mut state = AppStateData::default();
    state.device = Some(device("T1"));
    let first = state.apply_flashing(FlashingUpdate::Put(FlashingStatus::Uploading(upload("a"))));
    assert_eq!(
        first.unwrap().state,
        DeviceState::Uploading { device: device("T1"), status: upload("a") }
    );
    let again = state.apply_flashing(FlashingUpdate::Put(FlashingStatus::Uploading(upload("a"))));
    assert_eq!(again, None);
    let cleared = state.apply_flashing(FlashingUpdate::Clear);
    assert_eq!(cleared.unwrap().state, DeviceState::Ready { device: device("T1") });
    assert_eq!(state.flashing, None);
}

#[test]
fn the_default_state_is_empty() {
    let state = AppStateData::default();
    assert_eq!(state.archive_source, ArchiveSource::Unset);
    assert_eq!(state.cache_dir, None);
    assert_eq!(state.temp_dir, None);
    assert_eq!(state.device, None);
    assert_eq!(state.flashing, None);
    assert_eq!(state.last_emitted_state, None);
    assert_eq!(state.size, 0);
    assert_eq!(state.version, "");
    assert_eq!(state.devices.len(), 0);
}

#[test]
fn events_have_their_names_and_payloads() {
    assert_eq!(VersionSelected::event_name(), "version-selected");
    assert_eq!(FrontendLoaded::event_name(), "frontend-loaded");
    assert_eq!(StartFirmwareDownload::event_name(), "start-firmware-download");
    assert_eq!(SerialWatchUpdate::event_name(), "serial-watch-update");
    assert_eq!(payload_or_null(""), "null");
    assert_eq!(payload_or_null("{\"device\":\"x\"}"), "{\"device\":\"x\"}");
}

#[test]
fn a_flashing_payload_names_the_cycle_of_its_status() {
    let down = FlashingStatusPayload::new(FlashingStatus::Downloading(download(3)));
    assert_eq!(down.cycle, FlashingCycle::Downloading);
    assert_eq!(down.status, FlashingStatus::Downloading(download(3)));
    let up = FlashingStatusPayload::new(FlashingStatus::Uploading(upload("x")));
    assert_eq!(up.cycle, FlashingCycle::Uploading);
    assert_eq!(FlashingStatus::Uploading(upload("x")).cycle(), FlashingCycle::Uploading);
}

#[test]
fn output_that_arrives_now_is_stamped_by_the_clock() {
    let mut state = AppStateData::default();
    let mut parser = EntryParser::new();
    let chunk = "{\"action\":\"add\",\"description\":\"M8\",\"model\":\"Teensy 4.0\",\"tag\":\"A\"}";
    let out = process_tycmd_list_entry_now(&mut state, &mut parser, chunk);
    assert_eq!(out.len(), 1);
    assert!(state.device.as_ref().unwrap().updated_at > 1_600_000_000_000);
    assert!(parser.is_empty());
}
