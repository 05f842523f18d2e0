use m8_updater::device::{ConnectedDevice, DeviceType};
use m8_updater::download::{content_length_size, parse_u64, DownloadProgress};
use m8_updater::entry::TyCmdListEntry;
use m8_updater::events::{DownloadState, DownloadStatus, FlashingStatus, UploadState, UploadStatus};
use m8_updater::firmware::{
    archive_file_name, classify_upload_error, classify_upload_line, error_status, is_hex,
    matches_variant, plan_acquisition, select_variant, tag_paths, verifying_status, Acquisition,
    ArchiveSource, CachePath, FailureKind, FirmwareStoreStatus, FlashError, ACCEPT_HEADER,
    API_VERSION_HEADER,
    USER_AGENT_HEADER,
};
use m8_updater::session::{
    upload_arguments, FirmwareSession, FlashingUpdate, SessionAction, SessionEvent, SessionPhase,
};

fn device(family: DeviceType, model: &str) -> ConnectedDevice {
    ConnectedDevice {
        action_history: vec!["add".into()],
        device_type: family,
        ty_cmd_info: TyCmdListEntry {
            action: "add".into(),
            capabilities: vec![],
            description: "M8".into(),
            interfaces: vec![],
            location: String::new(),
            model: model.into(),
            serial: "1".into(),
            tag: "1-Teensy".into(),
        },
        updated_at: 0,
    }
}

fn cached(paths: &[&str]) -> Vec<CachePath> {
    tag_paths(paths.iter().map(|p| p.to_string()).collect())
}

fn failed(message: &str) -> FlashingUpdate {
    FlashingUpdate::Put(FlashingStatus::Uploading(UploadStatus {
        log: Some(message.into()),
        state: UploadState::Error,
    }))
}

fn verifying() -> FlashingUpdate {
    FlashingUpdate::Put(FlashingStatus::Uploading(UploadStatus {
        log: Some("upload@status Verifying firmware matches device".into()),
        state: UploadState::Starting,
    }))
}

fn uploading_session(paths: &[&str]) -> FirmwareSession {
    let mut session = FirmwareSession::new();
    session.step(SessionEvent::Start {
        device: Some(device(DeviceType::MODEL02, "Teensy MicroMod")),
        version: "4.0.2".into(),
    });
    session.step(SessionEvent::ArchiveReady { paths: cached(paths) });
    assert_eq!(session.phase(), SessionPhase::Uploading);
    session
}

#[test]
fn hex_files_are_told_by_their_suffix() {
    assert!(is_hex("firmware.hex"));
    assert!(is_hex("/cache/M8_V4_0_2_MODEL02.hex"));
    assert!(is_hex("a.b.hex"));
    assert!(!is_hex("firmware.zip"));
    assert!(!is_hex("firmware.HEX"));
    assert!(!is_hex("firmwarehex"));
    assert!(!is_hex(".hex"));
    assert!(!is_hex("/cache/.hex"));
    assert!(!is_hex("hex"));
    assert!(!is_hex(""));
}

#[test]
fn a_selection_is_remote_or_local() {
    assert_eq!(
        ArchiveSource::from_selection("https://example.com/a.zip"),
        ArchiveSource::RemoteUrl("https://example.com/a.zip".into())
    );
    assert_eq!(ArchiveSource::from_selection("http://x"), ArchiveSource::RemoteUrl("http://x".into()));
    assert_eq!(ArchiveSource::from_selection("/a/b.zip"), ArchiveSource::LocalPath("/a/b.zip".into()));
    assert_eq!(ArchiveSource::from_selection("HTTP://x"), ArchiveSource::LocalPath("HTTP://x".into()));
    assert_eq!(ArchiveSource::from_selection(""), ArchiveSource::LocalPath("".into()));
    assert_eq!(ArchiveSource::default(), ArchiveSource::Unset);
}

#[test]
fn the_source_decides_how_the_archive_is_acquired() {
    assert_eq!(
        plan_acquisition(&ArchiveSource::LocalPath("/a/fw.hex".into())),
        Ok(Acquisition::UseFile("/a/fw.hex".into()))
    );
    assert_eq!(
        plan_acquisition(&ArchiveSource::LocalPath("/a/fw.zip".into())),
        Ok(Acquisition::Extract("/a/fw.zip".into()))
    );
    assert_eq!(
        plan_acquisition(&ArchiveSource::RemoteUrl("https://h/fw.hex".into())),
        Ok(Acquisition::Download("https://h/fw.hex".into()))
    );
    assert_eq!(plan_acquisition(&ArchiveSource::Unset), Err(FlashError::NoArchiveSource));
}

#[test]
fn errors_have_their_messages() {
    assert_eq!(FlashError::NoArchiveSource.message(), "No archive source provided");
    assert_eq!(FlashError::NoTempDirectory.message(), "Temp directory not set");
    assert_eq!(FlashError::DownloadTooLarge.message(), "Download exceeds the progress counter");
    assert_eq!(
        FlashError::NoDevice.message(),
        "upload@status Unable to fetch details for selected device"
    );
    assert_eq!(
        FlashError::DownloadFailed("invalid Zip archive".into()).message(),
        "upload@status Failed to download firmware: invalid Zip archive"
    );
    assert_eq!(
        FlashError::NoVariant { family: DeviceType::MODEL02, version: "4.0.2".into() }.message(),
        "upload@status No MODEL02 variant found for version 4.0.2"
    );
    assert_eq!(
        FlashError::DeviceBusy.message(),
        "upload@status Device busy. Using remote display?"
    );
    assert_eq!(FlashError::Upload("boom".into()).message(), "boom");
    assert_eq!(
        FlashError::UploadExit(Some(-3)).message(),
        "upload@status Upload ended with exit status -3"
    );
    assert_eq!(
        FlashError::UploadExit(None).message(),
        "upload@status Upload ended without an exit status"
    );
    assert_eq!(
        FirmwareStoreStatus::CacheDirFailure("/c".into()).message(),
        "Cache directory initialization failure /c"
    );
    assert_eq!(
        FirmwareStoreStatus::TempDirFailure("<unknown>".into()).message(),
        "Temp directory initialization failure <unknown>"
    );
}

#[test]
fn request_headers_are_fixed() {
    assert_eq!(ACCEPT_HEADER, "application/vnd.github.raw+json");
    assert_eq!(USER_AGENT_HEADER, "com.dirtywave.updater");
    assert_eq!(API_VERSION_HEADER, "2022-11-28");
    assert_eq!(archive_file_name("4.0.2"), "4.0.2.zip");
    assert_eq!(archive_file_name(""), ".zip");
}

#[test]
fn paths_are_tagged_by_their_names() {
    let tagged = cached(&["/c/M8_MODEL02.hex", "/c/M8.hex", "/c/M8_HEADLESS.hex"]);
    assert_eq!(
        tagged,
        vec![
            CachePath { device_type: DeviceType::MODEL02, path: "/c/M8_MODEL02.hex".into() },
            CachePath { device_type: DeviceType::MODEL01, path: "/c/M8.hex".into() },
            CachePath { device_type: DeviceType::MODEL01, path: "/c/M8_HEADLESS.hex".into() },
        ]
    );
    assert!(cached(&[]).is_empty());
}

#[test]
fn a_file_fits_the_family_its_name_holds() {
    assert!(matches_variant("M8_V4_MODEL02.hex", DeviceType::MODEL02));
    assert!(!matches_variant("M8_V4_MODEL01.hex", DeviceType::MODEL02));
    assert!(!matches_variant("M8_V4.hex", DeviceType::MODEL02));
    assert!(matches_variant("M8_V4_MODEL01.hex", DeviceType::MODEL01));
    assert!(matches_variant("M8_V4.hex", DeviceType::MODEL01));
    assert!(!matches_variant("M8_V4_MODEL02.hex", DeviceType::MODEL01));
    assert!(!matches_variant("M8_V4_HEADLESS.hex", DeviceType::MODEL01));
    assert!(matches_variant("M8_MODEL01_MODEL02.hex", DeviceType::MODEL01));
    assert!(matches_variant("M8_MODEL01_HEADLESS.hex", DeviceType::MODEL01));
    for path in ["M8_V4_HEADLESS.hex", "M8.hex", "M8_UNKNOWN.hex", "M8_MODEL01.hex"] {
        assert!(!matches_variant(path, DeviceType::HEADLESS));
        assert!(!matches_variant(path, DeviceType::UNKNOWN));
    }
}

#[test]
fn the_first_fitting_file_is_selected() {
    let paths = cached(&["a_HEADLESS.hex", "b_MODEL02.hex", "c.hex", "d_MODEL01.hex", "e_MODEL02.hex"]);
    assert_eq!(select_variant(&paths, DeviceType::MODEL02), Some(1));
    assert_eq!(select_variant(&paths, DeviceType::MODEL01), Some(2));
    assert_eq!(select_variant(&paths, DeviceType::HEADLESS), None);
    assert_eq!(select_variant(&paths, DeviceType::UNKNOWN), None);
    assert_eq!(select_variant(&cached(&["a_HEADLESS.hex"]), DeviceType::MODEL01), None);
    assert_eq!(select_variant(&cached(&[]), DeviceType::MODEL01), None);
}

#[test]
fn upload_lines_are_progress_or_the_final_reset() {
    assert_eq!(
        classify_upload_line("Uploading... 50%"),
        UploadStatus { log: Some("Uploading... 50%".into()), state: UploadState::Uploading }
    );
    assert_eq!(
        classify_upload_line("  Sending reset command (with RTC)\n"),
        UploadStatus {
            log: Some("  Sending reset command (with RTC)\n".into()),
            state: UploadState::Finalizing
        }
    );
    assert_eq!(
        classify_upload_line(""),
        UploadStatus { log: Some(String::new()), state: UploadState::Uploading }
    );
}

#[test]
fn a_busy_device_gets_its_own_message() {
    assert_eq!(
        classify_upload_error("ioctl(..) failed: Resource busy"),
        FlashError::DeviceBusy
    );
    assert_eq!(
        classify_upload_error("Board not found"),
        FlashError::Upload("Board not found".into())
    );
    assert_eq!(
        error_status(&FlashError::DeviceBusy),
        UploadStatus {
            log: Some("upload@status Device busy. Using remote display?".into()),
            state: UploadState::Error
        }
    );
    assert_eq!(
        verifying_status(),
        UploadStatus {
            log: Some("upload@status Verifying firmware matches device".into()),
            state: UploadState::Starting
        }
    );
}

#[test]
fn an_attempt_without_a_device_fails_at_once() {
    let mut session = FirmwareSession::new();
    assert_eq!(session.phase(), SessionPhase::Idle);
    let step = session.step(SessionEvent::Start { device: None, version: "1".into() });
    assert_eq!(step.action, SessionAction::Stop);
    assert_eq!(
        step.updates,
        vec![failed("upload@status Unable to fetch details for selected device")]
    );
    assert_eq!(session.phase(), SessionPhase::Idle);
}

#[test]
fn an_attempt_runs_from_start_to_success() {
    let mut session = FirmwareSession::new();
    let start = session.step(SessionEvent::Start {
        device: Some(device(DeviceType::MODEL02, "Teensy MicroMod")),
        version: "4.0.2".into(),
    });
    assert_eq!(start.action, SessionAction::Acquire);
    assert!(start.updates.is_empty());
    assert_eq!(session.phase(), SessionPhase::Acquiring);

    let ready = session.step(SessionEvent::ArchiveReady {
        paths: cached(&["/c/M8_MODEL01.hex", "/c/M8_MODEL02.hex"]),
    });
    assert_eq!(
        ready.action,
        SessionAction::Upload { path: "/c/M8_MODEL02.hex".into(), tag: "1-Teensy".into() }
    );
    assert_eq!(ready.updates, vec![verifying()]);
    assert_eq!(session.phase(), SessionPhase::Uploading);

    let line = session.step(SessionEvent::Output { line: "Uploading...".into() });
    assert_eq!(line.action, SessionAction::Wait);
    assert_eq!(
        line.updates,
        vec![FlashingUpdate::Put(FlashingStatus::Uploading(UploadStatus {
            log: Some("Uploading...".into()),
            state: UploadState::Uploading
        }))]
    );
    let reset =
        session.step(SessionEvent::Output { line: "Sending reset command (with RTC)".into() });
    assert_eq!(
        reset.updates,
        vec![FlashingUpdate::Put(FlashingStatus::Uploading(UploadStatus {
            log: Some("Sending reset command (with RTC)".into()),
            state: UploadState::Finalizing
        }))]
    );

    let end = session.step(SessionEvent::Ended { code: Some(0) });
    assert_eq!(end.action, SessionAction::Stop);
    assert_eq!(end.updates, vec![FlashingUpdate::Clear]);
    assert_eq!(session.phase(), SessionPhase::Idle);
}

#[test]
fn an_attempt_fails_without_a_fitting_file() {
    let mut session = FirmwareSession::new();
    session.step(SessionEvent::Start {
        device: Some(device(DeviceType::MODEL02, "Teensy MicroMod")),
        version: "4.0.2".into(),
    });
    let step = session.step(SessionEvent::ArchiveReady { paths: cached(&["/c/M8.hex"]) });
    assert_eq!(step.action, SessionAction::Stop);
    assert_eq!(
        step.updates,
        vec![verifying(), failed("upload@status No MODEL02 variant found for version 4.0.2")]
    );
    assert_eq!(session.phase(), SessionPhase::Idle);
}

#[test]
fn an_attempt_fails_when_the_archive_fails() {
    let mut session = FirmwareSession::new();
    session.step(SessionEvent::Start {
        device: Some(device(DeviceType::MODEL01, "Teensy 4.0")),
        version: "4.0.2".into(),
    });
    let step = session.step(SessionEvent::ArchiveFailed { cause: "connection reset".into() });
    assert_eq!(step.action, SessionAction::Stop);
    assert_eq!(
        step.updates,
        vec![failed("upload@status Failed to download firmware: connection reset")]
    );
    assert_eq!(session.phase(), SessionPhase::Idle);
}

#[test]
fn an_error_line_ends_the_upload() {
    let mut session = uploading_session(&["M8_MODEL02.hex"]);
    let step = session.step(SessionEvent::ErrorOutput { line: "open failed: Resource busy".into() });
    assert_eq!(step.action, SessionAction::Stop);
    assert_eq!(step.updates, vec![failed("upload@status Device busy. Using remote display?")]);
    assert_eq!(session.phase(), SessionPhase::Idle);

    let mut session = uploading_session(&["M8_MODEL02.hex"]);
    let step = session.step(SessionEvent::ErrorOutput { line: "Board not found".into() });
    assert_eq!(step.updates, vec![failed("Board not found")]);

    let mut session = uploading_session(&["M8_MODEL02.hex"]);
    let step = session.step(SessionEvent::ProcessError { message: "broken pipe".into() });
    assert_eq!(step.action, SessionAction::Stop);
    assert_eq!(step.updates, vec![failed("broken pipe")]);
}

#[test]
fn an_unsuccessful_exit_fails_the_attempt() {
    let mut session = uploading_session(&["M8_MODEL02.hex"]);
    let step = session.step(SessionEvent::Ended { code: Some(1) });
    assert_eq!(step.action, SessionAction::Stop);
    assert_eq!(step.updates, vec![failed("upload@status Upload ended with exit status 1")]);
    assert_eq!(session.phase(), SessionPhase::Idle);

    let mut session = uploading_session(&["M8_MODEL02.hex"]);
    let step = session.step(SessionEvent::Ended { code: None });
    assert_eq!(step.updates, vec![failed("upload@status Upload ended without an exit status")]);
}

#[test]
fn events_out_of_turn_are_ignored() {
    let mut session = FirmwareSession::new();
    for event in [
        SessionEvent::ArchiveReady { paths: cached(&["M8.hex"]) },
        SessionEvent::ArchiveFailed { cause: "x".into() },
        SessionEvent::Output { line: "x".into() },
        SessionEvent::ErrorOutput { line: "x".into() },
        SessionEvent::ProcessError { message: "x".into() },
        SessionEvent::Ended { code: Some(0) },
    ] {
        let step = session.step(event);
        assert_eq!(step.action, SessionAction::Wait);
        assert!(step.updates.is_empty());
        assert_eq!(session.phase(), SessionPhase::Idle);
    }
    let mut session = uploading_session(&["M8_MODEL02.hex"]);
    let step = session.step(SessionEvent::Start {
        device: Some(device(DeviceType::MODEL01, "Teensy 4.0")),
        version: "9".into(),
    });
    assert_eq!(step.action, SessionAction::Wait);
    assert!(step.updates.is_empty());
    assert_eq!(session.phase(), SessionPhase::Uploading);
    let step = session.step(SessionEvent::ArchiveFailed { cause: "late".into() });
    assert_eq!(step.action, SessionAction::Wait);
    assert_eq!(session.phase(), SessionPhase::Uploading);
}

#[test]
fn the_uploader_is_started_with_file_and_board() {
    assert_eq!(
        upload_arguments("/c/M8.hex", "1-Teensy"),
        vec!["upload", "/c/M8.hex", "--board", "1-Teensy"]
    );
}

#[test]
fn numbers_are_read_as_the_standard_library_reads_them() {
    let texts = [
        "0", "7", "42", "007", "+5", "+", "", "-1", " 1", "1 ", "1a", "a", "١", "1_000",
        "18446744073709551615", "18446744073709551616", "99999999999999999999999", "+18446744073709551615",
        "00000000000000000000000000001", "++1", "1+",
    ];
    for text in texts {
        assert_eq!(parse_u64(text), text.parse::<u64>().ok(), "{text:?}");
    }
    assert_eq!(parse_u64("1048576"), Some(1_048_576));
}

#[test]
fn the_announced_size_is_zero_when_unknown() {
    assert_eq!(content_length_size(Some("1048576")), 1_048_576);
    assert_eq!(content_length_size(Some("abc")), 0);
    assert_eq!(content_length_size(Some("")), 0);
    assert_eq!(content_length_size(Some("99999999999999999999999")), 0);
    assert_eq!(content_length_size(None), 0);
}

#[test]
fn progress_is_reported_at_most_once_per_interval() {
    let mut progress = DownloadProgress::start(1000, 50);
    assert_eq!(
        progress,
        DownloadProgress { bytes_downloaded: 0, size: 1000, last_update_ms: 50 }
    );
    assert_eq!(progress.record_chunk(100, 60), Ok(None));
    assert_eq!(progress.record_chunk(100, 149), Ok(None));
    assert_eq!(progress.bytes_downloaded, 200);
    assert_eq!(progress.last_update_ms, 50);
    assert_eq!(
        progress.record_chunk(100, 150),
        Ok(Some(DownloadStatus {
            bytes_downloaded: 300,
            log: None,
            size: 1000,
            state: DownloadState::Downloading
        }))
    );
    assert_eq!(progress.last_update_ms, 150);
    assert_eq!(progress.record_chunk(0, 151), Ok(None));
    assert_eq!(progress.record_chunk(1, 249), Ok(None));
    assert!(progress.record_chunk(1, 1000).unwrap().is_some());
    assert_eq!(progress.record_chunk(1, 999), Ok(None));
    assert_eq!(progress.bytes_downloaded, 303);
    assert_eq!(
        progress.finish(),
        DownloadStatus {
            bytes_downloaded: 303,
            log: Some("Download complete".into()),
            size: 1000,
            state: DownloadState::Complete
        }
    );
}

#[test]
fn a_download_beyond_the_counter_fails() {
    let mut progress = DownloadProgress::start(0, 0);
    assert_eq!(progress.record_chunk(u32::MAX as usize, 1), Ok(None));
    assert_eq!(progress.bytes_downloaded, u32::MAX);
    assert_eq!(progress.record_chunk(1, 500), Err(FlashError::DownloadTooLarge));
    assert_eq!(progress.bytes_downloaded, u32::MAX);
    assert_eq!(progress.last_update_ms, 0);
    assert!(progress.record_chunk(0, 500).unwrap().is_some());
    let mut fresh = DownloadProgress::start(0, 0);
    assert_eq!(fresh.record_chunk(u32::MAX as usize + 1, 500), Err(FlashError::DownloadTooLarge));
    assert_eq!(fresh.bytes_downloaded, 0);
}

#[test]
fn errors_are_of_three_kinds() {
    assert_eq!(FlashError::NoArchiveSource.kind(), FailureKind::StateInconsistency);
    assert_eq!(FlashError::NoTempDirectory.kind(), FailureKind::StateInconsistency);
    assert_eq!(FlashError::NoDevice.kind(), FailureKind::StateInconsistency);
    assert_eq!(
        FlashError::NoVariant { family: DeviceType::MODEL01, version: "1".into() }.kind(),
        FailureKind::PolicyMismatch
    );
    assert_eq!(FlashError::DownloadTooLarge.kind(), FailureKind::Transport);
    assert_eq!(FlashError::DownloadFailed("x".into()).kind(), FailureKind::Transport);
    assert_eq!(FlashError::DeviceBusy.kind(), FailureKind::Transport);
    assert_eq!(FlashError::Upload("x".into()).kind(), FailureKind::Transport);
    assert_eq!(FlashError::UploadExit(Some(2)).kind(), FailureKind::Transport);
}
