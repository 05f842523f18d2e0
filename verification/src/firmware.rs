//! The decisions of a flashing attempt: where the archive comes from, which
//! cached file fits the device, and what the uploader's output means.

use vstd::prelude::*;
use vstd::string::*;
use crate::device::{family_name, DeviceType};
use crate::events::{UploadState, UploadStatus, UploadStatusView};
use crate::text::{
    chars_of, contains, decimal, decimal_text, ends_with, has_infix, has_prefix, has_suffix, join,
    starts_with,
};

verus! {

/// The marker of an uploader error line that means the device is in use.
pub const RESOURCE_BUSY_SUBSTRING: &'static str = "failed: Resource busy";

/// The marker of the uploader line that announces the final reset.
pub const SENDING_RESET_COMMAND_SUBSTRING: &'static str = "Sending reset command (with RTC)";

/// The value of the `Accept` header of archive requests.
pub const ACCEPT_HEADER: &'static str = "application/vnd.github.raw+json";

/// The value of the `User-Agent` header of archive requests.
pub const USER_AGENT_HEADER: &'static str = "com.dirtywave.updater";

/// The value of the `X-GitHub-Api-Version` header of archive requests.
pub const API_VERSION_HEADER: &'static str = "2022-11-28";

/// The least time between two progress updates of a download, in milliseconds.
pub const PROGRESS_UPDATE_INTERVAL_MS: u64 = 100;

/// Where the firmware archive of the next flashing attempt comes from.
#[derive(Debug, PartialEq, Eq)]
pub enum ArchiveSource {
    /// Path to a local archive or firmware file.
    LocalPath(String),
    /// No source is selected.
    Unset,
    /// URL to download the archive from.
    RemoteUrl(String),
}

/// The mathematical value of an archive source.
pub enum ArchiveSourceView {
    LocalPath(Seq<char>),
    Unset,
    RemoteUrl(Seq<char>),
}

impl View for ArchiveSource {
    type V = ArchiveSourceView;

    open spec fn view(&self) -> ArchiveSourceView {
        match self {
            ArchiveSource::LocalPath(path) => ArchiveSourceView::LocalPath(path@),
            ArchiveSource::Unset => ArchiveSourceView::Unset,
            ArchiveSource::RemoteUrl(url) => ArchiveSourceView::RemoteUrl(url@),
        }
    }
}

impl Default for ArchiveSource {
    fn default() -> (source: Self)
        ensures
            source@ == ArchiveSourceView::Unset,
    {
        ArchiveSource::Unset
    }
}

impl Clone for ArchiveSource {
    fn clone(&self) -> (copy: Self)
        ensures
            copy@ == self@,
    {
        match self {
            ArchiveSource::LocalPath(path) => ArchiveSource::LocalPath(path.clone()),
            ArchiveSource::Unset => ArchiveSource::Unset,
            ArchiveSource::RemoteUrl(url) => ArchiveSource::RemoteUrl(url.clone()),
        }
    }
}

/// Whether a selected path names a remote archive.
pub open spec fn is_remote(path: Seq<char>) -> bool {
    has_prefix(path, "http://"@) || has_prefix(path, "https://"@)
}

/// The source that a selected path stands for.
pub open spec fn source_of(path: Seq<char>) -> ArchiveSourceView {
    if is_remote(path) {
        ArchiveSourceView::RemoteUrl(path)
    } else {
        ArchiveSourceView::LocalPath(path)
    }
}

impl ArchiveSource {
    /// The source that a selected path stands for: a remote URL where it
    /// begins with `http://` or `https://`, a local path otherwise.
    pub fn from_selection(path: &str) -> (source: Self)
        ensures
            source@ == source_of(path@),
    {
        if starts_with(path, "http://") || starts_with(path, "https://") {
            ArchiveSource::RemoteUrl(String::from_str(path))
        } else {
            ArchiveSource::LocalPath(String::from_str(path))
        }
    }
}

/// Whether a path names a `.hex` firmware file: it ends in `.hex`, and the
/// file name has at least one character before that suffix.
pub open spec fn is_hex_path(path: Seq<char>) -> bool {
    &&& has_suffix(path, ".hex"@)
    &&& path.len() > 4
    &&& path[path.len() - 5] != '/'
}

/// Whether a path names a `.hex` firmware file.
pub fn is_hex(path: &str) -> (r: bool)
    ensures
        r == is_hex_path(path@),
{
    proof {
        reveal_strlit(".hex");
    }
    let chars = chars_of(path);
    ends_with(path, ".hex") && chars.len() > 4 && chars[chars.len() - 5] != '/'
}

/// Why a flashing attempt failed.
#[derive(Debug, PartialEq, Eq)]
pub enum FlashError {
    /// No archive source was selected.
    NoArchiveSource,
    /// No directory for downloads was set up.
    NoTempDirectory,
    /// More bytes arrived than the progress counter can hold.
    DownloadTooLarge,
    /// No device is being followed.
    NoDevice,
    /// The archive could not be fetched or unpacked.
    DownloadFailed(String),
    /// No cached file fits the device.
    NoVariant { family: DeviceType, version: String },
    /// The device is held by another program.
    DeviceBusy,
    /// The uploader reported an error.
    Upload(String),
    /// The uploader ended with a status other than success.
    UploadExit(Option<i32>),
}

/// The mathematical value of a flashing error.
pub enum FlashErrorView {
    NoArchiveSource,
    NoTempDirectory,
    DownloadTooLarge,
    NoDevice,
    DownloadFailed(Seq<char>),
    NoVariant { family: DeviceType, version: Seq<char> },
    DeviceBusy,
    Upload(Seq<char>),
    UploadExit(Option<i32>),
}

impl View for FlashError {
    type V = FlashErrorView;

    open spec fn view(&self) -> FlashErrorView {
        match self {
            FlashError::NoArchiveSource => FlashErrorView::NoArchiveSource,
            FlashError::NoTempDirectory => FlashErrorView::NoTempDirectory,
            FlashError::DownloadTooLarge => FlashErrorView::DownloadTooLarge,
            FlashError::NoDevice => FlashErrorView::NoDevice,
            FlashError::DownloadFailed(cause) => FlashErrorView::DownloadFailed(cause@),
            FlashError::NoVariant { family, version } => FlashErrorView::NoVariant {
                family: *family,
                version: version@,
            },
            FlashError::DeviceBusy => FlashErrorView::DeviceBusy,
            FlashError::Upload(line) => FlashErrorView::Upload(line@),
            FlashError::UploadExit(code) => FlashErrorView::UploadExit(*code),
        }
    }
}

/// The single line that tells the user of a flashing error.
pub open spec fn flash_error_message(error: FlashErrorView) -> Seq<char> {
    match error {
        FlashErrorView::NoArchiveSource => "No archive source provided"@,
        FlashErrorView::NoTempDirectory => "Temp directory not set"@,
        FlashErrorView::DownloadTooLarge => "Download exceeds the progress counter"@,
        FlashErrorView::NoDevice => "upload@status Unable to fetch details for selected device"@,
        FlashErrorView::DownloadFailed(cause) => "upload@status Failed to download firmware: "@
            + cause,
        FlashErrorView::NoVariant { family, version } => "upload@status No "@ + family_name(family)
            + " variant found for version "@ + version,
        FlashErrorView::DeviceBusy => "upload@status Device busy. Using remote display?"@,
        FlashErrorView::Upload(line) => line,
        FlashErrorView::UploadExit(Some(code)) => "upload@status Upload ended with exit status "@
            + decimal(code as int),
        FlashErrorView::UploadExit(None) => "upload@status Upload ended without an exit status"@,
    }
}

impl FlashError {
    /// The single line that tells the user of this error.
    pub fn message(&self) -> (text: String)
        ensures
            text@ == flash_error_message(self@),
    {
        match self {
            FlashError::NoArchiveSource => String::from_str("No archive source provided"),
            FlashError::NoTempDirectory => String::from_str("Temp directory not set"),
            FlashError::DownloadTooLarge => String::from_str(
                "Download exceeds the progress counter",
            ),
            FlashError::NoDevice => String::from_str(
                "upload@status Unable to fetch details for selected device",
            ),
            FlashError::DownloadFailed(cause) => join(
                "upload@status Failed to download firmware: ",
                cause.as_str(),
            ),
            FlashError::NoVariant { family, version } => {
                let head = join("upload@status No ", family.name());
                let middle = head.concat(" variant found for version ");
                middle.concat(version.as_str())
            },
            FlashError::DeviceBusy => String::from_str(
                "upload@status Device busy. Using remote display?",
            ),
            FlashError::Upload(line) => line.clone(),
            FlashError::UploadExit(Some(code)) => {
                let digits = decimal_text(*code as i64);
                join("upload@status Upload ended with exit status ", digits.as_str())
            },
            FlashError::UploadExit(None) => String::from_str(
                "upload@status Upload ended without an exit status",
            ),
        }
    }
}

/// Why the firmware store could not be set up.
#[derive(Debug, PartialEq, Eq)]
pub enum FirmwareStoreStatus {
    CacheDirFailure(String),
    TempDirFailure(String),
}

/// The text that tells of a store failure.
pub open spec fn store_status_message(status: FirmwareStoreStatus) -> Seq<char> {
    match status {
        FirmwareStoreStatus::CacheDirFailure(path) => "Cache directory initialization failure "@
            + path@,
        FirmwareStoreStatus::TempDirFailure(path) => "Temp directory initialization failure "@
            + path@,
    }
}

impl FirmwareStoreStatus {
    /// The text that tells of this failure.
    pub fn message(&self) -> (text: String)
        ensures
            text@ == store_status_message(*self),
    {
        match self {
            FirmwareStoreStatus::CacheDirFailure(path) => join(
                "Cache directory initialization failure ",
                path.as_str(),
            ),
            FirmwareStoreStatus::TempDirFailure(path) => join(
                "Temp directory initialization failure ",
                path.as_str(),
            ),
        }
    }
}

/// What has to be done to turn an archive source into firmware files.
#[derive(Debug, PartialEq, Eq)]
pub enum Acquisition {
    /// The source is a firmware file: use it as it is.
    UseFile(String),
    /// The source is a local archive: extract its `.hex` files.
    Extract(String),
    /// The source is remote: download it, then extract its `.hex` files.
    Download(String),
}

/// The mathematical value of an acquisition.
pub enum AcquisitionView {
    UseFile(Seq<char>),
    Extract(Seq<char>),
    Download(Seq<char>),
}

impl View for Acquisition {
    type V = AcquisitionView;

    open spec fn view(&self) -> AcquisitionView {
        match self {
            Acquisition::UseFile(path) => AcquisitionView::UseFile(path@),
            Acquisition::Extract(path) => AcquisitionView::Extract(path@),
            Acquisition::Download(url) => AcquisitionView::Download(url@),
        }
    }
}

/// What an archive source asks for, or nothing where none is selected.
pub open spec fn acquisition_of(source: ArchiveSourceView) -> Option<AcquisitionView> {
    match source {
        ArchiveSourceView::LocalPath(path) => if is_hex_path(path) {
            Some(AcquisitionView::UseFile(path))
        } else {
            Some(AcquisitionView::Extract(path))
        },
        ArchiveSourceView::Unset => None,
        ArchiveSourceView::RemoteUrl(url) => Some(AcquisitionView::Download(url)),
    }
}

/// Plans how to acquire the firmware files of `source`. Fails only where no
/// source is selected.
pub fn plan_acquisition(source: &ArchiveSource) -> (plan: Result<Acquisition, FlashError>)
    ensures
        match plan {
            Ok(step) => acquisition_of(source@) == Some(step@),
            Err(error) => acquisition_of(source@) is None && error@
                == FlashErrorView::NoArchiveSource,
        },
{
    match source {
        ArchiveSource::LocalPath(path) => {
            if is_hex(path.as_str()) {
                Ok(Acquisition::UseFile(path.clone()))
            } else {
                Ok(Acquisition::Extract(path.clone()))
            }
        },
        ArchiveSource::Unset => Err(FlashError::NoArchiveSource),
        ArchiveSource::RemoteUrl(url) => Ok(Acquisition::Download(url.clone())),
    }
}

/// The name of the file that a downloaded archive of `version` is kept in.
pub fn archive_file_name(version: &str) -> (name: String)
    ensures
        name@ == version@ + ".zip"@,
{
    join(version, ".zip")
}

/// A cached firmware file and the family its name points to.
#[derive(Debug, PartialEq, Eq)]
pub struct CachePath {
    pub device_type: DeviceType,
    pub path: String,
}

/// The cached firmware files of an archive.
pub type CachePaths = Vec<CachePath>;

/// The family that a cached file's name points to.
pub open spec fn path_family(path: Seq<char>) -> DeviceType {
    if has_infix(path, "MODEL02"@) {
        DeviceType::MODEL02
    } else {
        DeviceType::MODEL01
    }
}

/// Tags each path with the family its name points to, keeping the order.
pub fn tag_paths(paths: Vec<String>) -> (tagged: CachePaths)
    ensures
        tagged.len() == paths.len(),
        forall|i: int|
            0 <= i < paths.len() ==> (#[trigger] tagged@[i]).path@ == paths@[i]@ && tagged@[i].device_type
                == path_family(paths@[i]@),
{
    let mut tagged: Vec<CachePath> = Vec::new();
    let mut i: usize = 0;
    while i < paths.len()
        invariant
            i <= paths.len(),
            tagged.len() == i,
            forall|j: int|
                0 <= j < i ==> (#[trigger] tagged@[j]).path@ == paths@[j]@ && tagged@[j].device_type
                    == path_family(paths@[j]@),
        decreases paths.len() - i,
    {
        let device_type = if contains(paths[i].as_str(), "MODEL02") {
            DeviceType::MODEL02
        } else {
            DeviceType::MODEL01
        };
        tagged.push(CachePath { device_type, path: paths[i].clone() });
        i = i + 1;
    }
    tagged
}

/// Whether a cached file fits a device of the given family. A file fits a
/// ModelTwo device where its name holds that family's name. It fits a
/// ModelOne device where its name holds that family's name, or holds neither
/// the ModelTwo nor the Headless name. No file fits another family.
pub open spec fn variant_matches(path: Seq<char>, family: DeviceType) -> bool {
    match family {
        DeviceType::MODEL02 => has_infix(path, family_name(DeviceType::MODEL02)),
        DeviceType::MODEL01 => has_infix(path, family_name(DeviceType::MODEL01)) || (!has_infix(
            path,
            family_name(DeviceType::MODEL02),
        ) && !has_infix(path, family_name(DeviceType::HEADLESS))),
        _ => false,
    }
}

/// Whether a cached file fits a device of the given family.
pub fn matches_variant(path: &str, family: DeviceType) -> (r: bool)
    ensures
        r == variant_matches(path@, family),
{
    match family {
        DeviceType::MODEL02 => contains(path, DeviceType::MODEL02.name()),
        DeviceType::MODEL01 => contains(path, DeviceType::MODEL01.name()) || (!contains(
            path,
            DeviceType::MODEL02.name(),
        ) && !contains(path, DeviceType::HEADLESS.name())),
        _ => false,
    }
}

/// The index of the first cached file that fits the family, if any does.
pub open spec fn first_variant(paths: Seq<Seq<char>>, family: DeviceType) -> Option<int>
    decreases paths.len(),
{
    if paths.len() == 0 {
        None
    } else if variant_matches(paths[0], family) {
        Some(0)
    } else {
        match first_variant(paths.drop_first(), family) {
            Some(i) => Some(i + 1),
            None => None,
        }
    }
}

/// The paths of a list of cached files.
pub open spec fn cached_paths(paths: Seq<CachePath>) -> Seq<Seq<char>> {
    Seq::new(paths.len(), |i: int| paths[i].path@)
}

/// What `first_variant` picks is the least index of a file that fits.
pub proof fn lemma_first_variant(paths: Seq<Seq<char>>, family: DeviceType)
    ensures
        match first_variant(paths, family) {
            Some(i) => 0 <= i < paths.len() && variant_matches(paths[i], family) && forall|j: int|
                0 <= j < i ==> !variant_matches(#[trigger] paths[j], family),
            None => forall|j: int|
                0 <= j < paths.len() ==> !variant_matches(#[trigger] paths[j], family),
        },
    decreases paths.len(),
{
    if paths.len() > 0 && !variant_matches(paths[0], family) {
        let rest = paths.drop_first();
        lemma_first_variant(rest, family);
        match first_variant(rest, family) {
            Some(i) => {
                assert forall|j: int| 0 <= j < i + 1 implies !variant_matches(
                    #[trigger] paths[j],
                    family,
                ) by {
                    if j > 0 {
                        assert(paths[j] == rest[j - 1]);
                    }
                }
            },
            None => {
                assert forall|j: int| 0 <= j < paths.len() implies !variant_matches(
                    #[trigger] paths[j],
                    family,
                ) by {
                    if j > 0 {
                        assert(paths[j] == rest[j - 1]);
                    }
                }
            },
        }
    }
}

/// An index with a fitting file and none before it is what `first_variant`
/// picks.
pub proof fn lemma_first_variant_is(paths: Seq<Seq<char>>, family: DeviceType, at: int)
    requires
        0 <= at <= paths.len(),
        forall|j: int| 0 <= j < at ==> !variant_matches(#[trigger] paths[j], family),
        at < paths.len() ==> variant_matches(paths[at], family),
    ensures
        first_variant(paths, family) == if at < paths.len() {
            Some(at)
        } else {
            None
        },
    decreases paths.len(),
{
    if paths.len() > 0 && at > 0 {
        let rest = paths.drop_first();
        assert(!variant_matches(paths[0], family));
        assert forall|j: int| 0 <= j < at - 1 implies !variant_matches(
            #[trigger] rest[j],
            family,
        ) by {
            assert(rest[j] == paths[j + 1]);
        }
        if at < paths.len() {
            assert(rest[at - 1] == paths[at]);
        }
        lemma_first_variant_is(rest, family, at - 1);
    }
}

/// Selects the first cached file that fits a device of the given family.
pub fn select_variant(paths: &Vec<CachePath>, family: DeviceType) -> (found: Option<usize>)
    ensures
        match found {
            Some(i) => i < paths.len() && first_variant(cached_paths(paths@), family) == Some(
                i as int,
            ),
            None => first_variant(cached_paths(paths@), family) is None,
        },
{
    let mut i: usize = 0;
    while i < paths.len()
        invariant
            i <= paths.len(),
            forall|j: int|
                0 <= j < i ==> !variant_matches(#[trigger] cached_paths(paths@)[j], family),
        decreases paths.len() - i,
    {
        if matches_variant(paths[i].path.as_str(), family) {
            proof {
                assert(cached_paths(paths@)[i as int] == paths@[i as int].path@);
                lemma_first_variant_is(cached_paths(paths@), family, i as int);
            }
            return Some(i);
        }
        assert(cached_paths(paths@)[i as int] == paths@[i as int].path@);
        i = i + 1;
    }
    proof {
        lemma_first_variant_is(cached_paths(paths@), family, paths@.len() as int);
    }
    None
}

/// The status that a line of the uploader's output stands for.
pub open spec fn upload_line_status(line: Seq<char>) -> UploadStatusView {
    UploadStatusView {
        log: Some(line),
        state: if has_infix(line, SENDING_RESET_COMMAND_SUBSTRING@) {
            UploadState::Finalizing
        } else {
            UploadState::Uploading
        },
    }
}

/// The status that a line of the uploader's output stands for: finalizing
/// where it announces the reset, uploading otherwise.
pub fn classify_upload_line(line: &str) -> (status: UploadStatus)
    ensures
        status@ == upload_line_status(line@),
{
    let state = if contains(line, SENDING_RESET_COMMAND_SUBSTRING) {
        UploadState::Finalizing
    } else {
        UploadState::Uploading
    };
    UploadStatus { log: Some(String::from_str(line)), state }
}

/// The error that a line on the uploader's error channel stands for.
pub open spec fn upload_error_of(line: Seq<char>) -> FlashErrorView {
    if has_infix(line, RESOURCE_BUSY_SUBSTRING@) {
        FlashErrorView::DeviceBusy
    } else {
        FlashErrorView::Upload(line)
    }
}

/// The error that a line on the uploader's error channel stands for: the
/// device is busy where the line says so, the line itself otherwise.
pub fn classify_upload_error(line: &str) -> (error: FlashError)
    ensures
        error@ == upload_error_of(line@),
{
    if contains(line, RESOURCE_BUSY_SUBSTRING) {
        FlashError::DeviceBusy
    } else {
        FlashError::Upload(String::from_str(line))
    }
}

/// The status that reports a failed attempt.
pub open spec fn failure_status(error: FlashErrorView) -> UploadStatusView {
    UploadStatusView { log: Some(flash_error_message(error)), state: UploadState::Error }
}

/// The status that reports a failed attempt: an upload error that carries
/// the error's message.
pub fn error_status(error: &FlashError) -> (status: UploadStatus)
    ensures
        status@ == failure_status(error@),
{
    UploadStatus { log: Some(error.message()), state: UploadState::Error }
}

/// The status shown while the cached files are matched to the device.
pub open spec fn checking_status() -> UploadStatusView {
    UploadStatusView {
        log: Some("upload@status Verifying firmware matches device"@),
        state: UploadState::Starting,
    }
}

/// The status shown while the cached files are matched to the device.
pub fn verifying_status() -> (status: UploadStatus)
    ensures
        status@ == checking_status(),
{
    UploadStatus {
        log: Some(String::from_str("upload@status Verifying firmware matches device")),
        state: UploadState::Starting,
    }
}

/// The kinds of failure of a flashing attempt.
#[derive(Debug, Clone, Copy, PartialEq, Eq, Structural)]
pub enum FailureKind {
    /// The network or the uploader's process failed.
    Transport,
    /// No firmware fits the device.
    PolicyMismatch,
    /// The attempt was asked for without what it needs.
    StateInconsistency,
}

/// The kind of a flashing error.
pub open spec fn failure_kind(error: FlashErrorView) -> FailureKind {
    match error {
        FlashErrorView::NoArchiveSource => FailureKind::StateInconsistency,
        FlashErrorView::NoTempDirectory => FailureKind::StateInconsistency,
        FlashErrorView::NoDevice => FailureKind::StateInconsistency,
        FlashErrorView::NoVariant { .. } => FailureKind::PolicyMismatch,
        FlashErrorView::DownloadTooLarge => FailureKind::Transport,
        FlashErrorView::DownloadFailed(_) => FailureKind::Transport,
        FlashErrorView::DeviceBusy => FailureKind::Transport,
        FlashErrorView::Upload(_) => FailureKind::Transport,
        FlashErrorView::UploadExit(_) => FailureKind::Transport,
    }
}

impl FlashError {
    /// The kind of this error.
    pub fn kind(&self) -> (kind: FailureKind)
        ensures
            kind == failure_kind(self@),
    {
        match self {
            FlashError::NoArchiveSource => FailureKind::StateInconsistency,
            FlashError::NoTempDirectory => FailureKind::StateInconsistency,
            FlashError::NoDevice => FailureKind::StateInconsistency,
            FlashError::NoVariant { .. } => FailureKind::PolicyMismatch,
            _ => FailureKind::Transport,
        }
    }
}

} // verus!
