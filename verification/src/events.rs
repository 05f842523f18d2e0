//! The events exchanged with the user interface and the status values they
//! carry.

use vstd::prelude::*;
use vstd::string::*;
use crate::device::{ConnectedDevice, DeviceView};

verus! {

/// The characters of an optional text.
pub open spec fn optional_text(text: Option<String>) -> Option<Seq<char>> {
    match text {
        Some(t) => Some(t@),
        None => None,
    }
}

/// Whether two optional texts are both absent or hold the same characters.
pub fn same_optional_text(a: &Option<String>, b: &Option<String>) -> (r: bool)
    ensures
        r == (optional_text(*a) == optional_text(*b)),
{
    match a {
        None => match b {
            None => true,
            Some(y) => false,
        },
        Some(x) => match b {
            None => false,
            Some(y) => *x == *y,
        },
    }
}

/// A copy of an optional text.
pub fn clone_optional_text(text: &Option<String>) -> (copy: Option<String>)
    ensures
        optional_text(copy) == optional_text(*text),
{
    match text {
        None => None,
        Some(t) => Some(t.clone()),
    }
}

/// The payload text to decode for an event: the raw payload, or `null` where
/// the event carries none.
pub open spec fn payload_text(raw: Seq<char>) -> Seq<char> {
    if raw.len() > 0 {
        raw
    } else {
        "null"@
    }
}

/// The payload text to decode for an event.
pub fn payload_or_null<'a>(raw: &'a str) -> (text: &'a str)
    ensures
        text@ == payload_text(raw@),
{
    if !raw.is_empty() {
        raw
    } else {
        "null"
    }
}

/// The user picked a firmware version.
pub struct VersionSelected;

impl VersionSelected {
    /// The name under which the event is sent.
    pub fn event_name() -> (name: &'static str)
        ensures
            name@ == "version-selected"@,
    {
        "version-selected"
    }
}

/// What the user selected: where the archive is, and the version.
#[derive(Debug, PartialEq, Eq)]
pub struct VersionSelectedPayload {
    pub path: String,
    pub version: Option<String>,
}

/// The user interface has finished loading.
pub struct FrontendLoaded;

impl FrontendLoaded {
    /// The name under which the event is sent.
    pub fn event_name() -> (name: &'static str)
        ensures
            name@ == "frontend-loaded"@,
    {
        "frontend-loaded"
    }
}

/// The user asked for a flashing attempt.
pub struct StartFirmwareDownload;

impl StartFirmwareDownload {
    /// The name under which the event is sent.
    pub fn event_name() -> (name: &'static str)
        ensures
            name@ == "start-firmware-download"@,
    {
        "start-firmware-download"
    }
}

/// The device that the user asked to flash.
#[derive(Debug, PartialEq, Eq)]
pub struct StartFirmwareDownloadPayload {
    pub device: String,
}

/// The detailed device collection changed.
pub struct SerialWatchUpdate;

impl SerialWatchUpdate {
    /// The name under which the event is sent.
    pub fn event_name() -> (name: &'static str)
        ensures
            name@ == "serial-watch-update"@,
    {
        "serial-watch-update"
    }
}

/// The detailed device collection, one record per tag, ordered by tag.
#[derive(Debug, PartialEq, Eq)]
pub struct SerialWatchUpdatePayload {
    pub devices: Vec<ConnectedDevice>,
}

impl View for SerialWatchUpdatePayload {
    type V = Seq<DeviceView>;

    open spec fn view(&self) -> Seq<DeviceView> {
        Seq::new(self.devices@.len(), |i: int| self.devices@[i]@)
    }
}

/// How far a download has come.
#[derive(Debug, Clone, Copy, PartialEq, Eq, Structural)]
pub enum DownloadState {
    Stopped,
    Starting,
    Downloading,
    Complete,
    Error,
}

/// The progress of a download: the bytes received, the size that was
/// announced, or 0, and a line for the log.
#[derive(Debug)]
pub struct DownloadStatus {
    pub bytes_downloaded: u32,
    pub log: Option<String>,
    pub size: u64,
    pub state: DownloadState,
}

/// The mathematical value of a download status.
pub struct DownloadStatusView {
    pub bytes_downloaded: u32,
    pub log: Option<Seq<char>>,
    pub size: u64,
    pub state: DownloadState,
}

impl View for DownloadStatus {
    type V = DownloadStatusView;

    open spec fn view(&self) -> DownloadStatusView {
        DownloadStatusView {
            bytes_downloaded: self.bytes_downloaded,
            log: optional_text(self.log),
            size: self.size,
            state: self.state,
        }
    }
}

impl Clone for DownloadStatus {
    fn clone(&self) -> (copy: Self)
        ensures
            copy@ == self@,
    {
        DownloadStatus {
            bytes_downloaded: self.bytes_downloaded,
            log: clone_optional_text(&self.log),
            size: self.size,
            state: self.state,
        }
    }
}

impl PartialEq for DownloadStatus {
    fn eq(&self, other: &Self) -> (r: bool) {
        self.bytes_downloaded == other.bytes_downloaded && same_optional_text(
            &self.log,
            &other.log,
        ) && self.size == other.size && self.state == other.state
    }
}

impl vstd::std_specs::cmp::PartialEqSpecImpl for DownloadStatus {
    open spec fn obeys_eq_spec() -> bool {
        true
    }

    open spec fn eq_spec(&self, other: &Self) -> bool {
        self@ == other@
    }
}

impl Eq for DownloadStatus {

}

/// How far an upload has come.
#[derive(Debug, Clone, Copy, PartialEq, Eq, Structural)]
pub enum UploadState {
    Stopped,
    Starting,
    Uploading,
    Finalizing,
    Error,
}

/// The two parts of a flashing operation.
#[derive(Debug, Clone, Copy, PartialEq, Eq, Structural)]
pub enum FlashingCycle {
    Downloading,
    Uploading,
}

/// The progress of an upload, with a line for the log.
#[derive(Debug)]
pub struct UploadStatus {
    pub log: Option<String>,
    pub state: UploadState,
}

/// The mathematical value of an upload status.
pub struct UploadStatusView {
    pub log: Option<Seq<char>>,
    pub state: UploadState,
}

impl View for UploadStatus {
    type V = UploadStatusView;

    open spec fn view(&self) -> UploadStatusView {
        UploadStatusView { log: optional_text(self.log), state: self.state }
    }
}

impl Clone for UploadStatus {
    fn clone(&self) -> (copy: Self)
        ensures
            copy@ == self@,
    {
        UploadStatus { log: clone_optional_text(&self.log), state: self.state }
    }
}

impl PartialEq for UploadStatus {
    fn eq(&self, other: &Self) -> (r: bool) {
        same_optional_text(&self.log, &other.log) && self.state == other.state
    }
}

impl vstd::std_specs::cmp::PartialEqSpecImpl for UploadStatus {
    open spec fn obeys_eq_spec() -> bool {
        true
    }

    open spec fn eq_spec(&self, other: &Self) -> bool {
        self@ == other@
    }
}

impl Eq for UploadStatus {

}

/// The progress of the flashing operation that is under way.
#[derive(Debug)]
pub enum FlashingStatus {
    Downloading(DownloadStatus),
    Uploading(UploadStatus),
}

/// The mathematical value of a flashing status.
pub enum FlashingStatusView {
    Downloading(DownloadStatusView),
    Uploading(UploadStatusView),
}

impl View for FlashingStatus {
    type V = FlashingStatusView;

    open spec fn view(&self) -> FlashingStatusView {
        match self {
            FlashingStatus::Downloading(status) => FlashingStatusView::Downloading(status@),
            FlashingStatus::Uploading(status) => FlashingStatusView::Uploading(status@),
        }
    }
}

/// The cycle that a flashing status belongs to.
pub open spec fn cycle_of(status: FlashingStatusView) -> FlashingCycle {
    match status {
        FlashingStatusView::Downloading(_) => FlashingCycle::Downloading,
        FlashingStatusView::Uploading(_) => FlashingCycle::Uploading,
    }
}

impl Clone for FlashingStatus {
    fn clone(&self) -> (copy: Self)
        ensures
            copy@ == self@,
    {
        match self {
            FlashingStatus::Downloading(status) => FlashingStatus::Downloading(status.clone()),
            FlashingStatus::Uploading(status) => FlashingStatus::Uploading(status.clone()),
        }
    }
}

impl PartialEq for FlashingStatus {
    fn eq(&self, other: &Self) -> (r: bool) {
        match (self, other) {
            (FlashingStatus::Downloading(a), FlashingStatus::Downloading(b)) => a == b,
            (FlashingStatus::Uploading(a), FlashingStatus::Uploading(b)) => a == b,
            _ => false,
        }
    }
}

impl vstd::std_specs::cmp::PartialEqSpecImpl for FlashingStatus {
    open spec fn obeys_eq_spec() -> bool {
        true
    }

    open spec fn eq_spec(&self, other: &Self) -> bool {
        self@ == other@
    }
}

impl Eq for FlashingStatus {

}

impl FlashingStatus {
    /// The cycle that this status belongs to.
    pub fn cycle(&self) -> (cycle: FlashingCycle)
        ensures
            cycle == cycle_of(self@),
    {
        match self {
            FlashingStatus::Downloading(_) => FlashingCycle::Downloading,
            FlashingStatus::Uploading(_) => FlashingCycle::Uploading,
        }
    }
}

/// The payload that announces a flashing status under its cycle.
#[derive(Debug, PartialEq, Eq)]
pub struct FlashingStatusPayload {
    pub cycle: FlashingCycle,
    pub status: FlashingStatus,
}

impl FlashingStatusPayload {
    /// The payload that announces `status`, under the cycle it belongs to.
    pub fn new(status: FlashingStatus) -> (payload: Self)
        ensures
            payload.status == status,
            payload.cycle == cycle_of(status@),
    {
        let cycle = status.cycle();
        FlashingStatusPayload { cycle, status }
    }
}

} // verus!
