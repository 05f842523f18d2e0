//! The application state, the consolidated device state derived from it, and
//! the notifications that a change of either gives rise to.

use vstd::prelude::*;
use vstd::string::*;
use crate::device::{ConnectedDevice, DeviceView};
use crate::digest::records_view;
use crate::entry::{EntryView, TyCmdListEntry};
use crate::events::{
    optional_text, DownloadStatus, DownloadStatusView, FlashingStatus,
    FlashingStatusView, SerialWatchUpdatePayload, UploadStatus, UploadStatusView,
    VersionSelectedPayload,
};
use crate::firmware::{is_remote, source_of, ArchiveSource, ArchiveSourceView};
use crate::parser::{drain, entries_view, EntryParser};
use crate::registry::{
    content_digest, lookup, records_of, tag_of, timestamp_now, transition, DeviceRegistry,
};
use crate::session::{optional_device, FlashingUpdate, FlashingUpdateView};
use crate::text::same_text;

verus! {

/// The one state of the device that the user interface is shown.
#[derive(Debug)]
#[allow(inconsistent_fields)]
pub enum DeviceState {
    Disconnected,
    Ready { device: ConnectedDevice },
    Downloading { device: ConnectedDevice, status: DownloadStatus },
    Uploading { device: ConnectedDevice, status: UploadStatus },
    Error { device: ConnectedDevice, message: String },
}

/// The mathematical value of a device state.
#[allow(inconsistent_fields)]
pub enum DeviceStateView {
    Disconnected,
    Ready { device: DeviceView },
    Downloading { device: DeviceView, status: DownloadStatusView },
    Uploading { device: DeviceView, status: UploadStatusView },
    Error { device: DeviceView, message: Seq<char> },
}

impl View for DeviceState {
    type V = DeviceStateView;

    open spec fn view(&self) -> DeviceStateView {
        match self {
            DeviceState::Disconnected => DeviceStateView::Disconnected,
            DeviceState::Ready { device } => DeviceStateView::Ready { device: device@ },
            DeviceState::Downloading { device, status } => DeviceStateView::Downloading {
                device: device@,
                status: status@,
            },
            DeviceState::Uploading { device, status } => DeviceStateView::Uploading {
                device: device@,
                status: status@,
            },
            DeviceState::Error { device, message } => DeviceStateView::Error {
                device: device@,
                message: message@,
            },
        }
    }
}

impl Clone for DeviceState {
    fn clone(&self) -> (copy: Self)
        ensures
            copy@ == self@,
    {
        match self {
            DeviceState::Disconnected => DeviceState::Disconnected,
            DeviceState::Ready { device } => DeviceState::Ready { device: device.clone() },
            DeviceState::Downloading { device, status } => DeviceState::Downloading {
                device: device.clone(),
                status: status.clone(),
            },
            DeviceState::Uploading { device, status } => DeviceState::Uploading {
                device: device.clone(),
                status: status.clone(),
            },
            DeviceState::Error { device, message } => DeviceState::Error {
                device: device.clone(),
                message: message.clone(),
            },
        }
    }
}

impl PartialEq for DeviceState {
    fn eq(&self, other: &Self) -> (r: bool) {
        match (self, other) {
            (DeviceState::Disconnected, DeviceState::Disconnected) => true,
            (DeviceState::Ready { device: a }, DeviceState::Ready { device: b }) => a == b,
            (
                DeviceState::Downloading { device: a, status: s },
                DeviceState::Downloading { device: b, status: t },
            ) => a == b && s == t,
            (
                DeviceState::Uploading { device: a, status: s },
                DeviceState::Uploading { device: b, status: t },
            ) => a == b && s == t,
            (
                DeviceState::Error { device: a, message: s },
                DeviceState::Error { device: b, message: t },
            ) => a == b && *s == *t,
            _ => false,
        }
    }
}

impl vstd::std_specs::cmp::PartialEqSpecImpl for DeviceState {
    open spec fn obeys_eq_spec() -> bool {
        true
    }

    open spec fn eq_spec(&self, other: &Self) -> bool {
        self@ == other@
    }
}

impl Eq for DeviceState {

}

/// The payload that announces a consolidated state.
#[derive(Debug, PartialEq, Eq)]
pub struct DeviceStateUpdatePayload {
    pub state: DeviceState,
}

/// The state of an optional payload.
pub open spec fn optional_state(payload: Option<DeviceStateUpdatePayload>) -> Option<
    DeviceStateView,
> {
    match payload {
        Some(p) => Some(p.state@),
        None => None,
    }
}

/// The state of an optional device state.
pub open spec fn optional_device_state(state: Option<DeviceState>) -> Option<DeviceStateView> {
    match state {
        Some(s) => Some(s@),
        None => None,
    }
}

/// The records of an optional payload.
pub open spec fn optional_records(payload: Option<SerialWatchUpdatePayload>) -> Option<
    Seq<DeviceView>,
> {
    match payload {
        Some(p) => Some(p@),
        None => None,
    }
}

/// The status of an optional flashing status.
pub open spec fn optional_flashing(flashing: Option<FlashingStatus>) -> Option<
    FlashingStatusView,
> {
    match flashing {
        Some(f) => Some(f@),
        None => None,
    }
}

/// The consolidated state of a device and a flashing operation: without a
/// device, disconnected; with a device and no flashing operation, ready;
/// with both, downloading or uploading as the flashing status says.
pub open spec fn consolidate(
    device: Option<DeviceView>,
    flashing: Option<FlashingStatusView>,
) -> DeviceStateView {
    match device {
        None => DeviceStateView::Disconnected,
        Some(d) => match flashing {
            None => DeviceStateView::Ready { device: d },
            Some(FlashingStatusView::Downloading(status)) => DeviceStateView::Downloading {
                device: d,
                status,
            },
            Some(FlashingStatusView::Uploading(status)) => DeviceStateView::Uploading {
                device: d,
                status,
            },
        },
    }
}

/// The mathematical value of the application state.
pub struct AppStateView {
    pub archive_source: ArchiveSourceView,
    pub cache_dir: Option<Seq<char>>,
    /// The device that is being followed.
    pub device: Option<DeviceView>,
    /// The tracked devices, by tag.
    pub devices: Map<Seq<char>, DeviceView>,
    /// The digest of the device collection that was last announced.
    pub last_digest: Option<u64>,
    pub flashing: Option<FlashingStatusView>,
    /// The consolidated state that was last announced.
    pub last_emitted: Option<DeviceStateView>,
    pub size: u64,
    pub temp_dir: Option<Seq<char>>,
    pub version: Seq<char>,
}

/// The consolidated state of an application state.
pub open spec fn consolidated(state: AppStateView) -> DeviceStateView {
    consolidate(state.device, state.flashing)
}

/// The consolidated state to announce: the current one, unless it is the
/// one that was last announced.
pub open spec fn state_to_announce(state: AppStateView) -> Option<DeviceStateView> {
    if state.last_emitted == Some(consolidated(state)) {
        None
    } else {
        Some(consolidated(state))
    }
}

/// The state after the consolidated state has been looked at for
/// announcing: the current one is remembered as announced.
pub open spec fn after_state_announcement(state: AppStateView) -> AppStateView {
    AppStateView { last_emitted: Some(consolidated(state)), ..state }
}

/// The device collection to announce: the current records, unless their
/// digest is the one that was last announced.
pub open spec fn devices_to_announce(state: AppStateView) -> Option<Seq<DeviceView>> {
    if state.last_digest == Some(content_digest(state.devices)) {
        None
    } else {
        Some(records_of(state.devices))
    }
}

/// The state after the device collection has been looked at for announcing:
/// its digest is remembered as announced.
pub open spec fn after_devices_announcement(state: AppStateView) -> AppStateView {
    AppStateView { last_digest: Some(content_digest(state.devices)), ..state }
}

/// The device that is followed after a descriptor with `tag` has been
/// taken: the record under that tag where there is one; nothing where there
/// is none and the followed device had that tag; the followed device as it
/// was otherwise.
pub open spec fn followed(
    device: Option<DeviceView>,
    devices: Map<Seq<char>, DeviceView>,
    tag: Seq<char>,
) -> Option<DeviceView> {
    match lookup(devices, tag) {
        Some(record) => Some(record),
        None => match device {
            Some(d) => if tag_of(d) == tag {
                None
            } else {
                device
            },
            None => None,
        },
    }
}

/// The state after a descriptor has changed the device collection at time
/// `now`, before anything is announced.
pub open spec fn after_transition(state: AppStateView, entry: EntryView, now: int) -> AppStateView {
    let devices = transition(state.devices, entry, now);
    AppStateView { devices, device: followed(state.device, devices, entry.tag), ..state }
}

/// What taking a descriptor gives: the device collection and the
/// consolidated state to announce, each only where it changed.
pub struct NotificationsView {
    pub devices: Option<Seq<DeviceView>>,
    pub state: Option<DeviceStateView>,
}

/// The notifications that taking a descriptor at time `now` gives.
pub open spec fn entry_notifications(
    state: AppStateView,
    entry: EntryView,
    now: int,
) -> NotificationsView {
    let moved = after_transition(state, entry, now);
    NotificationsView { devices: devices_to_announce(moved), state: state_to_announce(moved) }
}

/// The state after a descriptor has been taken at time `now`.
pub open spec fn after_entry(state: AppStateView, entry: EntryView, now: int) -> AppStateView {
    after_state_announcement(after_devices_announcement(after_transition(state, entry, now)))
}

/// The state after a run of descriptors has been taken, one after the
/// other, at time `now`.
pub open spec fn after_entries(state: AppStateView, entries: Seq<EntryView>, now: int) -> AppStateView
    decreases entries.len(),
{
    if entries.len() == 0 {
        state
    } else {
        after_entry(after_entries(state, entries.drop_last(), now), entries.last(), now)
    }
}

/// The notifications that a run of descriptors gives, one for each
/// descriptor, in order.
pub open spec fn entries_notifications(
    state: AppStateView,
    entries: Seq<EntryView>,
    now: int,
) -> Seq<NotificationsView> {
    Seq::new(
        entries.len(),
        |i: int| entry_notifications(after_entries(state, entries.take(i), now), entries[i], now),
    )
}

/// The state after the user has selected an archive and a version: the
/// source that the path stands for, the version or an empty one, and for a
/// local path no announced size.
pub open spec fn after_selection(
    state: AppStateView,
    path: Seq<char>,
    version: Option<Seq<char>>,
) -> AppStateView {
    AppStateView {
        archive_source: source_of(path),
        size: if is_remote(path) {
            state.size
        } else {
            0
        },
        version: match version {
            Some(v) => v,
            None => Seq::empty(),
        },
        ..state
    }
}

/// The flashing status after an update.
pub open spec fn flashing_after(update: FlashingUpdateView) -> Option<FlashingStatusView> {
    match update {
        FlashingUpdateView::Put(status) => Some(status),
        FlashingUpdateView::Clear => None,
    }
}

/// What taking a descriptor gives: the payloads to send, each only where
/// what it announces has changed.
#[derive(Debug, PartialEq, Eq)]
pub struct Notifications {
    pub devices: Option<SerialWatchUpdatePayload>,
    pub state: Option<DeviceStateUpdatePayload>,
}

impl View for Notifications {
    type V = NotificationsView;

    open spec fn view(&self) -> NotificationsView {
        NotificationsView {
            devices: optional_records(self.devices),
            state: optional_state(self.state),
        }
    }
}

/// The views of a list of notifications.
pub open spec fn notifications_view(list: Seq<Notifications>) -> Seq<NotificationsView> {
    Seq::new(list.len(), |i: int| list[i]@)
}

/// The shared state of the application.
#[derive(Debug)]
pub struct AppStateData {
    pub archive_source: ArchiveSource,
    pub cache_dir: Option<String>,
    pub device: Option<ConnectedDevice>,
    pub devices: DeviceRegistry,
    pub flashing: Option<FlashingStatus>,
    /// The consolidated state that was last announced.
    pub last_emitted_state: Option<DeviceState>,
    pub size: u64,
    pub temp_dir: Option<String>,
    pub version: String,
}

impl View for AppStateData {
    type V = AppStateView;

    open spec fn view(&self) -> AppStateView {
        AppStateView {
            archive_source: self.archive_source@,
            cache_dir: optional_text(self.cache_dir),
            device: optional_device(self.device),
            devices: self.devices@,
            last_digest: self.devices.remembered(),
            flashing: optional_flashing(self.flashing),
            last_emitted: optional_device_state(self.last_emitted_state),
            size: self.size,
            temp_dir: optional_text(self.temp_dir),
            version: self.version@,
        }
    }
}

/// The application state at start: nothing selected, no device, nothing
/// announced.
pub open spec fn initial_state() -> AppStateView {
    AppStateView {
        archive_source: ArchiveSourceView::Unset,
        cache_dir: None,
        device: None,
        devices: Map::empty(),
        last_digest: None,
        flashing: None,
        last_emitted: None,
        size: 0,
        temp_dir: None,
        version: Seq::empty(),
    }
}

impl Default for AppStateData {
    fn default() -> (state: Self)
        ensures
            state@ == initial_state(),
    {
        AppStateData {
            archive_source: ArchiveSource::Unset,
            cache_dir: None,
            device: None,
            devices: DeviceRegistry::new(),
            flashing: None,
            last_emitted_state: None,
            size: 0,
            temp_dir: None,
            version: String::new(),
        }
    }
}

/// A copy of a list of records.
fn clone_records(records: &Vec<ConnectedDevice>) -> (copy: Vec<ConnectedDevice>)
    ensures
        records_view(copy@) == records_view(records@),
{
    let mut copy: Vec<ConnectedDevice> = Vec::new();
    let mut i: usize = 0;
    while i < records.len()
        invariant
            i <= records.len(),
            copy.len() == i,
            forall|j: int| 0 <= j < i ==> copy@[j]@ == records@[j]@,
        decreases records.len() - i,
    {
        copy.push(records[i].clone());
        i = i + 1;
    }
    assert(records_view(copy@) =~= records_view(records@));
    copy
}

impl AppStateData {
    /// The consolidated state of the followed device and the flashing
    /// operation.
    pub fn consolidated_state(&self) -> (state: DeviceState)
        ensures
            state@ == consolidated(self@),
    {
        match &self.device {
            None => DeviceState::Disconnected,
            Some(device) => match &self.flashing {
                None => DeviceState::Ready { device: device.clone() },
                Some(FlashingStatus::Downloading(status)) => DeviceState::Downloading {
                    device: device.clone(),
                    status: status.clone(),
                },
                Some(FlashingStatus::Uploading(status)) => DeviceState::Uploading {
                    device: device.clone(),
                    status: status.clone(),
                },
            },
        }
    }

    /// Prepares a payload if the consolidated state differs from the one
    /// that was last announced, and remembers it as announced.
    pub fn take_device_state_update(&mut self) -> (payload: Option<DeviceStateUpdatePayload>)
        ensures
            optional_state(payload) == state_to_announce(old(self)@),
            final(self)@ == after_state_announcement(old(self)@),
    {
        let consolidated = self.consolidated_state();
        let same = match &self.last_emitted_state {
            Some(last) => *last == consolidated,
            None => false,
        };
        if !same {
            self.last_emitted_state = Some(consolidated.clone());
            Some(DeviceStateUpdatePayload { state: consolidated })
        } else {
            None
        }
    }

    /// Prepares a payload if the digest of the device collection differs
    /// from the one that was last announced, and remembers it as announced.
    pub fn take_devices_update(&mut self) -> (payload: Option<SerialWatchUpdatePayload>)
        ensures
            optional_records(payload) == devices_to_announce(old(self)@),
            final(self)@ == after_devices_announcement(old(self)@),
    {
        if self.devices.note_digest() {
            let devices = clone_records(self.devices.records());
            let payload = SerialWatchUpdatePayload { devices };
            assert(payload@ =~= records_view(payload.devices@));
            Some(payload)
        } else {
            None
        }
    }

    /// Takes a descriptor that arrived at time `now`: changes the device
    /// collection, follows the device under the descriptor's tag, and
    /// prepares what is to be announced.
    pub fn apply_entry(&mut self, entry: TyCmdListEntry, now: i64) -> (notifications:
        Notifications)
        ensures
            notifications@ == entry_notifications(old(self)@, entry@, now as int),
            final(self)@ == after_entry(old(self)@, entry@, now as int),
    {
        let tag = entry.tag.clone();
        self.devices.transit(entry, now);
        let followed = match self.devices.get(tag.as_str()) {
            Some(record) => Some(record.clone()),
            None => None,
        };
        match followed {
            Some(record) => {
                self.device = Some(record);
            },
            None => {
                let stale = match &self.device {
                    Some(device) => same_text(device.ty_cmd_info.tag.as_str(), tag.as_str()),
                    None => false,
                };
                if stale {
                    self.device = None;
                }
            },
        }
        assert(self@ == after_transition(old(self)@, entry@, now as int));
        let devices = self.take_devices_update();
        let state = self.take_device_state_update();
        Notifications { devices, state }
    }

    /// Takes the user's selection of an archive and a version.
    pub fn select_version(&mut self, payload: VersionSelectedPayload)
        ensures
            final(self)@ == after_selection(
                old(self)@,
                payload.path@,
                optional_text(payload.version),
            ),
    {
        let source = ArchiveSource::from_selection(payload.path.as_str());
        let local = match &source {
            ArchiveSource::RemoteUrl(_) => false,
            _ => true,
        };
        self.archive_source = source;
        if local {
            self.size = 0;
        }
        self.version = match payload.version {
            Some(version) => version,
            None => String::new(),
        };
    }

    /// Publishes a change of the flashing status and prepares the
    /// consolidated state to announce, if it changed.
    pub fn apply_flashing(&mut self, update: FlashingUpdate) -> (payload: Option<
        DeviceStateUpdatePayload,
    >)
        ensures
            optional_state(payload) == state_to_announce(
                AppStateView { flashing: flashing_after(update@), ..old(self)@ },
            ),
            final(self)@ == after_state_announcement(
                AppStateView { flashing: flashing_after(update@), ..old(self)@ },
            ),
    {
        self.flashing = match update {
            FlashingUpdate::Put(status) => Some(status),
            FlashingUpdate::Clear => None,
        };
        self.take_device_state_update()
    }
}

/// Takes a chunk of the discovery tool's output that arrived at time `now`:
/// the chunk goes through the parser, and each descriptor that comes out is
/// taken by the state, in order. Returns what is to be announced, one item
/// for each descriptor.
pub fn process_tycmd_list_entry(
    state: &mut AppStateData,
    buffer: &mut EntryParser,
    chunk: &str,
    now: i64,
) -> (notifications: Vec<Notifications>)
    ensures
        final(buffer)@ == drain(old(buffer)@ + chunk@).1,
        final(state)@ == after_entries(old(state)@, drain(old(buffer)@ + chunk@).0, now as int),
        notifications_view(notifications@) == entries_notifications(
            old(state)@,
            drain(old(buffer)@ + chunk@).0,
            now as int,
        ),
{
    let entries = buffer.feed(chunk);
    let ghost all = entries_view(entries@);
    let mut notifications: Vec<Notifications> = Vec::new();
    let mut i: usize = 0;
    assert(all.take(0) =~= Seq::<EntryView>::empty());
    while i < entries.len()
        invariant
            i <= entries.len(),
            all == entries_view(entries@),
            state@ == after_entries(old(state)@, all.take(i as int), now as int),
            notifications.len() == i,
            forall|j: int|
                0 <= j < i ==> (#[trigger] notifications@[j])@ == entry_notifications(
                    after_entries(old(state)@, all.take(j), now as int),
                    all[j],
                    now as int,
                ),
        decreases entries.len() - i,
    {
        let entry = entries[i].clone();
        assert(entry@ == all[i as int]);
        assert(all.take(i + 1).drop_last() =~= all.take(i as int));
        assert(all.take(i + 1).last() == all[i as int]);
        notifications.push(state.apply_entry(entry, now));
        i = i + 1;
    }
    assert(notifications_view(notifications@) =~= entries_notifications(
        old(state)@,
        all,
        now as int,
    ));
    assert(all.take(i as int) =~= all);
    notifications
}

/// Takes a chunk of the discovery tool's output that arrives now, by the
/// system clock: `process_tycmd_list_entry` at the current time.
pub fn process_tycmd_list_entry_now(
    state: &mut AppStateData,
    buffer: &mut EntryParser,
    chunk: &str,
) -> (notifications: Vec<Notifications>)
    ensures
        final(buffer)@ == drain(old(buffer)@ + chunk@).1,
        exists|now: i64|
            {
                &&& final(state)@ == #[trigger] after_entries(
                    old(state)@,
                    drain(old(buffer)@ + chunk@).0,
                    now as int,
                )
                &&& notifications_view(notifications@) == entries_notifications(
                    old(state)@,
                    drain(old(buffer)@ + chunk@).0,
                    now as int,
                )
            },
{
    let now = timestamp_now();
    process_tycmd_list_entry(state, buffer, chunk, now)
}

/// The consolidated state in each case: without a device, disconnected,
/// whatever the flashing status; with a device and no flashing status,
/// ready; with a device and a download or upload status, downloading or
/// uploading with that device and status.
pub proof fn lemma_consolidated_cases(
    device: DeviceView,
    flashing: Option<FlashingStatusView>,
    download: DownloadStatusView,
    upload: UploadStatusView,
)
    ensures
        consolidate(None, flashing) == DeviceStateView::Disconnected,
        consolidate(Some(device), None) == (DeviceStateView::Ready { device }),
        consolidate(Some(device), Some(FlashingStatusView::Downloading(download))) == (
            DeviceStateView::Downloading { device, status: download }
        ),
        consolidate(Some(device), Some(FlashingStatusView::Uploading(upload))) == (
            DeviceStateView::Uploading { device, status: upload }
        ),
{
}

/// Looking at the same state twice announces it at most once: after a
/// look, a second look at the unchanged device and flashing status
/// announces nothing and changes nothing.
pub proof fn lemma_same_state_is_announced_once(state: AppStateView)
    ensures
        state_to_announce(after_state_announcement(state)) is None,
        after_state_announcement(after_state_announcement(state)) == after_state_announcement(
            state,
        ),
{
}

/// A state is announced exactly when it differs from the one that was last
/// announced.
pub proof fn lemma_state_is_announced_when_changed(state: AppStateView)
    ensures
        state_to_announce(state) is Some <==> state.last_emitted != Some(consolidated(state)),
        state_to_announce(state) matches Some(announced) ==> announced == consolidated(state),
{
}

/// Looking at the same device collection twice announces it at most once.
pub proof fn lemma_same_devices_are_announced_once(state: AppStateView)
    ensures
        devices_to_announce(after_devices_announcement(state)) is None,
        after_devices_announcement(after_devices_announcement(state))
            == after_devices_announcement(state),
{
}

/// The two announcements do not disturb each other: remembering the
/// consolidated state leaves the device collection and its digest alone,
/// and remembering the digest leaves the consolidated state alone.
pub proof fn lemma_announcements_are_independent(state: AppStateView)
    ensures
        devices_to_announce(after_state_announcement(state)) == devices_to_announce(state),
        state_to_announce(after_devices_announcement(state)) == state_to_announce(state),
{
}

} // verus!
