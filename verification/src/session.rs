//! One flashing attempt for the device that is being followed, as a state
//! machine: each event of the outside world gives the next state, the action
//! to perform, and the flashing statuses to publish.

use vstd::prelude::*;
use vstd::string::*;
use crate::device::{ConnectedDevice, DeviceView};
use crate::events::{FlashingStatus, FlashingStatusView, UploadState};
use crate::firmware::{
    cached_paths, checking_status, classify_upload_error, classify_upload_line, error_status,
    failure_status, first_variant, select_variant, upload_error_of, upload_line_status,
    verifying_status, CachePath, FlashError, FlashErrorView,
};

verus! {

/// How far a flashing attempt has come.
#[derive(Debug, Clone, Copy, PartialEq, Eq, Structural)]
pub enum SessionPhase {
    /// No attempt is under way.
    Idle,
    /// The archive is being acquired.
    Acquiring,
    /// The uploader is running.
    Uploading,
}

/// What the outside world reports to a session.
#[derive(Debug)]
pub enum SessionEvent {
    /// The user asked for an attempt, for this device and version.
    Start { device: Option<ConnectedDevice>, version: String },
    /// The archive was acquired; these are the cached firmware files.
    ArchiveReady { paths: Vec<CachePath> },
    /// The archive could not be acquired.
    ArchiveFailed { cause: String },
    /// The uploader wrote a line of output.
    Output { line: String },
    /// The uploader wrote a line on its error channel.
    ErrorOutput { line: String },
    /// The uploader's process reported an error.
    ProcessError { message: String },
    /// The uploader ended, with this exit code if it has one.
    Ended { code: Option<i32> },
}

/// What the caller of a session has to do next.
#[derive(Debug, PartialEq, Eq)]
pub enum SessionAction {
    /// Nothing: hand over the next event.
    Wait,
    /// Acquire the archive, then report how that went.
    Acquire,
    /// Start the uploader on this file for the board with this tag.
    Upload { path: String, tag: String },
    /// The attempt is over: stop reading the uploader's output.
    Stop,
}

/// A change of the published flashing status.
#[derive(Debug, PartialEq, Eq)]
pub enum FlashingUpdate {
    /// Publish this status.
    Put(FlashingStatus),
    /// No flashing operation is active any more.
    Clear,
}

/// The mathematical value of a session.
pub struct SessionView {
    pub phase: SessionPhase,
    pub device: Option<DeviceView>,
    pub version: Seq<char>,
}

/// The mathematical value of an event.
pub enum SessionEventView {
    Start { device: Option<DeviceView>, version: Seq<char> },
    ArchiveReady { paths: Seq<Seq<char>> },
    ArchiveFailed { cause: Seq<char> },
    Output { line: Seq<char> },
    ErrorOutput { line: Seq<char> },
    ProcessError { message: Seq<char> },
    Ended { code: Option<i32> },
}

/// The mathematical value of an action.
pub enum SessionActionView {
    Wait,
    Acquire,
    Upload { path: Seq<char>, tag: Seq<char> },
    Stop,
}

/// The mathematical value of a status update.
pub enum FlashingUpdateView {
    Put(FlashingStatusView),
    Clear,
}

/// The mathematical value of what a step gives.
pub struct StepView {
    pub next: SessionView,
    pub action: SessionActionView,
    pub updates: Seq<FlashingUpdateView>,
}

/// The device of an optional record.
pub open spec fn optional_device(device: Option<ConnectedDevice>) -> Option<DeviceView> {
    match device {
        Some(d) => Some(d@),
        None => None,
    }
}

impl View for SessionEvent {
    type V = SessionEventView;

    open spec fn view(&self) -> SessionEventView {
        match self {
            SessionEvent::Start { device, version } => SessionEventView::Start {
                device: optional_device(*device),
                version: version@,
            },
            SessionEvent::ArchiveReady { paths } => SessionEventView::ArchiveReady {
                paths: cached_paths(paths@),
            },
            SessionEvent::ArchiveFailed { cause } => SessionEventView::ArchiveFailed {
                cause: cause@,
            },
            SessionEvent::Output { line } => SessionEventView::Output { line: line@ },
            SessionEvent::ErrorOutput { line } => SessionEventView::ErrorOutput { line: line@ },
            SessionEvent::ProcessError { message } => SessionEventView::ProcessError {
                message: message@,
            },
            SessionEvent::Ended { code } => SessionEventView::Ended { code: *code },
        }
    }
}

impl View for SessionAction {
    type V = SessionActionView;

    open spec fn view(&self) -> SessionActionView {
        match self {
            SessionAction::Wait => SessionActionView::Wait,
            SessionAction::Acquire => SessionActionView::Acquire,
            SessionAction::Upload { path, tag } => SessionActionView::Upload {
                path: path@,
                tag: tag@,
            },
            SessionAction::Stop => SessionActionView::Stop,
        }
    }
}

impl View for FlashingUpdate {
    type V = FlashingUpdateView;

    open spec fn view(&self) -> FlashingUpdateView {
        match self {
            FlashingUpdate::Put(status) => FlashingUpdateView::Put(status@),
            FlashingUpdate::Clear => FlashingUpdateView::Clear,
        }
    }
}

/// The views of a list of updates.
pub open spec fn updates_view(updates: Seq<FlashingUpdate>) -> Seq<FlashingUpdateView> {
    Seq::new(updates.len(), |i: int| updates[i]@)
}

/// The session in which no attempt is under way.
pub open spec fn idle_session() -> SessionView {
    SessionView { phase: SessionPhase::Idle, device: None, version: Seq::empty() }
}

/// A step that ends the attempt with an error: the session goes idle, the
/// caller stops, and the error is published as a failed upload.
pub open spec fn failed_step(error: FlashErrorView) -> StepView {
    StepView {
        next: idle_session(),
        action: SessionActionView::Stop,
        updates: seq![
            FlashingUpdateView::Put(FlashingStatusView::Uploading(failure_status(error))),
        ],
    }
}

/// A step that changes nothing.
pub open spec fn ignored_step(state: SessionView) -> StepView {
    StepView { next: state, action: SessionActionView::Wait, updates: Seq::empty() }
}

/// The transition function of a flashing attempt.
///
/// - Idle, on a start: without a device the attempt fails at once; with one
///   the archive is to be acquired.
/// - Acquiring, on a ready archive: the matching of the cached files is
///   announced; then the first file that fits the device is uploaded, or the
///   attempt fails where none fits. On a failed archive the attempt fails.
/// - Uploading: a line of output is published as progress; a line on the
///   error channel or a process error ends the attempt as failed; the end of
///   the process clears the flashing status where the exit code is 0 and
///   fails the attempt otherwise.
/// - Every other event is ignored.
pub open spec fn session_step(state: SessionView, event: SessionEventView) -> StepView {
    match (state.phase, event) {
        (SessionPhase::Idle, SessionEventView::Start { device, version }) => match device {
            None => failed_step(FlashErrorView::NoDevice),
            Some(d) => StepView {
                next: SessionView { phase: SessionPhase::Acquiring, device: Some(d), version },
                action: SessionActionView::Acquire,
                updates: Seq::empty(),
            },
        },
        (SessionPhase::Acquiring, SessionEventView::ArchiveReady { paths }) => match state.device {
            None => failed_step(FlashErrorView::NoDevice),
            Some(d) => match first_variant(paths, d.device_type) {
                Some(i) => StepView {
                    next: SessionView {
                        phase: SessionPhase::Uploading,
                        device: state.device,
                        version: state.version,
                    },
                    action: SessionActionView::Upload { path: paths[i], tag: d.ty_cmd_info.tag },
                    updates: seq![
                        FlashingUpdateView::Put(FlashingStatusView::Uploading(checking_status())),
                    ],
                },
                None => StepView {
                    next: idle_session(),
                    action: SessionActionView::Stop,
                    updates: seq![
                        FlashingUpdateView::Put(FlashingStatusView::Uploading(checking_status())),
                        FlashingUpdateView::Put(
                            FlashingStatusView::Uploading(
                                failure_status(
                                    FlashErrorView::NoVariant {
                                        family: d.device_type,
                                        version: state.version,
                                    },
                                ),
                            ),
                        ),
                    ],
                },
            },
        },
        (SessionPhase::Acquiring, SessionEventView::ArchiveFailed { cause }) => failed_step(
            FlashErrorView::DownloadFailed(cause),
        ),
        (SessionPhase::Uploading, SessionEventView::Output { line }) => StepView {
            next: state,
            action: SessionActionView::Wait,
            updates: seq![
                FlashingUpdateView::Put(FlashingStatusView::Uploading(upload_line_status(line))),
            ],
        },
        (SessionPhase::Uploading, SessionEventView::ErrorOutput { line }) => failed_step(
            upload_error_of(line),
        ),
        (SessionPhase::Uploading, SessionEventView::ProcessError { message }) => failed_step(
            FlashErrorView::Upload(message),
        ),
        (SessionPhase::Uploading, SessionEventView::Ended { code }) => if code == Some(0i32) {
            StepView {
                next: idle_session(),
                action: SessionActionView::Stop,
                updates: seq![FlashingUpdateView::Clear],
            }
        } else {
            failed_step(FlashErrorView::UploadExit(code))
        },
        _ => ignored_step(state),
    }
}

/// What a step gives: the action to perform and the updates to publish, in
/// order.
#[derive(Debug, PartialEq, Eq)]
pub struct SessionStep {
    pub action: SessionAction,
    pub updates: Vec<FlashingUpdate>,
}

/// One flashing attempt for the device that is being followed.
#[derive(Debug)]
pub struct FirmwareSession {
    phase: SessionPhase,
    device: Option<ConnectedDevice>,
    version: String,
}

impl View for FirmwareSession {
    type V = SessionView;

    closed spec fn view(&self) -> SessionView {
        SessionView {
            phase: self.phase,
            device: optional_device(self.device),
            version: self.version@,
        }
    }
}

impl FirmwareSession {
    /// A session in which no attempt is under way.
    pub fn new() -> (session: Self)
        ensures
            session@ == idle_session(),
    {
        FirmwareSession { phase: SessionPhase::Idle, device: None, version: String::new() }
    }

    /// How far the attempt has come.
    pub fn phase(&self) -> (phase: SessionPhase)
        ensures
            phase == self@.phase,
    {
        self.phase
    }

    fn go_idle(&mut self)
        ensures
            final(self)@ == idle_session(),
    {
        self.phase = SessionPhase::Idle;
        self.device = None;
        self.version = String::new();
    }

    fn fail(&mut self, error: FlashError) -> (step: SessionStep)
        ensures
            final(self)@ == failed_step(error@).next,
            step.action@ == failed_step(error@).action,
            updates_view(step.updates@) == failed_step(error@).updates,
    {
        self.go_idle();
        let mut updates: Vec<FlashingUpdate> = Vec::new();
        updates.push(FlashingUpdate::Put(FlashingStatus::Uploading(error_status(&error))));
        assert(updates_view(updates@) =~= failed_step(error@).updates);
        SessionStep { action: SessionAction::Stop, updates }
    }

    fn ignore(&self) -> (step: SessionStep)
        ensures
            step.action@ == ignored_step(self@).action,
            updates_view(step.updates@) == ignored_step(self@).updates,
    {
        let updates: Vec<FlashingUpdate> = Vec::new();
        assert(updates_view(updates@) =~= ignored_step(self@).updates);
        SessionStep { action: SessionAction::Wait, updates }
    }

    /// Takes one event and gives the action to perform and the statuses to
    /// publish, as `session_step` defines them.
    pub fn step(&mut self, event: SessionEvent) -> (step: SessionStep)
        ensures
            final(self)@ == session_step(old(self)@, event@).next,
            step.action@ == session_step(old(self)@, event@).action,
            updates_view(step.updates@) == session_step(old(self)@, event@).updates,
    {
        match self.phase {
            SessionPhase::Idle => match event {
                SessionEvent::Start { device, version } => match device {
                    None => self.fail(FlashError::NoDevice),
                    Some(d) => {
                        self.phase = SessionPhase::Acquiring;
                        self.device = Some(d);
                        self.version = version;
                        let updates: Vec<FlashingUpdate> = Vec::new();
                        assert(updates_view(updates@) =~= Seq::<FlashingUpdateView>::empty());
                        SessionStep { action: SessionAction::Acquire, updates }
                    },
                },
                _ => self.ignore(),
            },
            SessionPhase::Acquiring => match event {
                SessionEvent::ArchiveReady { paths } => {
                    let (family, tag) = match &self.device {
                        None => {
                            return self.fail(FlashError::NoDevice);
                        },
                        Some(d) => (d.device_type, d.ty_cmd_info.tag.clone()),
                    };
                    let mut updates: Vec<FlashingUpdate> = Vec::new();
                    updates.push(
                        FlashingUpdate::Put(FlashingStatus::Uploading(verifying_status())),
                    );
                    match select_variant(&paths, family) {
                        Some(i) => {
                            let path = paths[i].path.clone();
                            assert(cached_paths(paths@)[i as int] == path@);
                            self.phase = SessionPhase::Uploading;
                            assert(updates_view(updates@) =~= session_step(
                                old(self)@,
                                event@,
                            ).updates);
                            SessionStep { action: SessionAction::Upload { path, tag }, updates }
                        },
                        None => {
                            let error = FlashError::NoVariant {
                                family,
                                version: self.version.clone(),
                            };
                            updates.push(
                                FlashingUpdate::Put(
                                    FlashingStatus::Uploading(error_status(&error)),
                                ),
                            );
                            self.go_idle();
                            assert(updates_view(updates@) =~= session_step(
                                old(self)@,
                                event@,
                            ).updates);
                            SessionStep { action: SessionAction::Stop, updates }
                        },
                    }
                },
                SessionEvent::ArchiveFailed { cause } => self.fail(
                    FlashError::DownloadFailed(cause),
                ),
                _ => self.ignore(),
            },
            SessionPhase::Uploading => match event {
                SessionEvent::Output { line } => {
                    let mut updates: Vec<FlashingUpdate> = Vec::new();
                    updates.push(
                        FlashingUpdate::Put(
                            FlashingStatus::Uploading(classify_upload_line(line.as_str())),
                        ),
                    );
                    assert(updates_view(updates@) =~= session_step(old(self)@, event@).updates);
                    SessionStep { action: SessionAction::Wait, updates }
                },
                SessionEvent::ErrorOutput { line } => self.fail(
                    classify_upload_error(line.as_str()),
                ),
                SessionEvent::ProcessError { message } => self.fail(FlashError::Upload(message)),
                SessionEvent::Ended { code } => {
                    let success = match code {
                        Some(c) => c == 0,
                        None => false,
                    };
                    if success {
                        self.go_idle();
                        let mut updates: Vec<FlashingUpdate> = Vec::new();
                        updates.push(FlashingUpdate::Clear);
                        assert(updates_view(updates@) =~= seq![FlashingUpdateView::Clear]);
                        SessionStep { action: SessionAction::Stop, updates }
                    } else {
                        self.fail(FlashError::UploadExit(code))
                    }
                },
                _ => self.ignore(),
            },
        }
    }
}

/// The arguments that start the uploader on `path` for the board `tag`.
pub fn upload_arguments(path: &str, tag: &str) -> (arguments: Vec<String>)
    ensures
        arguments.deep_view() == seq!["upload"@, path@, "--board"@, tag@],
{
    let mut arguments: Vec<String> = Vec::new();
    arguments.push(String::from_str("upload"));
    arguments.push(String::from_str(path));
    arguments.push(String::from_str("--board"));
    arguments.push(String::from_str(tag));
    assert(arguments.deep_view() =~= seq!["upload"@, path@, "--board"@, tag@]);
    arguments
}

/// Whether an update publishes a failed upload.
pub open spec fn is_failure(update: FlashingUpdateView) -> bool {
    update matches FlashingUpdateView::Put(FlashingStatusView::Uploading(status)) && status.state
        == UploadState::Error && status.log is Some
}

/// No attempt ends silently: a step that tells the caller to stop leaves
/// the session idle, and the last status it publishes either clears the
/// flashing status, after a successful upload, or is a failed upload that
/// carries a message. A step that does not stop publishes no failure.
pub proof fn lemma_attempt_never_ends_silently(state: SessionView, event: SessionEventView)
    ensures
        session_step(state, event).action == SessionActionView::Stop ==> {
            &&& session_step(state, event).next == idle_session()
            &&& session_step(state, event).updates.len() > 0
            &&& (session_step(state, event).updates.last() == FlashingUpdateView::Clear
                || is_failure(session_step(state, event).updates.last()))
        },
        session_step(state, event).updates.len() > 0 && session_step(state, event).updates.last()
            == FlashingUpdateView::Clear ==> state.phase == SessionPhase::Uploading && event
            == (SessionEventView::Ended { code: Some(0i32) }),
        session_step(state, event).action != SessionActionView::Stop ==> forall|i: int|
            0 <= i < session_step(state, event).updates.len() ==> !is_failure(
                #[trigger] session_step(state, event).updates[i],
            ),
{
}

} // verus!
