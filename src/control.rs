use vstd::prelude::*;
use crate::naming::SessionTime;
use crate::ports::RecorderError;

verus! {

/// How long, in milliseconds, the controller waits after setting the stop
/// signal before it deactivates the realtime client: the host needs it to
/// tear down without a race.
pub const SETTLE_DELAY_MS: u64 = 500;

/// What the control surface reports.
#[derive(Clone, Copy, Debug, PartialEq, Eq, Structural)]
pub struct RecordingStatus {
    pub is_recording: bool,
    pub start_time: Option<SessionTime>,
}

/// The abstract state of the controller: the start time of the active
/// session, if one is active.
pub struct ControllerView {
    pub active: Option<SessionTime>,
}

/// Start/stop bookkeeping of the control surface: at most one session at a
/// time.
pub struct Controller {
    recording: bool,
    start_time: Option<SessionTime>,
}

impl View for Controller {
    type V = ControllerView;

    closed spec fn view(&self) -> ControllerView {
        ControllerView { active: if self.recording { self.start_time } else { None } }
    }
}

impl Controller {
    /// A session is active exactly when a start time is held.
    pub closed spec fn wf(&self) -> bool {
        self.recording <==> self.start_time is Some
    }

    /// No session active.
    pub fn new() -> (r: Controller)
        ensures
            r.wf(),
            r@.active is None,
    {
        Controller { recording: false, start_time: None }
    }

    /// Starts a session at `now`; rejected, with nothing changed, while one
    /// is active.
    pub fn start(&mut self, now: SessionTime) -> (r: Result<(), RecorderError>)
        requires
            old(self).wf(),
        ensures
            final(self).wf(),
            old(self)@.active is Some ==> r == Err::<(), RecorderError>(
                RecorderError::AlreadyRecording,
            ) && final(self)@ == old(self)@,
            old(self)@.active is None ==> r is Ok && final(self)@.active == Some(now),
    {
        if self.recording {
            Err(RecorderError::AlreadyRecording)
        } else {
            self.recording = true;
            self.start_time = Some(now);
            Ok(())
        }
    }

    /// Stops the active session; rejected, with nothing changed, while none
    /// is active.
    pub fn stop(&mut self) -> (r: Result<(), RecorderError>)
        requires
            old(self).wf(),
        ensures
            final(self).wf(),
            old(self)@.active is None ==> r == Err::<(), RecorderError>(
                RecorderError::NotRecording,
            ) && final(self)@ == old(self)@,
            old(self)@.active is Some ==> r is Ok && final(self)@.active is None,
    {
        if self.recording {
            self.recording = false;
            self.start_time = None;
            Ok(())
        } else {
            Err(RecorderError::NotRecording)
        }
    }

    /// Whether a session is active, and since when.
    pub fn status(&self) -> (r: RecordingStatus)
        requires
            self.wf(),
        ensures
            r.is_recording == (self@.active is Some),
            r.start_time == self@.active,
    {
        if self.recording {
            RecordingStatus { is_recording: true, start_time: self.start_time }
        } else {
            RecordingStatus { is_recording: false, start_time: None }
        }
    }
}

} // verus!
