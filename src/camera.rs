//! The camera's lifecycle: which driver operations are allowed in which
//! state, what their status codes mean, and the single frame slot.
//! The driver calls themselves are made by the caller, which hands the
//! resulting status codes to these methods.
use vstd::prelude::*;

verus! {

#[derive(Debug, Clone, Copy, PartialEq, Eq, Structural)]
pub enum CameraState {
    Created,
    Opened,
    Started,
    Stopped,
    Closed,
}

/// Returned when the driver cannot create a camera handle.
#[derive(Debug, Clone, Copy, PartialEq, Eq, Structural)]
pub struct InitError;

/// Returned when a frame cannot be had: the camera is not started, a frame
/// is still out, or the driver failed or timed out.
#[derive(Debug, Clone, Copy, PartialEq, Eq, Structural)]
pub struct RequestFrameError;

/// The driver refused to open the camera; holds its non-zero status.
#[derive(Debug, Clone, Copy, PartialEq, Eq, Structural)]
pub struct OpenError(pub i32);

/// The driver refused to close the camera; holds its non-zero status.
#[derive(Debug, Clone, Copy, PartialEq, Eq, Structural)]
pub struct CloseError(pub i32);

/// The driver refused to start the camera; holds its non-zero status.
#[derive(Debug, Clone, Copy, PartialEq, Eq, Structural)]
pub struct StartError(pub i32);

/// The driver refused to stop the camera; holds its non-zero status.
#[derive(Debug, Clone, Copy, PartialEq, Eq, Structural)]
pub struct StopError(pub i32);

/// The driver could not take a frame back; holds its non-zero status.
#[derive(Debug, Clone, Copy, PartialEq, Eq, Structural)]
pub struct ReleaseError(pub i32);

/// Names the frame that is out; only the latest one is valid.
#[derive(Debug, Clone, Copy, PartialEq, Eq, Structural)]
pub struct FrameTicket {
    generation: u64,
}

impl FrameTicket {
    pub closed spec fn spec_generation(self) -> u64 {
        self.generation
    }
}

/// What must be undone when the camera goes away, in this order.
#[derive(Debug, Clone, Copy, PartialEq, Eq, Structural)]
pub struct Teardown {
    pub stop: bool,
    pub close: bool,
}

/// The lifecycle of one camera handle and its frame slot.
pub struct CameraLifecycle {
    state: CameraState,
    outstanding: Option<u64>,
    next_generation: u64,
}

impl CameraLifecycle {
    pub closed spec fn spec_state(&self) -> CameraState {
        self.state
    }

    /// Generation of the frame that is out, if one is.
    pub closed spec fn spec_outstanding(&self) -> Option<u64> {
        self.outstanding
    }

    pub closed spec fn spec_next_generation(&self) -> u64 {
        self.next_generation
    }

    /// A frame is out only while the camera is started, and every ticket
    /// handed out so far is older than the next one.
    pub open spec fn wf(&self) -> bool {
        &&& (self.spec_outstanding() is Some ==> self.spec_state() == CameraState::Started)
        &&& (self.spec_outstanding() matches Some(g) ==> g < self.spec_next_generation())
    }

    /// A fresh handle: nothing opened, no frame out.
    pub fn new() -> (r: Self)
        ensures
            r.wf(),
            r.spec_state() == CameraState::Created,
            r.spec_outstanding() is None,
            r.spec_next_generation() == 0,
    {
        CameraLifecycle { state: CameraState::Created, outstanding: None, next_generation: 0 }
    }

    pub fn state(&self) -> (r: CameraState)
        ensures
            r == self.spec_state(),
    {
        self.state
    }

    /// Records the driver's answer to `open`: zero moves to `Opened`,
    /// anything else is the error and leaves the state as it was.
    pub fn open(&mut self, status: i32) -> (r: Result<(), OpenError>)
        requires
            old(self).wf(),
            old(self).spec_state() == CameraState::Created,
        ensures
            final(self).wf(),
            final(self).spec_next_generation() == old(self).spec_next_generation(),
            final(self).spec_outstanding() == old(self).spec_outstanding(),
            status == 0 ==> r is Ok && final(self).spec_state() == CameraState::Opened,
            status != 0 ==> r == Err::<(), OpenError>(OpenError(status))
                && final(self).spec_state() == old(self).spec_state(),
    {
        if status == 0 {
            self.state = CameraState::Opened;
            Ok(())
        } else {
            Err(OpenError(status))
        }
    }

    /// Whether `start` may be asked of the driver: the camera is opened
    /// and not running.
    pub fn can_start(&self) -> (r: bool)
        ensures
            r == (self.spec_state() == CameraState::Opened || self.spec_state() == CameraState::Stopped),
    {
        self.state == CameraState::Opened || self.state == CameraState::Stopped
    }

    /// Records the driver's answer to `start`.
    pub fn start(&mut self, status: i32) -> (r: Result<(), StartError>)
        requires
            old(self).wf(),
            old(self).spec_state() == CameraState::Opened || old(self).spec_state() == CameraState::Stopped,
        ensures
            final(self).wf(),
            final(self).spec_next_generation() == old(self).spec_next_generation(),
            final(self).spec_outstanding() == old(self).spec_outstanding(),
            status == 0 ==> r is Ok && final(self).spec_state() == CameraState::Started,
            status != 0 ==> r == Err::<(), StartError>(StartError(status))
                && final(self).spec_state() == old(self).spec_state(),
    {
        if status == 0 {
            self.state = CameraState::Started;
            Ok(())
        } else {
            Err(StartError(status))
        }
    }

    /// Whether `stop` may be asked of the driver: the camera runs and no
    /// frame is out.
    pub fn can_stop(&self) -> (r: bool)
        ensures
            r == (self.spec_state() == CameraState::Started && self.spec_outstanding() is None),
    {
        self.state == CameraState::Started && self.outstanding.is_none()
    }

    /// Records the driver's answer to `stop`.
    pub fn stop(&mut self, status: i32) -> (r: Result<(), StopError>)
        requires
            old(self).wf(),
            old(self).spec_state() == CameraState::Started,
            old(self).spec_outstanding() is None,
        ensures
            final(self).wf(),
            final(self).spec_next_generation() == old(self).spec_next_generation(),
            final(self).spec_outstanding() is None,
            status == 0 ==> r is Ok && final(self).spec_state() == CameraState::Stopped,
            status != 0 ==> r == Err::<(), StopError>(StopError(status))
                && final(self).spec_state() == old(self).spec_state(),
    {
        if status == 0 {
            self.state = CameraState::Stopped;
            Ok(())
        } else {
            Err(StopError(status))
        }
    }

    /// Whether `close` may be asked of the driver: the camera is opened
    /// and not running.
    pub fn can_close(&self) -> (r: bool)
        ensures
            r == (self.spec_state() == CameraState::Opened || self.spec_state() == CameraState::Stopped),
    {
        self.state == CameraState::Opened || self.state == CameraState::Stopped
    }

    /// Records the driver's answer to `close`.
    pub fn close(&mut self, status: i32) -> (r: Result<(), CloseError>)
        requires
            old(self).wf(),
            old(self).spec_state() == CameraState::Opened || old(self).spec_state() == CameraState::Stopped,
        ensures
            final(self).wf(),
            final(self).spec_next_generation() == old(self).spec_next_generation(),
            final(self).spec_outstanding() is None,
            status == 0 ==> r is Ok && final(self).spec_state() == CameraState::Closed,
            status != 0 ==> r == Err::<(), CloseError>(CloseError(status))
                && final(self).spec_state() == old(self).spec_state(),
    {
        if status == 0 {
            self.state = CameraState::Closed;
            Ok(())
        } else {
            Err(CloseError(status))
        }
    }

    /// Whether a frame may be requested from the driver: only a started
    /// camera with no frame out yields frames.
    pub fn check_request(&self) -> (r: Result<(), RequestFrameError>)
        ensures
            r is Ok <==> (self.spec_state() == CameraState::Started && self.spec_outstanding() is None),
    {
        if self.state == CameraState::Started && self.outstanding.is_none() {
            Ok(())
        } else {
            Err(RequestFrameError)
        }
    }

    /// Records the driver's answer to a frame request: `got_frame` is
    /// false when it failed or timed out. A frame is handed out only by a
    /// started camera with its slot free; it then holds the slot.
    pub fn request_frame(&mut self, got_frame: bool) -> (r: Result<FrameTicket, RequestFrameError>)
        requires
            old(self).wf(),
        ensures
            final(self).wf(),
            final(self).spec_state() == old(self).spec_state(),
            old(self).spec_state() != CameraState::Started ==> r is Err,
            r is Ok <==> (got_frame && old(self).spec_state() == CameraState::Started
                && old(self).spec_outstanding() is None && old(self).spec_next_generation() < u64::MAX),
            r matches Ok(t) ==> final(self).spec_outstanding() == Some(t.spec_generation())
                && t.spec_generation() == old(self).spec_next_generation(),
            r is Err ==> *final(self) == *old(self),
    {
        if self.state != CameraState::Started || self.outstanding.is_some() || !got_frame
            || self.next_generation == u64::MAX {
            return Err(RequestFrameError);
        }
        let generation: u64 = self.next_generation;
        self.outstanding = Some(generation);
        self.next_generation = generation + 1;
        Ok(FrameTicket { generation })
    }

    /// Whether `ticket` names the frame that is out now: its storage may
    /// be read only then.
    pub fn is_current(&self, ticket: &FrameTicket) -> (r: bool)
        ensures
            r == (self.spec_outstanding() == Some(ticket.spec_generation())),
    {
        match self.outstanding {
            Some(g) => g == ticket.generation,
            None => false,
        }
    }

    /// Records the driver's answer to releasing the frame that is out;
    /// the slot is free afterwards either way, and a non-zero status is
    /// the error.
    pub fn release_frame(&mut self, ticket: FrameTicket, status: i32) -> (r: Result<(), ReleaseError>)
        requires
            old(self).wf(),
            old(self).spec_outstanding() == Some(ticket.spec_generation()),
        ensures
            final(self).wf(),
            final(self).spec_state() == old(self).spec_state(),
            final(self).spec_outstanding() is None,
            final(self).spec_next_generation() == old(self).spec_next_generation(),
            r is Ok <==> status == 0,
            r == Err::<(), ReleaseError>(ReleaseError(status)) <==> status != 0,
    {
        self.outstanding = None;
        if status == 0 {
            Ok(())
        } else {
            Err(ReleaseError(status))
        }
    }

    /// What to undo when the handle goes away: stop only if started, close
    /// only if opened and not yet closed.
    pub fn teardown(&self) -> (r: Teardown)
        ensures
            r.stop == (self.spec_state() == CameraState::Started),
            r.close == (self.spec_state() == CameraState::Opened || self.spec_state() == CameraState::Started
                || self.spec_state() == CameraState::Stopped),
    {
        let stop: bool = self.state == CameraState::Started;
        let close: bool = self.state == CameraState::Opened || self.state == CameraState::Started
            || self.state == CameraState::Stopped;
        Teardown { stop, close }
    }
}

/// The driver's timeout in milliseconds: `-1` waits without end; a longer
/// wait than the driver can express is cut to the longest it can.
pub fn timeout_millis(timeout: Option<u64>) -> (r: i32)
    ensures
        timeout is None ==> r == -1,
        timeout matches Some(ms) ==> r as int == if ms <= i32::MAX { ms as int } else { i32::MAX as int },
{
    match timeout {
        None => -1,
        Some(ms) => if ms <= i32::MAX as u64 {
            ms as i32
        } else {
            i32::MAX
        },
    }
}

} // verus!
