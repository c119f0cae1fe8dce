//! The decisions of the Wayland session-lock backend: the size of the blank
//! lock surfaces, the life of the worker that holds the compositor lock, and
//! what a lock or unlock request answers. The Wayland connection, the event
//! loop and the worker thread are run by the program that links this library.
use vstd::prelude::*;

use crate::error::{is_lock_error, LimesError, LimesResult};

verus! {

/// The layout of a blank ARGB8888 lock surface buffer.
#[derive(Debug, Clone, Copy, PartialEq, Eq, Structural)]
pub struct SurfaceLayout {
    pub width: i32,
    pub height: i32,
    pub stride: i32,
    pub len: usize,
}

/// Whether a configure event of this size asks for a surface buffer; a zero
/// width or height does not.
pub fn surface_needs_buffer(width: u32, height: u32) -> (b: bool)
    ensures
        b == (width != 0 && height != 0),
{
    width != 0 && height != 0
}

/// The layout of a `width` by `height` blank surface: four bytes a pixel,
/// rows of `stride` bytes, `len` bytes in all. Each quantity must fit its
/// type: the stride and the size in 32 bits, the width, height and stride in
/// a signed 32-bit value; the first that does not is the error.
pub fn blank_surface_layout(width: u32, height: u32) -> (r: LimesResult<SurfaceLayout>)
    ensures
        ({
            let stride = 4 * width;
            let len = stride * height;
            if stride > u32::MAX {
                r matches Err(e) && is_lock_error(e, "wayland lock surface stride overflow"@)
            } else if len > u32::MAX {
                r matches Err(e) && is_lock_error(e, "wayland lock surface buffer size overflow"@)
            } else if width > i32::MAX {
                r matches Err(e) && is_lock_error(e, "wayland lock surface width is too large"@)
            } else if height > i32::MAX {
                r matches Err(e) && is_lock_error(e, "wayland lock surface height is too large"@)
            } else if stride > i32::MAX {
                r matches Err(e) && is_lock_error(e, "wayland lock surface stride is too large"@)
            } else {
                r matches Ok(l) && l.width == width && l.height == height && l.stride == stride
                    && l.len == len
            }
        }),
{
    if width > u32::MAX / 4 {
        return Err(LimesError::Lock("wayland lock surface stride overflow".to_owned()));
    }
    let stride = width * 4;
    if height != 0 && stride > u32::MAX / height {
        assert(stride * height > u32::MAX) by (nonlinear_arith)
            requires
                height != 0,
                stride > u32::MAX / height,
        ;
        return Err(LimesError::Lock("wayland lock surface buffer size overflow".to_owned()));
    }
    assert(stride * height <= u32::MAX) by (nonlinear_arith)
        requires
            height == 0 || stride <= u32::MAX / height,
    ;
    let len = stride * height;
    if width > 0x7fff_ffff {
        return Err(LimesError::Lock("wayland lock surface width is too large".to_owned()));
    }
    if height > 0x7fff_ffff {
        return Err(LimesError::Lock("wayland lock surface height is too large".to_owned()));
    }
    if stride > 0x7fff_ffff {
        return Err(LimesError::Lock("wayland lock surface stride is too large".to_owned()));
    }
    Ok(
        SurfaceLayout {
            width: width as i32,
            height: height as i32,
            stride: stride as i32,
            len: len as usize,
        },
    )
}

/// What the compositor and the lock requester told the worker.
#[derive(Debug, PartialEq, Eq)]
pub enum WorkerEvent {
    /// The compositor confirmed the lock.
    Locked,
    /// The compositor ended the lock on its own.
    Finished,
    /// A lock surface could not be drawn.
    SurfaceFailed(LimesError),
    /// The requester asked for the unlock.
    UnlockRequested,
    /// The lock was not confirmed in time.
    StartTimedOut,
}

/// What the worker does in answer to an event.
#[derive(Debug, PartialEq, Eq)]
pub enum WorkerAction {
    /// Nothing.
    Nothing,
    /// Tell the requester how the lock start went.
    ReportReady(LimesResult<()>),
    /// Release the compositor lock and stop.
    Unlock,
}

/// The state of the worker that holds the compositor lock: whether the
/// requester still waits to hear how the start went, whether the worker's
/// loop should stop, and the result it ends with.
pub struct LockWorker {
    pub ready_pending: bool,
    pub exit: bool,
    pub result: LimesResult<()>,
}

impl LockWorker {
    /// A worker whose lock start is not yet confirmed.
    pub fn new() -> (w: Self)
        ensures
            w.ready_pending,
            !w.exit,
            w.result is Ok,
    {
        LockWorker { ready_pending: true, exit: false, result: Ok(()) }
    }

    /// The worker's answer to `event`. The requester hears once, at the
    /// first of: the lock confirmed (success), the compositor ending it, a
    /// surface failing, or the start timing out; each of the last three also
    /// ends the worker with that error (a timeout only while the start is
    /// unconfirmed). An unlock request stops the worker after releasing the
    /// lock.
    pub fn on_event(&mut self, event: WorkerEvent) -> (a: WorkerAction)
        ensures
            match event {
                WorkerEvent::Locked => {
                    &&& a == (if old(self).ready_pending {
                        WorkerAction::ReportReady(Ok(()))
                    } else {
                        WorkerAction::Nothing
                    })
                    &&& !final(self).ready_pending
                    &&& final(self).exit == old(self).exit
                    &&& final(self).result == old(self).result
                },
                WorkerEvent::Finished => {
                    &&& (final(self).result matches Err(x) && is_lock_error(
                        x,
                        "wayland compositor finished the session lock unexpectedly"@,
                    ))
                    &&& (old(self).ready_pending ==> a == WorkerAction::ReportReady(
                        final(self).result,
                    ))
                    &&& (!old(self).ready_pending ==> a == WorkerAction::Nothing)
                    &&& !final(self).ready_pending
                    &&& final(self).exit
                },
                WorkerEvent::SurfaceFailed(e) => {
                    &&& final(self).result == Err::<(), LimesError>(e)
                    &&& a == (if old(self).ready_pending {
                        WorkerAction::ReportReady(Err(e))
                    } else {
                        WorkerAction::Nothing
                    })
                    &&& !final(self).ready_pending
                    &&& final(self).exit
                },
                WorkerEvent::UnlockRequested => {
                    &&& a == WorkerAction::Unlock
                    &&& final(self).exit
                    &&& final(self).ready_pending == old(self).ready_pending
                    &&& final(self).result == old(self).result
                },
                WorkerEvent::StartTimedOut => if old(self).ready_pending {
                    &&& (a matches WorkerAction::ReportReady(Err(x)) && is_lock_error(
                        x,
                        "timed out waiting for wayland compositor to confirm session lock"@,
                    ))
                    &&& !final(self).ready_pending
                    &&& final(self).exit
                    &&& final(self).result == old(self).result
                } else {
                    &&& a == WorkerAction::Nothing
                    &&& final(self).ready_pending == old(self).ready_pending
                    &&& final(self).exit == old(self).exit
                    &&& final(self).result == old(self).result
                },
            },
    {
        match event {
            WorkerEvent::Locked => {
                if self.ready_pending {
                    self.ready_pending = false;
                    WorkerAction::ReportReady(Ok(()))
                } else {
                    WorkerAction::Nothing
                }
            },
            WorkerEvent::Finished => {
                let error = LimesError::Lock(
                    "wayland compositor finished the session lock unexpectedly".to_owned(),
                );
                self.exit = true;
                if self.ready_pending {
                    self.ready_pending = false;
                    let report = error.copy();
                    self.result = Err(error);
                    WorkerAction::ReportReady(Err(report))
                } else {
                    self.result = Err(error);
                    WorkerAction::Nothing
                }
            },
            WorkerEvent::SurfaceFailed(error) => {
                self.exit = true;
                self.result = Err(error.copy());
                if self.ready_pending {
                    self.ready_pending = false;
                    WorkerAction::ReportReady(Err(error))
                } else {
                    WorkerAction::Nothing
                }
            },
            WorkerEvent::UnlockRequested => {
                self.exit = true;
                WorkerAction::Unlock
            },
            WorkerEvent::StartTimedOut => {
                if self.ready_pending {
                    self.ready_pending = false;
                    self.exit = true;
                    WorkerAction::ReportReady(
                        Err(
                            LimesError::Lock(
                                "timed out waiting for wayland compositor to confirm session lock".to_owned(),
                            ),
                        ),
                    )
                } else {
                    WorkerAction::Nothing
                }
            },
        }
    }
}

/// How a lock worker thread ended.
pub enum WorkerEnd {
    /// It returned this result.
    Returned(LimesResult<()>),
    /// It panicked.
    Panicked,
}

/// The result a stopped worker leaves: what it returned, or an error when it
/// panicked.
pub fn worker_end_result(end: WorkerEnd) -> (r: LimesResult<()>)
    ensures
        match end {
            WorkerEnd::Returned(x) => r == x,
            WorkerEnd::Panicked => r matches Err(e) && is_lock_error(
                e,
                "wayland lock worker panicked"@,
            ),
        },
{
    match end {
        WorkerEnd::Returned(x) => x,
        WorkerEnd::Panicked => Err(LimesError::Lock("wayland lock worker panicked".to_owned())),
    }
}

/// What the requester learned while waiting for the lock to start.
pub enum LockStart {
    /// The worker reported how the start went.
    Reported(LimesResult<()>),
    /// No report came in time.
    TimedOut,
    /// The worker ended without reporting.
    Ended(WorkerEnd),
}

/// The answer to a lock request once the start is known: success when the
/// worker reported the lock confirmed, its reported error otherwise; a
/// timeout, or a worker that ended without a report, is an error too.
pub fn lock_start_result(start: LockStart) -> (r: LimesResult<()>)
    ensures
        match start {
            LockStart::Reported(x) => r == x,
            LockStart::TimedOut => r matches Err(e) && is_lock_error(
                e,
                "timed out waiting for wayland compositor to confirm session lock"@,
            ),
            LockStart::Ended(WorkerEnd::Returned(Err(x))) => r == Err::<(), LimesError>(x),
            LockStart::Ended(WorkerEnd::Returned(Ok(()))) => r matches Err(e) && is_lock_error(
                e,
                "wayland lock worker exited before compositor confirmed lock"@,
            ),
            LockStart::Ended(WorkerEnd::Panicked) => r matches Err(e) && is_lock_error(
                e,
                "wayland lock worker panicked"@,
            ),
        },
{
    match start {
        LockStart::Reported(x) => x,
        LockStart::TimedOut => Err(
            LimesError::Lock(
                "timed out waiting for wayland compositor to confirm session lock".to_owned(),
            ),
        ),
        LockStart::Ended(WorkerEnd::Returned(Err(x))) => Err(x),
        LockStart::Ended(WorkerEnd::Returned(Ok(()))) => Err(
            LimesError::Lock(
                "wayland lock worker exited before compositor confirmed lock".to_owned(),
            ),
        ),
        LockStart::Ended(WorkerEnd::Panicked) => Err(
            LimesError::Lock("wayland lock worker panicked".to_owned()),
        ),
    }
}

/// The lock worker a session-lock backend holds while the session is locked:
/// at most one at a time.
pub struct LockSlot<W> {
    worker: Option<W>,
}

impl<W> LockSlot<W> {
    /// The worker held, if the session is locked.
    pub closed spec fn worker_spec(&self) -> Option<W> {
        self.worker
    }

    /// An empty slot: the session is not locked.
    pub fn new() -> (s: Self)
        ensures
            s.worker_spec() is None,
    {
        LockSlot { worker: None }
    }

    /// Whether the session is locked.
    pub fn is_locked(&self) -> (r: bool)
        ensures
            r == self.worker_spec() is Some,
    {
        self.worker.is_some()
    }

    /// Whether a lock request may start a worker (see `check_lock_request`):
    /// a request while locked is refused, and the slot keeps the worker it
    /// holds, which a later `release` hands back.
    pub fn check_lock(&self) -> (r: LimesResult<()>)
        ensures
            self.worker_spec() is Some ==> (r matches Err(e) && is_lock_error(
                e,
                "wayland session is already locked"@,
            )),
            self.worker_spec() is None ==> r is Ok,
    {
        check_lock_request(self.worker.is_some())
    }

    /// Holds the worker of a lock the compositor confirmed.
    pub fn hold(&mut self, worker: W)
        requires
            old(self).worker_spec() is None,
        ensures
            final(self).worker_spec() == Some(worker),
    {
        self.worker = Some(worker);
    }

    /// Hands back the worker to stop for an unlock, leaving the slot empty;
    /// without one the session is not locked, which is a lock error.
    pub fn release(&mut self) -> (r: LimesResult<W>)
        ensures
            final(self).worker_spec() is None,
            match old(self).worker_spec() {
                Some(w) => r == Ok::<W, LimesError>(w),
                None => r matches Err(e) && is_lock_error(e, "wayland session is not locked"@),
            },
    {
        match self.worker.take() {
            Some(w) => Ok(w),
            None => Err(LimesError::Lock("wayland session is not locked".to_owned())),
        }
    }

    /// Empties the slot, handing back any worker it held.
    pub fn take(&mut self) -> (r: Option<W>)
        ensures
            r == old(self).worker_spec(),
            final(self).worker_spec() is None,
    {
        self.worker.take()
    }
}

/// Whether a lock request may start a worker: not while one holds the lock.
pub fn check_lock_request(already_locked: bool) -> (r: LimesResult<()>)
    ensures
        already_locked ==> (r matches Err(e) && is_lock_error(
            e,
            "wayland session is already locked"@,
        )),
        !already_locked ==> r is Ok,
{
    if already_locked {
        Err(LimesError::Lock("wayland session is already locked".to_owned()))
    } else {
        Ok(())
    }
}

/// Whether an unlock request has a worker to stop.
pub fn check_unlock_request(locked: bool) -> (r: LimesResult<()>)
    ensures
        !locked ==> (r matches Err(e) && is_lock_error(e, "wayland session is not locked"@)),
        locked ==> r is Ok,
{
    if locked {
        Ok(())
    } else {
        Err(LimesError::Lock("wayland session is not locked".to_owned()))
    }
}

} // verus!
