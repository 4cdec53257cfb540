//! The monitor lifecycle state: an idempotent start / stop pair, and the
//! action each call asks the surrounding runtime to perform.

use vstd::prelude::*;

verus! {

/// What a start call asks the caller to do: install the platform hook on a
/// fresh worker thread, or nothing because one is already running.
#[derive(Clone, Copy, PartialEq, Eq, Structural, Debug)]
pub enum StartAction {
    InstallHook,
    AlreadyRunning,
}

/// What a stop call asks the caller to do: signal the worker to shut down
/// and join it before returning, or nothing because none is running.
#[derive(Clone, Copy, PartialEq, Eq, Structural, Debug)]
pub enum StopAction {
    ShutdownWorker,
    AlreadyStopped,
}

/// The lifecycle state of one monitored domain. The shutdown-signal and
/// worker flags mirror whether the caller holds the channel and the join
/// handle of a live worker.
#[derive(Clone, Copy, PartialEq, Eq, Structural, Debug)]
pub struct MonitorHandle {
    pub running: bool,
    pub has_shutdown_signal: bool,
    pub has_worker: bool,
}

impl MonitorHandle {
    /// The invariant: the monitor runs exactly while both the shutdown
    /// signal and the worker handle are populated.
    pub open spec fn wf(self) -> bool {
        &&& self.running <==> self.has_shutdown_signal
        &&& self.running <==> self.has_worker
    }

    /// A stopped monitor.
    pub fn new() -> (r: MonitorHandle)
        ensures
            r == (MonitorHandle { running: false, has_shutdown_signal: false, has_worker: false }),
            r.wf(),
    {
        MonitorHandle { running: false, has_shutdown_signal: false, has_worker: false }
    }
}

/// What starting does: a running monitor is left alone — a hook is never
/// installed twice — and a stopped one becomes running with its signal and
/// worker populated.
pub open spec fn spec_start(h: MonitorHandle) -> (MonitorHandle, StartAction) {
    if h.running {
        (h, StartAction::AlreadyRunning)
    } else {
        (
            MonitorHandle { running: true, has_shutdown_signal: true, has_worker: true },
            StartAction::InstallHook,
        )
    }
}

/// What stopping does: a stopped monitor is left alone, a running one
/// becomes stopped with its signal and worker released.
pub open spec fn spec_stop(h: MonitorHandle) -> (MonitorHandle, StopAction) {
    if h.running {
        (
            MonitorHandle { running: false, has_shutdown_signal: false, has_worker: false },
            StopAction::ShutdownWorker,
        )
    } else {
        (h, StopAction::AlreadyStopped)
    }
}

impl MonitorHandle {
    /// Starts the monitor. Idempotent: asks for a hook exactly when none was
    /// running, and always leaves the monitor running.
    pub fn start(&mut self) -> (r: StartAction)
        requires
            old(self).wf(),
        ensures
            (*final(self), r) == spec_start(*old(self)),
            final(self).running,
            r == StartAction::InstallHook <==> !old(self).running,
            final(self).wf(),
    {
        if self.running {
            StartAction::AlreadyRunning
        } else {
            self.running = true;
            self.has_shutdown_signal = true;
            self.has_worker = true;
            StartAction::InstallHook
        }
    }

    /// Stops the monitor. Idempotent: asks for a shutdown-and-join exactly
    /// when a worker was running, and always leaves the monitor stopped.
    pub fn stop(&mut self) -> (r: StopAction)
        requires
            old(self).wf(),
        ensures
            (*final(self), r) == spec_stop(*old(self)),
            !final(self).running,
            r == StopAction::ShutdownWorker <==> old(self).running,
            final(self).wf(),
    {
        if self.running {
            self.running = false;
            self.has_shutdown_signal = false;
            self.has_worker = false;
            StopAction::ShutdownWorker
        } else {
            StopAction::AlreadyStopped
        }
    }

    /// Whether the monitor is running.
    pub fn is_running(&self) -> (r: bool)
        ensures
            r == self.running,
    {
        self.running
    }
}

/// Starting twice leaves one running monitor and asks for only one hook: the
/// second call is a no-op that reports the monitor already running.
pub proof fn lemma_start_idempotent(h: MonitorHandle)
    ensures
        ({
            let (h1, _) = spec_start(h);
            let (h2, a2) = spec_start(h1);
            h1.running && h2 == h1 && a2 == StartAction::AlreadyRunning
        }),
{
}

/// Stopping twice leaves a stopped monitor both times; the second call is a
/// no-op.
pub proof fn lemma_stop_idempotent(h: MonitorHandle)
    ensures
        ({
            let (h1, _) = spec_stop(h);
            let (h2, a2) = spec_stop(h1);
            !h1.running && h2 == h1 && a2 == StopAction::AlreadyStopped
        }),
{
}

} // verus!
