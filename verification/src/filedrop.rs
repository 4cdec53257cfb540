//! The file-drag monitor: lifecycle and subscriber registry for the
//! drag-and-drop domain, the dispatch of events read from the helper
//! subprocess, and the synthetic event injection used for testing.

use vstd::prelude::*;
use crate::errors::MonitorError;
use crate::helper::{
    HelperEvent, HelperEventType, HelperEventView, spec_parse_helper_line, parse_helper_line,
    spec_translated_name, translated_name,
};
use crate::lifecycle::{MonitorHandle, StartAction, StopAction, spec_start, spec_stop};
use crate::platform::Platform;
use crate::registry::{Registry, Subscription, spec_ids, spec_remove_id};

verus! {

/// The record dispatched to drag subscribers: the dragged files, the pointer
/// position, and the platform tag, stamped with the caller's clock reading.
#[derive(Debug)]
pub struct DragEvent {
    pub files: Vec<String>,
    pub timestamp: u64,
    pub x: i64,
    pub y: i64,
    pub platform: Platform,
}

/// A file-drop event read from the helper, translated for subscribers.
#[derive(Debug)]
pub struct FileDropEvent {
    pub kind: HelperEventType,
    pub file_path: Option<String>,
    pub x: i64,
    pub y: i64,
}

/// The mathematical shape of a translated file-drop event.
pub struct FileDropEventView {
    pub kind: HelperEventType,
    pub file_path: Option<Seq<char>>,
    pub x: int,
    pub y: int,
}

impl View for FileDropEvent {
    type V = FileDropEventView;

    open spec fn view(&self) -> FileDropEventView {
        FileDropEventView {
            kind: self.kind,
            file_path: match self.file_path {
                Some(p) => Some(p@),
                None => None,
            },
            x: self.x as int,
            y: self.y as int,
        }
    }
}

impl FileDropEvent {
    /// The name subscribers see this event under: the translation of the
    /// helper's wire name.
    pub fn event_type(&self) -> (s: String)
        ensures
            s@ == spec_translated_name(self.kind),
    {
        String::from_str(translated_name(self.kind))
    }
}

/// The process-wide state of the file-drag monitor, created once by the
/// composition root and shared with the helper's reader thread.
pub struct DragMonitor<C> {
    pub handle: MonitorHandle,
    pub platform: Platform,
    pub callbacks: Registry<C>,
}

impl<C> DragMonitor<C> {
    /// The structural invariant of the composed state.
    pub open spec fn wf(self) -> bool {
        &&& self.handle.wf()
        &&& self.callbacks.wf()
    }

    /// A stopped monitor with no subscribers and the given platform tag.
    pub fn new(platform: Platform) -> (r: DragMonitor<C>)
        ensures
            r.wf(),
            !r.handle.running,
            r.platform == platform,
            r.callbacks.next_id == 0 && r.callbacks.subs@.len() == 0,
    {
        DragMonitor { handle: MonitorHandle::new(), platform, callbacks: Registry::new() }
    }

    /// Starts monitoring. Idempotent: the action asks for the helper's
    /// worker exactly when none was running, and the call always succeeds.
    pub fn start_drag_monitor(&mut self) -> (r: Result<StartAction, MonitorError>)
        requires
            old(self).wf(),
        ensures
            final(self).wf(),
            r is Ok,
            (final(self).handle, r->Ok_0) == spec_start(old(self).handle),
            final(self).handle.running,
            r->Ok_0 == StartAction::InstallHook <==> !old(self).handle.running,
            final(self).platform == old(self).platform,
            final(self).callbacks == old(self).callbacks,
    {
        Ok(self.handle.start())
    }

    /// Stops monitoring and clears the subscribers; their id counter stays,
    /// so ids are never reused. Idempotent: the action asks for a
    /// shutdown-and-join exactly when a worker was running, and the call
    /// always succeeds.
    pub fn stop_drag_monitor(&mut self) -> (r: Result<StopAction, MonitorError>)
        requires
            old(self).wf(),
        ensures
            final(self).wf(),
            r is Ok,
            (final(self).handle, r->Ok_0) == spec_stop(old(self).handle),
            !final(self).handle.running,
            r->Ok_0 == StopAction::ShutdownWorker <==> old(self).handle.running,
            final(self).platform == old(self).platform,
            final(self).callbacks.next_id == old(self).callbacks.next_id,
            final(self).callbacks.subs@.len() == 0,
    {
        let action = self.handle.stop();
        self.callbacks.clear();
        Ok(action)
    }

    /// Whether the monitor is running.
    pub fn is_monitoring(&self) -> (r: bool)
        ensures
            r == self.handle.running,
    {
        self.handle.is_running()
    }

    /// Registers a drag subscriber and returns its fresh id, starting at one
    /// and strictly greater than every id this registry ever issued.
    pub fn on_drag_event(&mut self, callback: C) -> (r: Result<u32, MonitorError>)
        requires
            old(self).wf(),
            old(self).callbacks.next_id < u32::MAX,
        ensures
            final(self).wf(),
            r is Ok,
            r->Ok_0 == old(self).callbacks.next_id + 1,
            final(self).callbacks.next_id == r->Ok_0,
            final(self).callbacks.subs@ == old(self).callbacks.subs@.push(
                Subscription { id: r->Ok_0, callback },
            ),
            final(self).callbacks.subs@.len() == old(self).callbacks.subs@.len() + 1,
            forall|i: int|
                0 <= i < old(self).callbacks.subs@.len() ==> (#[trigger] old(
                    self,
                ).callbacks.subs@[i].id) < r->Ok_0,
            final(self).handle == old(self).handle,
            final(self).platform == old(self).platform,
    {
        Ok(self.callbacks.register(callback))
    }

    /// Removes a drag subscriber. An id of zero is refused — ids are issued
    /// starting at one; otherwise reports whether the id was live.
    pub fn remove_drag_event_listener(&mut self, id: u32) -> (r: Result<bool, MonitorError>)
        requires
            old(self).wf(),
        ensures
            final(self).wf(),
            id == 0 ==> r == Result::<bool, MonitorError>::Err(MonitorError::CallbackIdZero)
                && *final(self) == *old(self),
            id != 0 ==> r is Ok && (r->Ok_0 <==> exists|k: int|
                0 <= k < old(self).callbacks.subs@.len() && (#[trigger] old(
                    self,
                ).callbacks.subs@[k].id) == id),
            id != 0 ==> final(self).callbacks.subs@ == spec_remove_id(
                old(self).callbacks.subs@,
                id,
            ),
            final(self).callbacks.next_id == old(self).callbacks.next_id,
            final(self).handle == old(self).handle,
            final(self).platform == old(self).platform,
    {
        if id == 0 {
            return Err(MonitorError::CallbackIdZero);
        }
        Ok(self.callbacks.unregister(id))
    }

    /// Injects a synthetic drag event carrying the given files, as the
    /// testing entry point does: refused when the file list is empty,
    /// otherwise built at the origin with the monitor's platform tag,
    /// together with the subscriber snapshot to deliver it to.
    pub fn simulate_drag_event(&self, files: Vec<String>, timestamp: u64) -> (r: Result<
        (DragEvent, Vec<u32>),
        MonitorError,
    >)
        ensures
            files@.len() == 0 <==> r == Result::<(DragEvent, Vec<u32>), MonitorError>::Err(
                MonitorError::EmptyFileList,
            ),
            match r {
                Ok(p) => p.0.files == files && p.0.timestamp == timestamp && p.0.x == 0 && p.0.y
                    == 0 && p.0.platform == self.platform && p.1@ == spec_ids(self.callbacks.subs@),
                Err(e) => e == MonitorError::EmptyFileList,
            },
    {
        if files.len() == 0 {
            return Err(MonitorError::EmptyFileList);
        }
        let targets = self.callbacks.ids();
        Ok((DragEvent { files, timestamp, x: 0, y: 0, platform: self.platform }, targets))
    }

    /// Handles one line of the helper's output: a well-formed line yields
    /// the translated event and the subscriber snapshot to deliver it to; a
    /// malformed line yields nothing and the reader goes on.
    pub fn handle_helper_line(&self, line: &str) -> (r: Option<(FileDropEvent, Vec<u32>)>)
        ensures
            match r {
                Some(p) => {
                    &&& spec_parse_helper_line(line@) == Some(
                        HelperEventView {
                            event_type: p.0@.kind,
                            path: p.0@.file_path,
                            x: p.0@.x,
                            y: p.0@.y,
                        },
                    )
                    &&& p.1@ == spec_ids(self.callbacks.subs@)
                },
                None => spec_parse_helper_line(line@) is None,
            },
    {
        match parse_helper_line(line) {
            Some(ev) => {
                let HelperEvent { event_type, path, x, y } = ev;
                let targets = self.callbacks.ids();
                Some((FileDropEvent { kind: event_type, file_path: path, x, y }, targets))
            },
            None => None,
        }
    }
}

/// Stopping clears the registry, so nothing the monitor hands out afterwards
/// names a subscriber: every dispatch snapshot of a cleared registry is
/// empty.
pub proof fn lemma_cleared_registry_dispatches_nothing<C>(
    subs: Seq<crate::registry::Subscription<C>>,
)
    requires
        subs.len() == 0,
    ensures
        spec_ids(subs).len() == 0,
{
}

} // verus!
