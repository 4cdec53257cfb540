//! The errors the library's operations report to their callers.

use vstd::prelude::*;

verus! {

/// Why a registry or dispatch operation refused its argument. Lock and hook
/// failures belong to the runtime around the library and never arise in the
/// library's own state transitions.
#[derive(Clone, Copy, PartialEq, Eq, Structural, Debug)]
pub enum MonitorError {
    /// A callback id of zero was passed: ids are issued starting at one.
    CallbackIdZero,
    /// An empty file list was passed where at least one path is needed.
    EmptyFileList,
}

/// The message a monitor error is reported with.
pub open spec fn spec_monitor_error_message(e: MonitorError) -> Seq<char> {
    match e {
        MonitorError::CallbackIdZero => "Callback ID cannot be 0"@,
        MonitorError::EmptyFileList => "Files array cannot be empty"@,
    }
}

impl MonitorError {
    pub fn message(&self) -> (s: &'static str)
        ensures
            s@ == spec_monitor_error_message(*self),
    {
        match self {
            MonitorError::CallbackIdZero => "Callback ID cannot be 0",
            MonitorError::EmptyFileList => "Files array cannot be empty",
        }
    }
}

} // verus!
