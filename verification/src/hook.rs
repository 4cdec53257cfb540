//! The errors a platform hook adapter reports when installing its mouse or
//! keyboard hook fails, and their mapping into the errors the listen and
//! grab entry points surface.

use vstd::prelude::*;

verus! {

/// Why installing a hook failed: the failing platform call's error code,
/// under the hook it was installing.
#[derive(Clone, Copy, PartialEq, Eq, Structural, Debug)]
pub enum HookError {
    Mouse(u32),
    Key(u32),
}

/// The error a listen call surfaces. Installation failures are fatal for the
/// attempt and are never retried by the adapter itself.
#[derive(Clone, Copy, PartialEq, Eq, Structural, Debug)]
pub enum ListenError {
    MouseHookError(u32),
    KeyHookError(u32),
}

/// The error a grab call surfaces.
#[derive(Clone, Copy, PartialEq, Eq, Structural, Debug)]
pub enum GrabError {
    MouseHookError(u32),
    KeyHookError(u32),
}

impl From<HookError> for ListenError {
    fn from(error: HookError) -> (r: Self) {
        match error {
            HookError::Mouse(code) => ListenError::MouseHookError(code),
            HookError::Key(code) => ListenError::KeyHookError(code),
        }
    }
}

impl vstd::std_specs::convert::FromSpecImpl<HookError> for ListenError {
    open spec fn obeys_from_spec() -> bool {
        true
    }

    open spec fn from_spec(error: HookError) -> Self {
        match error {
            HookError::Mouse(code) => ListenError::MouseHookError(code),
            HookError::Key(code) => ListenError::KeyHookError(code),
        }
    }
}

impl From<HookError> for GrabError {
    fn from(error: HookError) -> (r: Self) {
        match error {
            HookError::Mouse(code) => GrabError::MouseHookError(code),
            HookError::Key(code) => GrabError::KeyHookError(code),
        }
    }
}

impl vstd::std_specs::convert::FromSpecImpl<HookError> for GrabError {
    open spec fn obeys_from_spec() -> bool {
        true
    }

    open spec fn from_spec(error: HookError) -> Self {
        match error {
            HookError::Mouse(code) => GrabError::MouseHookError(code),
            HookError::Key(code) => GrabError::KeyHookError(code),
        }
    }
}

} // verus!
