//! The platform tag that monitors stamp onto the events they hand out.

use vstd::prelude::*;

verus! {

/// Which operating system the process runs on. The composition root decides
/// this once and hands it to each monitor it creates.
#[derive(Clone, Copy, PartialEq, Eq, Structural, Debug)]
pub enum Platform {
    MacOs,
    Windows,
    Linux,
    Unknown,
}

/// The name a platform is reported under.
pub open spec fn spec_platform_name(p: Platform) -> Seq<char> {
    match p {
        Platform::MacOs => "macos"@,
        Platform::Windows => "windows"@,
        Platform::Linux => "linux"@,
        Platform::Unknown => "unknown"@,
    }
}

pub fn platform_name(p: Platform) -> (s: &'static str)
    ensures
        s@ == spec_platform_name(p),
{
    match p {
        Platform::MacOs => "macos",
        Platform::Windows => "windows",
        Platform::Linux => "linux",
        Platform::Unknown => "unknown",
    }
}

} // verus!
