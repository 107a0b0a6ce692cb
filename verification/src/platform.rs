//! The operating systems that the shell tells apart.
use vstd::prelude::*;

verus! {

/// The operating system that the shell was built for.
#[derive(Clone, Copy, PartialEq, Eq, Structural, Debug)]
pub enum Platform {
    MacOs,
    Windows,
    Linux,
    /// A Unix that is neither macOS nor Linux. It behaves as Linux does, except where a rule
    /// names Linux itself (self-update, the ChromeOS workaround).
    OtherUnix,
}

/// Whether the app runs inside ChromeOS, in the Linux container that it offers: on Linux, where
/// either of its two markers is there, the file `/dev/.cros_milestone` or the directory
/// `/opt/google/cros-containers`.
pub open spec fn in_chromeos(
    platform: Platform,
    milestone_exists: bool,
    containers_dir_exists: bool,
) -> bool {
    platform == Platform::Linux && (milestone_exists || containers_dir_exists)
}

/// Whether the app runs inside ChromeOS, by its two markers.
pub fn inside_chromeos(
    platform: Platform,
    milestone_exists: bool,
    containers_dir_exists: bool,
) -> (r: bool)
    ensures
        r == in_chromeos(platform, milestone_exists, containers_dir_exists),
{
    platform == Platform::Linux && (milestone_exists || containers_dir_exists)
}

/// ChromeOS is told by its markers: on Linux each of them is enough, without them there is
/// none, and off Linux there is none.
pub proof fn law_chromeos_markers(platform: Platform, milestone: bool, containers: bool)
    ensures
        in_chromeos(Platform::Linux, true, containers),
        in_chromeos(Platform::Linux, milestone, true),
        !in_chromeos(platform, false, false),
        platform != Platform::Linux ==> !in_chromeos(platform, milestone, containers),
{
}

} // verus!
