//! The platform record: the OS label and the detected CI vendor.

use vstd::prelude::*;
use vstd::string::StringExecFns;

verus! {

/// The platform a report describes.
pub struct Platform {
    /// A lowercase OS label: the host's own, or the WSL tag.
    pub os: String,
    /// The detected CI vendor's tag, when one is detected.
    pub continuous_integration: Option<String>,
}

/// The OS label: the WSL tag when the heuristic fires, else the host's
/// canonical short label.
pub open spec fn os_label_spec(wsl_detected: bool, host: Seq<char>) -> Seq<char> {
    if wsl_detected {
        "wsl"@
    } else {
        host
    }
}

/// Relies on wsl::is_wsl, which inspects the running kernel's release
/// string; nothing can be promised of its outcome.
#[verifier::external_body]
fn probe_wsl() -> bool {
    wsl::is_wsl()
}

/// Relies on ci_info::get, which inspects the process environment; the
/// tag, when one comes back, is the name of the detected vendor.  Nothing
/// can be promised of an environment-dependent outcome.
#[verifier::external_body]
fn probe_ci() -> (r: Option<String>) {
    ci_info::get().vendor.map(|v| format!("{:?}", v))
}

/// Picks the OS label from an already-made WSL determination.
pub fn os_label(wsl_detected: bool, host: &str) -> (r: String)
    ensures
        r@ == os_label_spec(wsl_detected, host@),
{
    if wsl_detected {
        String::from_str("wsl")
    } else {
        String::from_str(host)
    }
}

/// The OS label for this process; `host` is the platform's canonical
/// short label, replaced by the WSL tag when the heuristic fires.
pub fn get_os(host: &str) -> (r: String)
    ensures
        r@ == "wsl"@ || r@ == host@,
{
    let w = probe_wsl();
    os_label(w, host)
}

/// Assembles the platform record for this process.
pub fn current_platform(host: &str) -> (r: Platform)
    ensures
        r.os@ == "wsl"@ || r.os@ == host@,
{
    Platform { os: get_os(host), continuous_integration: probe_ci() }
}

} // verus!
