//! What the desktop host tells its web view about itself.
use vstd::prelude::*;

verus! {

/// The protocol that the host speaks with its web view.
pub const HOST_PROTOCOL_VERSION: u8 = 1;

/// The host's description of itself: no handle to a privileged resource,
/// only its version, protocol and the boundary that holds authority.
#[derive(Debug, Clone, Copy, PartialEq, Eq)]
pub struct HostInfo {
    pub app_version: &'static str,
    pub protocol_version: u8,
    pub security_boundary: &'static str,
}

/// The host information for an application version.
pub fn get_host_info(app_version: &'static str) -> (r: HostInfo)
    ensures
        r.app_version == app_version,
        r.protocol_version == HOST_PROTOCOL_VERSION,
        r.security_boundary@ == "rust-host"@,
{
    HostInfo { app_version, protocol_version: HOST_PROTOCOL_VERSION, security_boundary: "rust-host" }
}

} // verus!
