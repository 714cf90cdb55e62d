//! Information about the local machine, read through the system's
//! `uname` and `sysinfo` interfaces.

use vstd::prelude::*;

use crate::engine::Error;

verus! {

/// Information about a machine: its kernel release name and how long
/// it has been up, in whole seconds.
#[derive(Debug)]
pub struct MachineInfo {
    pub kernel_version: String,
    pub system_uptime: u64,
}

/// Relies on nix's `uname`: the kernel release name of the running
/// system, or the failing system call's error description. The value is
/// machine-dependent, so nothing is promised of it.
#[verifier::external_body]
fn kernel_release() -> (r: Result<String, String>) {
    match nix::sys::utsname::uname() {
        Ok(u) => Ok(u.release().to_string_lossy().to_string()),
        Err(e) => Err(e.to_string()),
    }
}

/// Relies on nix's `sysinfo`: the system uptime in whole seconds, or
/// the failing system call's error description. Machine-dependent, so
/// nothing is promised of the value.
#[verifier::external_body]
fn uptime_seconds() -> (r: Result<u64, String>) {
    match nix::sys::sysinfo::sysinfo() {
        Ok(i) => Ok(i.uptime().as_secs()),
        Err(e) => Err(e.to_string()),
    }
}

/// Read the machine information of the running system; fails only when
/// a system call fails, and then carries its description.
pub fn get_machine_info() -> (r: Result<MachineInfo, Error>)
    ensures
        r matches Err(e) ==> e@ matches crate::engine::ErrorView::Io(_),
{
    let kernel_version = match kernel_release() {
        Ok(v) => v,
        Err(e) => {
            return Err(Error::Io(e));
        },
    };
    let system_uptime = match uptime_seconds() {
        Ok(v) => v,
        Err(e) => {
            return Err(Error::Io(e));
        },
    };
    Ok(MachineInfo { kernel_version, system_uptime })
}

} // verus!
