//! Host and DPU facts the machine controller and scout decide on: the boot
//! interface to target, whether a DPU finished booting, and whether a failed
//! attestation-key setup is worth a TPM recovery.

use vstd::prelude::*;
use crate::text::{ascii_lower_seq, ascii_lowercase, chars_of, contains_seq, str_eq, vec_contains};

verus! {

/// How Redfish setup calls target a host's boot interface.
#[derive(Clone, Debug, PartialEq, Eq)]
pub enum BootInterfaceTarget<I, M> {
    /// The primary interface with its captured Redfish interface id.
    Pair(I),
    /// The MAC alone.
    MacOnly(M),
}

/// The primary interface with its Redfish id when captured, else its MAC;
/// nothing when the host has no boot interface yet.
pub fn boot_interface_target<I, M>(boot_interface: Option<I>, boot_interface_mac: Option<M>) -> (r: Option<BootInterfaceTarget<I, M>>)
    ensures
        boot_interface is Some ==> r == Some(BootInterfaceTarget::<I, M>::Pair(boot_interface->0)),
        boot_interface is None ==> r == match boot_interface_mac {
            Some(m) => Some(BootInterfaceTarget::<I, M>::MacOnly(m)),
            None => None,
        },
{
    match boot_interface {
        Some(b) => Some(BootInterfaceTarget::Pair(b)),
        None => match boot_interface_mac {
            Some(m) => Some(BootInterfaceTarget::MacOnly(m)),
            None => None,
        },
    }
}

/// The boot progress states a system reports.
#[derive(Clone, Copy, Debug, PartialEq, Eq)]
pub enum BootProgressType {
    OsRunning,
    Other,
}

/// A system's boot progress.
#[derive(Clone, Debug, PartialEq, Eq)]
pub struct BootProgress {
    pub last_state: Option<BootProgressType>,
    pub oem_last_state: Option<String>,
}

/// The OEM last state that means the OS is running.
pub const LAST_OEM_STATE_OS_IS_RUNNING: &'static str = "OsIsRunning";

/// A DPU finished booting when its boot progress shows the OS running,
/// either as the standard last state or as the OEM state `OsIsRunning`.
pub open spec fn finished_booting(p: Option<BootProgress>) -> bool {
    match p {
        Some(bp) => bp.last_state == Some(BootProgressType::OsRunning) || (match bp.oem_last_state {
            Some(s) => s@ == LAST_OEM_STATE_OS_IS_RUNNING@,
            None => false,
        }),
        None => false,
    }
}

pub fn did_dpu_finish_booting(boot_progress: &Option<BootProgress>) -> (r: bool)
    ensures
        r == finished_booting(*boot_progress),
{
    match boot_progress {
        Some(bp) => {
            let running = match bp.last_state {
                Some(BootProgressType::OsRunning) => true,
                _ => false,
            };
            if running {
                true
            } else {
                match &bp.oem_last_state {
                    Some(s) => str_eq(s.as_str(), LAST_OEM_STATE_OS_IS_RUNNING),
                    None => false,
                }
            }
        },
        None => false,
    }
}

/// A failed attestation-key setup is worth a TPM clear-and-reboot unless
/// the error says the feature is not supported (in any letter case).
pub fn should_attempt_tpm_recovery_for_attest_key_failure(message: &str) -> (r: bool)
    ensures
        r == !contains_seq(ascii_lower_seq(message@), "not supported"@),
{
    let m = chars_of(message);
    let lower = ascii_lowercase(&m);
    let pattern = chars_of("not supported");
    !vec_contains(&lower, &pattern)
}

} // verus!
