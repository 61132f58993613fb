//! Routing of host power control to a compute-tray backend, building the
//! backend endpoint of a machine, and checking what the backend answered.

use vstd::prelude::*;
use crate::dns::IpAddress;

verus! {

/// The compute-tray backends a component manager can be configured with.
#[derive(Clone, Copy, Debug, PartialEq, Eq)]
pub enum ComputeTrayBackend {
    Core,
    Rms,
    Mock,
}

/// Which implementation handles a machine's compute tray.
#[derive(Clone, Copy, Debug, PartialEq, Eq)]
pub enum ComputeTrayRoute {
    Core,
    ConfiguredRms,
}

/// Rack-associated hosts use the configured backend when it is RMS;
/// every other host uses Core's Redfish-backed implementation.
pub open spec fn route_for(rack_associated: bool, configured_backend: Option<ComputeTrayBackend>) -> ComputeTrayRoute {
    if rack_associated && configured_backend == Some(ComputeTrayBackend::Rms) {
        ComputeTrayRoute::ConfiguredRms
    } else {
        ComputeTrayRoute::Core
    }
}

pub fn compute_tray_route(rack_associated: bool, configured_backend: Option<ComputeTrayBackend>) -> (r: ComputeTrayRoute)
    ensures
        r == route_for(rack_associated, configured_backend),
{
    let rms = match configured_backend {
        Some(ComputeTrayBackend::Rms) => true,
        _ => false,
    };
    if rack_associated && rms {
        ComputeTrayRoute::ConfiguredRms
    } else {
        ComputeTrayRoute::Core
    }
}

/// The manager a machine's power control goes to.
#[derive(Clone, Copy, Debug, PartialEq, Eq)]
pub enum ComputeTrayManagerChoice {
    /// Core's compute-tray manager.
    Core,
    /// The compute-tray manager of the configured component manager.
    ComponentManager,
}

/// The manager for a machine: the component manager's when the route is the
/// configured RMS backend (which requires a component manager), Core's otherwise.
pub fn compute_tray_manager_for(
    rack_associated: bool,
    component_manager_backend: Option<ComputeTrayBackend>,
) -> (m: ComputeTrayManagerChoice)
    ensures
        m == (if route_for(rack_associated, component_manager_backend) == ComputeTrayRoute::ConfiguredRms {
            ComputeTrayManagerChoice::ComponentManager
        } else {
            ComputeTrayManagerChoice::Core
        }),
        m == ComputeTrayManagerChoice::ComponentManager ==> component_manager_backend is Some,
{
    match compute_tray_route(rack_associated, component_manager_backend) {
        ComputeTrayRoute::Core => ComputeTrayManagerChoice::Core,
        ComputeTrayRoute::ConfiguredRms => match component_manager_backend {
            Some(_) => ComputeTrayManagerChoice::ComponentManager,
            None => ComputeTrayManagerChoice::Core,
        },
    }
}

/// The answer of a backend for one BMC.
#[derive(Clone, Debug, PartialEq, Eq)]
pub struct ComputeTrayResult {
    pub bmc_ip: IpAddress,
    pub success: bool,
    pub error: Option<String>,
}

/// Why a power-control answer is refused.
#[derive(Clone, Debug, PartialEq, Eq)]
pub enum ComputeTrayPowerFault {
    /// Not exactly one result for the one machine asked about.
    WrongResultCount { count: usize },
    /// The one result is about another BMC than the machine's.
    UnexpectedBmc { bmc_ip: IpAddress, expected_bmc_ip: IpAddress },
    /// The backend reports failure, with its message or `unknown error`.
    Failed { error: String },
}

/// A refused power-control answer: which backend answered, for which
/// machine, and what was wrong with it.
#[derive(Clone, Debug, PartialEq, Eq)]
pub struct ComputeTrayPowerError {
    pub backend_name: String,
    pub machine_id: String,
    pub fault: ComputeTrayPowerFault,
}

/// Accepts a power-control answer only when it holds exactly one result, for
/// the expected BMC, reporting success. A refusal names the backend and the
/// machine.
pub fn validate_compute_tray_power_result(
    backend_name: &str,
    machine_id: &str,
    expected_bmc_ip: IpAddress,
    results: Vec<ComputeTrayResult>,
) -> (res: Result<(), ComputeTrayPowerError>)
    ensures
        res is Ok <==> (results@.len() == 1 && results@[0].bmc_ip == expected_bmc_ip && results@[0].success),
        res matches Err(e) ==> e.backend_name@ == backend_name@ && e.machine_id@ == machine_id@,
        results@.len() != 1 ==> (res matches Err(e) && e.fault == ComputeTrayPowerFault::WrongResultCount {
            count: results@.len() as usize,
        }),
        results@.len() == 1 && results@[0].bmc_ip != expected_bmc_ip ==> (res matches Err(e) && e.fault
            == ComputeTrayPowerFault::UnexpectedBmc { bmc_ip: results@[0].bmc_ip, expected_bmc_ip }),
        results@.len() == 1 && results@[0].bmc_ip == expected_bmc_ip && !results@[0].success ==> (
        res matches Err(e) && e.fault matches ComputeTrayPowerFault::Failed { error } && error@ == (
        match results@[0].error {
            Some(m) => m@,
            None => "unknown error"@,
        })),
{
    let fault = if results.len() != 1 {
        ComputeTrayPowerFault::WrongResultCount { count: results.len() }
    } else {
        let result = &results[0];
        if !ip_eq(&result.bmc_ip, &expected_bmc_ip) {
            ComputeTrayPowerFault::UnexpectedBmc { bmc_ip: result.bmc_ip, expected_bmc_ip }
        } else if !result.success {
            let error = match &result.error {
                Some(e) => e.clone(),
                None => "unknown error".to_owned(),
            };
            ComputeTrayPowerFault::Failed { error }
        } else {
            return Ok(());
        }
    };
    Err(ComputeTrayPowerError { backend_name: backend_name.to_string(), machine_id: machine_id.to_string(), fault })
}

/// Whether two addresses are the same address.
pub fn ip_eq(a: &IpAddress, b: &IpAddress) -> (r: bool)
    ensures
        r == (*a == *b),
{
    match (a, b) {
        (IpAddress::V4(x), IpAddress::V4(y)) => {
            let mut i: usize = 0;
            while i < 4
                invariant
                    i <= 4,
                    *a == IpAddress::V4(*x),
                    *b == IpAddress::V4(*y),
                    forall|k: int| 0 <= k < i ==> x@[k] == y@[k],
                decreases 4 - i,
            {
                if x[i] != y[i] {
                    assert(x@[i as int] != y@[i as int]);
                    assert(x@ != y@);
                    return false;
                }
                i = i + 1;
            }
            assert(x@ =~= y@);
            assert(*x == *y);
            true
        },
        (IpAddress::V6(x), IpAddress::V6(y)) => {
            let mut i: usize = 0;
            while i < 16
                invariant
                    i <= 16,
                    *a == IpAddress::V6(*x),
                    *b == IpAddress::V6(*y),
                    forall|k: int| 0 <= k < i ==> x@[k] == y@[k],
                decreases 16 - i,
            {
                if x[i] != y[i] {
                    assert(x@[i as int] != y@[i as int]);
                    assert(x@ != y@);
                    return false;
                }
                i = i + 1;
            }
            assert(x@ =~= y@);
            assert(*x == *y);
            true
        },
        _ => false,
    }
}

/// BMC vendors as detected from the machine.
#[derive(Clone, Copy, Debug, PartialEq, Eq)]
pub enum BmcVendor {
    Dell,
    Hpe,
    Lenovo,
    LenovoAmi,
    Supermicro,
    Nvidia,
    Other,
}

/// Vendors a compute-tray backend distinguishes.
#[derive(Clone, Copy, Debug, PartialEq, Eq)]
pub enum ComputeTrayVendor {
    Dell,
    Hpe,
    Lenovo,
    LenovoAmi,
    Supermicro,
    Nvidia,
    Unknown,
}

pub open spec fn tray_vendor(v: BmcVendor) -> ComputeTrayVendor {
    match v {
        BmcVendor::Dell => ComputeTrayVendor::Dell,
        BmcVendor::Hpe => ComputeTrayVendor::Hpe,
        BmcVendor::Lenovo => ComputeTrayVendor::Lenovo,
        BmcVendor::LenovoAmi => ComputeTrayVendor::LenovoAmi,
        BmcVendor::Supermicro => ComputeTrayVendor::Supermicro,
        BmcVendor::Nvidia => ComputeTrayVendor::Nvidia,
        BmcVendor::Other => ComputeTrayVendor::Unknown,
    }
}

pub fn compute_tray_vendor(v: BmcVendor) -> (r: ComputeTrayVendor)
    ensures
        r == tray_vendor(v),
{
    match v {
        BmcVendor::Dell => ComputeTrayVendor::Dell,
        BmcVendor::Hpe => ComputeTrayVendor::Hpe,
        BmcVendor::Lenovo => ComputeTrayVendor::Lenovo,
        BmcVendor::LenovoAmi => ComputeTrayVendor::LenovoAmi,
        BmcVendor::Supermicro => ComputeTrayVendor::Supermicro,
        BmcVendor::Nvidia => ComputeTrayVendor::Nvidia,
        BmcVendor::Other => ComputeTrayVendor::Unknown,
    }
}

/// Data a state handler found missing.
#[derive(Clone, Debug, PartialEq, Eq)]
pub struct MissingData {
    pub object_id: String,
    pub missing: &'static str,
}

/// How a compute-tray endpoint authenticates.
#[derive(Clone, Copy, Debug, PartialEq, Eq)]
pub enum EndpointAuthentication {
    /// Hand the BMC's credential key to the backend (Core's Redfish pool
    /// resolves it).
    CredentialKey,
    /// Look up the credentials first: the BMC's own, else the site-wide ones.
    LookUpCredentials,
}

/// The BMC address of a machine's endpoint and how it authenticates; refuses
/// a machine whose BMC IP or MAC is not known.
pub fn compute_tray_endpoint_plan<M>(
    machine_id: &String,
    bmc_ip: Option<IpAddress>,
    bmc_mac: Option<M>,
    backend: ComputeTrayBackend,
) -> (res: Result<(IpAddress, M, EndpointAuthentication), MissingData>)
    ensures
        bmc_ip is None ==> (res matches Err(e) && e.object_id@ == machine_id@ && e.missing@
            == "BMC IP address (bmc_info.ip)"@),
        bmc_ip is Some && bmc_mac is None ==> (res matches Err(e) && e.object_id@ == machine_id@ && e.missing@
            == "BMC MAC address (bmc_info.mac)"@),
        bmc_ip is Some && bmc_mac is Some ==> res == Ok::<(IpAddress, M, EndpointAuthentication), MissingData>(
            (
                bmc_ip->0,
                bmc_mac->0,
                if backend == ComputeTrayBackend::Core {
                    EndpointAuthentication::CredentialKey
                } else {
                    EndpointAuthentication::LookUpCredentials
                },
            ),
        ),
{
    let ip = match bmc_ip {
        Some(ip) => ip,
        None => {
            return Err(MissingData { object_id: machine_id.clone(), missing: "BMC IP address (bmc_info.ip)" });
        },
    };
    let mac = match bmc_mac {
        Some(mac) => mac,
        None => {
            return Err(MissingData { object_id: machine_id.clone(), missing: "BMC MAC address (bmc_info.mac)" });
        },
    };
    let auth = match backend {
        ComputeTrayBackend::Core => EndpointAuthentication::CredentialKey,
        _ => EndpointAuthentication::LookUpCredentials,
    };
    Ok((ip, mac, auth))
}

/// What a credential store answered for one key.
#[derive(Clone, Debug, PartialEq, Eq)]
pub enum CredentialLookup<C> {
    Found(C),
    NotFound,
    Failed(String),
}

/// The next step after looking up a BMC's own credentials.
#[derive(Clone, Debug, PartialEq, Eq)]
pub enum BmcCredentialStep<C> {
    /// Use these credentials.
    Use(C),
    /// None are stored for this BMC: look up the site-wide credentials.
    LookUpSiteWide,
    /// The lookup failed with this error.
    Fail(String),
}

/// A BMC's own credentials win; when none are stored the site-wide ones are
/// looked up; a failed lookup is an error.
pub fn after_bmc_credential_lookup<C>(lookup: CredentialLookup<C>) -> (step: BmcCredentialStep<C>)
    ensures
        match lookup {
            CredentialLookup::Found(c) => step == BmcCredentialStep::Use(c),
            CredentialLookup::NotFound => step == BmcCredentialStep::<C>::LookUpSiteWide,
            CredentialLookup::Failed(e) => step == BmcCredentialStep::<C>::Fail(e),
        },
{
    match lookup {
        CredentialLookup::Found(c) => BmcCredentialStep::Use(c),
        CredentialLookup::NotFound => BmcCredentialStep::LookUpSiteWide,
        CredentialLookup::Failed(e) => BmcCredentialStep::Fail(e),
    }
}

/// Why no credentials could be had.
#[derive(Clone, Debug, PartialEq, Eq)]
pub enum CredentialError {
    /// Neither per-BMC nor site-wide credentials are stored.
    NoneConfigured,
    /// The site-wide lookup failed with this error.
    SiteWideLookupFailed(String),
}

/// The site-wide credentials, when the BMC has none of its own.
pub fn after_site_wide_credential_lookup<C>(lookup: CredentialLookup<C>) -> (res: Result<C, CredentialError>)
    ensures
        match lookup {
            CredentialLookup::Found(c) => res == Ok::<C, CredentialError>(c),
            CredentialLookup::NotFound => res == Err::<C, CredentialError>(CredentialError::NoneConfigured),
            CredentialLookup::Failed(e) => res == Err::<C, CredentialError>(CredentialError::SiteWideLookupFailed(e)),
        },
{
    match lookup {
        CredentialLookup::Found(c) => Ok(c),
        CredentialLookup::NotFound => Err(CredentialError::NoneConfigured),
        CredentialLookup::Failed(e) => Err(CredentialError::SiteWideLookupFailed(e)),
    }
}

/// Marker for the machine state handler's context objects.
pub struct MachineStateHandlerContextObjects {}

} // verus!
