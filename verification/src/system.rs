//! The product's other components as this one sees them: the broker, the shell
//! adapters, the optional filesystem driver, and the diagnostic events.

use crate::text::same;
use vstd::prelude::*;

verus! {

pub const FSW_BROKER_WINDOW_CLASS: &'static str = "ForwardSlashWindows.Broker";

pub const FSW_WM_QUERY_STATE: u32 = 0x8000 + 10;

pub const FSW_WM_SET_PAUSED: u32 = 0x8000 + 11;

pub const FSW_WM_SHOW_SETTINGS: u32 = 0x8000 + 12;

/// The name every component registers to hear that some *other* component changed
/// state. The string is the contract, not the number it is registered as.
pub const FSW_STATE_CHANGED_MESSAGE: &'static str = "ForwardSlashWindows.StateChanged";

pub const FSW_FILTER_PORT_NAME: &'static str = "\\FswFilterPort";

pub const FSW_FILTER_PROTOCOL_VERSION: u32 = 2;

pub const FSW_FILTER_MAX_DISTRIBUTIONS: usize = 32;

/// The driver's service name.
pub const FILTER_SERVICE_NAME: &'static str = "FswFilter";

pub const RUN_KEY: &'static str = r"Software\Microsoft\Windows\CurrentVersion\Run";

pub const RUN_VALUE: &'static str = "ForwardSlashWindows";

pub const PROTOCOL_KEY: &'static str = r"Software\Classes\fwdslash";

pub const CMD_ADAPTER_KEY: &'static str = r"Software\ForwardSlashWindows\CmdAdapter";

pub const POWERSHELL_ADAPTER_ROOT: &'static str =
    r"Software\ForwardSlashWindows\PowerShellAdapter\";

/// How often the broker's window is looked for after the broker was launched.
pub const BROKER_START_POLLS: u32 = 40;

/// What the broker says of itself.
#[derive(Debug, Clone, Copy, PartialEq, Eq, Structural)]
pub enum BrokerState {
    Unavailable,
    Active,
    Paused,
}

/// The state a broker's answer stands for.
pub open spec fn answered_state(answer: isize) -> BrokerState {
    if answer == 1 {
        BrokerState::Active
    } else if answer == 2 {
        BrokerState::Paused
    } else {
        BrokerState::Unavailable
    }
}

impl From<isize> for BrokerState {
    fn from(val: isize) -> (r: Self) {
        match val {
            1 => BrokerState::Active,
            2 => BrokerState::Paused,
            _ => BrokerState::Unavailable,
        }
    }
}

impl vstd::std_specs::convert::FromSpecImpl<isize> for BrokerState {
    open spec fn obeys_from_spec() -> bool {
        true
    }

    open spec fn from_spec(val: isize) -> Self {
        answered_state(val)
    }
}

/// The broker's state, for the answer it gave: `None` where its window is absent or
/// the question was not delivered in time.
pub fn broker_state(answer: Option<isize>) -> (r: BrokerState)
    ensures
        r == match answer {
            Some(value) => answered_state(value),
            None => BrokerState::Unavailable,
        },
{
    match answer {
        Some(value) => BrokerState::from(value),
        None => BrokerState::Unavailable,
    }
}

/// Whether to launch the broker: a packaged build that has not armed it yet. An
/// unpackaged install arranges this when it is installed.
pub fn broker_needs_start(packaged: bool, window_exists: bool) -> (r: bool)
    ensures
        r == (packaged && !window_exists),
{
    packaged && !window_exists
}

// ---------------------------------------------------------------------------
// Shell adapters
// ---------------------------------------------------------------------------

/// What an adapter's marker key records.
#[derive(Debug, Clone, PartialEq, Eq)]
pub struct AdapterMarker {
    pub state: Option<String>,
    pub version: Option<String>,
}

/// Whether a value that was read is exactly the expected text.
pub fn registry_string_equals(value: Option<&str>, expected: &str) -> (r: bool)
    ensures
        r == (value is Some && value->Some_0@ == expected@),
{
    match value {
        Some(text) => same(text, expected),
        None => false,
    }
}

/// Whether a marker records an installed adapter.
pub open spec fn is_installed(marker: Option<&AdapterMarker>) -> bool {
    marker is Some && marker->Some_0.state is Some && marker->Some_0.state->Some_0@ == "installed"@
}

/// The version a marker records.
pub open spec fn recorded_version(marker: Option<&AdapterMarker>) -> Option<Seq<char>> {
    match marker {
        Some(values) => crate::text::string_in(values.version),
        None => None,
    }
}

/// Whether a transactional adapter records that it is installed.
#[must_use]
pub fn adapter_installed(marker: Option<&AdapterMarker>) -> (r: bool)
    ensures
        r == is_installed(marker),
{
    match marker {
        Some(values) => match &values.state {
            Some(state) => registry_string_equals(Some(state.as_str()), "installed"),
            None => false,
        },
        None => false,
    }
}

/// The payload version recorded by an adapter. `None` when the key or the value is
/// absent, which is also what an install from before versions looks like.
#[must_use]
pub fn adapter_version(marker: Option<&AdapterMarker>) -> (r: Option<String>)
    ensures
        crate::text::string_in(r) == recorded_version(marker),
{
    match marker {
        Some(values) => match &values.version {
            Some(version) => Some(version.clone()),
            None => None,
        },
        None => None,
    }
}

/// Whether an installed adapter's payload is not of `current_version` and should
/// be reinstalled. An adapter that is not installed is never outdated.
#[must_use]
pub fn adapter_outdated(marker: Option<&AdapterMarker>, current_version: &str) -> (r: bool)
    ensures
        r == (is_installed(marker) && recorded_version(marker) != Some(current_version@)),
{
    if !adapter_installed(marker) {
        return false;
    }
    match adapter_version(marker) {
        Some(version) => !same(version.as_str(), current_version),
        None => true,
    }
}

/// Whether the Windows-surface integration is installed. A packaged build declares
/// its startup task, so identity alone is the answer; an unpackaged install writes
/// the per-user Run value.
pub fn windows_integration_installed(packaged: bool, run_value_present: bool) -> (r: bool)
    ensures
        r == (packaged || run_value_present),
{
    packaged || run_value_present
}

// ---------------------------------------------------------------------------
// The filesystem driver
// ---------------------------------------------------------------------------

/// Whether the driver's kernel service is registered, and whether it is running.
#[derive(Debug, Clone, Copy, PartialEq, Eq, Structural)]
pub enum FilterServiceState {
    /// No service is registered.
    NotInstalled,
    /// Registered but not running.
    Stopped,
    /// Running: the filter is loaded.
    Running,
}

/// The code with which the service control manager says "running".
pub const SERVICE_RUNNING_CODE: u32 = 4;

/// The driver service's state, for the status code that was read: `None` where the
/// manager would not open, the service is not there or the status would not read.
#[must_use]
pub fn filter_service_state(status: Option<u32>) -> (r: FilterServiceState)
    ensures
        r == match status {
            None => FilterServiceState::NotInstalled,
            Some(code) => if code == SERVICE_RUNNING_CODE {
                FilterServiceState::Running
            } else {
                FilterServiceState::Stopped
            },
        },
{
    match status {
        None => FilterServiceState::NotInstalled,
        Some(code) => if code == SERVICE_RUNNING_CODE {
            FilterServiceState::Running
        } else {
            FilterServiceState::Stopped
        },
    }
}

// ---------------------------------------------------------------------------
// Diagnostics
// ---------------------------------------------------------------------------

/// Fixed diagnostic event categories. No variant carries user path data, process
/// names, or process ids.
#[derive(Debug, Clone, Copy, PartialEq, Eq, Structural)]
#[non_exhaustive]
pub enum DiagEvent {
    RouteDistribution,
    RouteDefault,
    RouteList,
    RouteFolder,
    ResolveFailure,
    EnterPassThrough,
    EnterReplayed,
    BrokerStarted,
    BrokerStopped,
    BrokerPaused,
    BrokerResumed,
    IntegrationsQueried,
    /// The packaged app mirrored one or more settings into the real hive.
    SettingsSynced,
}

impl DiagEvent {
    /// The line written to the diagnostic log.
    pub open spec fn line_text(self) -> Seq<char> {
        match self {
            DiagEvent::RouteDistribution => "event=route_distribution"@,
            DiagEvent::RouteDefault => "event=route_default"@,
            DiagEvent::RouteList => "event=route_list"@,
            DiagEvent::RouteFolder => "event=route_folder"@,
            DiagEvent::ResolveFailure => "event=resolve_failure"@,
            DiagEvent::EnterPassThrough => "event=enter_passthrough"@,
            DiagEvent::EnterReplayed => "event=enter_replayed"@,
            DiagEvent::BrokerStarted => "event=broker_started"@,
            DiagEvent::BrokerStopped => "event=broker_stopped"@,
            DiagEvent::BrokerPaused => "event=broker_paused"@,
            DiagEvent::BrokerResumed => "event=broker_resumed"@,
            DiagEvent::IntegrationsQueried => "event=integrations_queried"@,
            DiagEvent::SettingsSynced => "event=settings_synced"@,
        }
    }

    /// The line written to the diagnostic log.
    pub fn line(self) -> (r: &'static str)
        ensures
            r@ == self.line_text(),
    {
        match self {
            DiagEvent::RouteDistribution => "event=route_distribution",
            DiagEvent::RouteDefault => "event=route_default",
            DiagEvent::RouteList => "event=route_list",
            DiagEvent::RouteFolder => "event=route_folder",
            DiagEvent::ResolveFailure => "event=resolve_failure",
            DiagEvent::EnterPassThrough => "event=enter_passthrough",
            DiagEvent::EnterReplayed => "event=enter_replayed",
            DiagEvent::BrokerStarted => "event=broker_started",
            DiagEvent::BrokerStopped => "event=broker_stopped",
            DiagEvent::BrokerPaused => "event=broker_paused",
            DiagEvent::BrokerResumed => "event=broker_resumed",
            DiagEvent::IntegrationsQueried => "event=integrations_queried",
            DiagEvent::SettingsSynced => "event=settings_synced",
        }
    }
}

}
