//! Everything the settings window renders, and the lines it renders it as.

use crate::package::{
    family_text, in_name, is_store_flavor, FSW_VERSION, STORE_PACKAGE_FAMILY,
};
use crate::path::{eq_ignore_case, folds_alike, text_in, BareSlashMode, WSL_ROOT_UNC};
use crate::settings::{
    as_deref, cached_update_tag, default_among, get_default_distribution, last_update_check,
    list_registered_distributions, read_auto_update_enabled, stored_disabled, stored_mode,
    stored_pin, stored_root, stored_tag, strings_text, valid_names, LxssValues, SettingsValues,
};
use crate::settings_write::StoredSettings;
use crate::system::{
    adapter_installed, adapter_outdated, adapter_version, answered_state, broker_state,
    is_installed, recorded_version, windows_integration_installed, AdapterMarker, BrokerState,
    FilterServiceState,
};
use crate::text::{
    begins, chars_of, lower, part, same, starts_with, string_in, string_of, to_lower,
    trim_back_of, trim_end_of, trim_front_of, trim_start_of,
};
use crate::update::{auto_update_setting, format_last_check, last_check_text};
use vstd::prelude::*;

verus! {

// ---------------------------------------------------------------------------
// Sections
// ---------------------------------------------------------------------------

#[derive(Clone, Copy, Debug, PartialEq, Eq, Structural)]
pub enum Section {
    General,
    Windows,
    Terminals,
    About,
}

/// A text in ASCII lower case.
pub open spec fn lowered(text: Seq<char>) -> Seq<char> {
    text.map_values(|c: char| lower(c))
}

/// The page a deep-link tag names. The three terminal integrations share one page.
pub open spec fn section_of(tag: Seq<char>) -> Section {
    let name = lowered(trim_back_of(trim_front_of(tag, '/'), '/'));
    if name == "windows"@ {
        Section::Windows
    } else if name == "terminals"@ || name == "cmd"@ || name == "windows-powershell"@ || name
        == "powershell"@ {
        Section::Terminals
    } else if name == "about"@ {
        Section::About
    } else {
        Section::General
    }
}

/// A text in ASCII lower case.
pub fn to_lowered(v: &[char]) -> (r: String)
    ensures
        r@ == lowered(v@),
{
    let mut s: String = String::new();
    for i in 0..v.len()
        invariant
            s@ == lowered(v@.take(i as int)),
    {
        s.push(to_lower(v[i]));
        assert(s@ =~= lowered(v@.take(i + 1)));
    }
    assert(v@.take(v@.len() as int) =~= v@);
    s
}

impl Section {
    /// Maps a deep-link tag onto a page.
    pub fn from_tag(tag: &str) -> (r: Section)
        ensures
            r == section_of(tag@),
    {
        let chars = chars_of(tag);
        let name = to_lowered(trim_end_of(trim_start_of(chars.as_slice(), '/'), '/'));
        let name = name.as_str();
        if same(name, "windows") {
            Section::Windows
        } else if same(name, "terminals") || same(name, "cmd") || same(name, "windows-powershell")
            || same(name, "powershell") {
            Section::Terminals
        } else if same(name, "about") {
            Section::About
        } else {
            Section::General
        }
    }

    pub open spec fn tag_text(self) -> Seq<char> {
        match self {
            Section::General => "general"@,
            Section::Windows => "windows"@,
            Section::Terminals => "terminals"@,
            Section::About => "about"@,
        }
    }

    pub fn tag(self) -> (r: &'static str)
        ensures
            r@ == self.tag_text(),
    {
        match self {
            Section::General => "general",
            Section::Windows => "windows",
            Section::Terminals => "terminals",
            Section::About => "about",
        }
    }
}

/// The prefix of a deep link.
pub open spec fn link_prefix() -> Seq<char> {
    "fwdslash://settings/"@
}

/// What follows the prefix of a deep link, up to a separator, query or fragment.
pub open spec fn link_tag(rest: Seq<char>) -> Seq<char>
    decreases rest.len(),
{
    if rest.len() == 0 || rest[0] == '/' || rest[0] == '?' || rest[0] == '#' {
        Seq::empty()
    } else {
        seq![rest[0]] + link_tag(rest.skip(1))
    }
}

/// The page some arguments ask for: the first deep link, or the first `--section`
/// with a name behind it.
pub open spec fn section_in(arguments: Seq<Seq<char>>) -> Section
    decreases arguments.len(),
{
    if arguments.len() == 0 {
        Section::General
    } else {
        let argument = lowered(arguments[0]);
        if begins(argument, link_prefix()) {
            section_of(link_tag(argument.skip(link_prefix().len() as int)))
        } else if argument == "--section"@ && arguments.len() > 1 {
            section_of(arguments[1])
        } else {
            section_in(arguments.skip(1))
        }
    }
}

fn tag_end(rest: &[char]) -> (r: String)
    ensures
        r@ == link_tag(rest@),
{
    let n: usize = rest.len();
    let mut i: usize = 0;
    let mut tag: String = String::new();
    assert(rest@.skip(0) =~= rest@);
    assert(tag@ + link_tag(rest@) =~= link_tag(rest@));
    while i < n && rest[i] != '/' && rest[i] != '?' && rest[i] != '#'
        invariant
            n == rest@.len(),
            i <= n,
            tag@ + link_tag(rest@.skip(i as int)) == link_tag(rest@),
        decreases n - i,
    {
        let ghost here = rest@.skip(i as int);
        let ghost before = tag@;
        tag.push(rest[i]);
        proof {
            assert(here.skip(1) =~= rest@.skip(i + 1));
            assert(here[0] == rest@[i as int]);
            assert(before + (seq![here[0]] + link_tag(rest@.skip(i + 1))) =~= tag@ + link_tag(
                rest@.skip(i + 1),
            ));
        }
        i += 1;
    }
    proof {
        let here = rest@.skip(i as int);
        if i < n {
            assert(here[0] == rest@[i as int]);
        }
        assert(link_tag(here) =~= Seq::<char>::empty());
        assert(tag@ + Seq::<char>::empty() =~= tag@);
    }
    tag
}

/// The page the program's arguments ask for.
pub fn initial_section(arguments: &[String]) -> (r: Section)
    ensures
        r == section_in(strings_text(arguments@)),
{
    let ghost all = strings_text(arguments@);
    let n: usize = arguments.len();
    assert(all.skip(0) =~= all);
    for i in 0..n
        invariant
            n == arguments@.len(),
            all == strings_text(arguments@),
            section_in(all) == section_in(all.skip(i as int)),
    {
        let ghost rest = all.skip(i as int);
        proof {
            assert(rest[0] == arguments@[i as int]@);
            assert(rest.skip(1) =~= all.skip(i + 1));
            reveal_strlit("fwdslash://settings/");
        }
        let text = chars_of(arguments[i].as_str());
        let name = to_lowered(text.as_slice());
        let chars = chars_of(name.as_str());
        let v = chars.as_slice();
        if starts_with(v, "fwdslash://settings/") {
            let tail = part(v, 20, v.len());
            assert(tail@ =~= v@.skip(20));
            return Section::from_tag(tag_end(tail).as_str());
        }
        if n - i > 1 && same(name.as_str(), "--section") {
            assert(rest[1] == arguments@[i + 1]@);
            return Section::from_tag(arguments[i + 1].as_str());
        }
    }
    assert(all.skip(n as int) =~= Seq::empty());
    Section::General
}

// ---------------------------------------------------------------------------
// Integrations
// ---------------------------------------------------------------------------

#[derive(Clone, Copy, Debug, PartialEq, Eq, Structural)]
pub enum Integration {
    Windows,
    Cmd,
    WindowsPowerShell,
    PowerShell7,
}

impl Integration {
    pub open spec fn id_text(self) -> Seq<char> {
        match self {
            Integration::Windows => "windows"@,
            Integration::Cmd => "cmd"@,
            Integration::WindowsPowerShell => "windows-powershell"@,
            Integration::PowerShell7 => "powershell"@,
        }
    }

    pub open spec fn display_text(self) -> Seq<char> {
        match self {
            Integration::Windows => "Windows surfaces"@,
            Integration::Cmd => "Command Prompt"@,
            Integration::WindowsPowerShell => "Windows PowerShell"@,
            Integration::PowerShell7 => "PowerShell 7"@,
        }
    }

    pub open spec fn action_text(self, enabled: bool) -> Seq<char> {
        match self {
            Integration::Windows => if enabled {
                "Windows surfaces installed"@
            } else {
                "Windows surfaces removed"@
            },
            Integration::Cmd => if enabled {
                "Command Prompt installed"@
            } else {
                "Command Prompt removed"@
            },
            Integration::WindowsPowerShell => if enabled {
                "Windows PowerShell installed"@
            } else {
                "Windows PowerShell removed"@
            },
            Integration::PowerShell7 => if enabled {
                "PowerShell 7 installed"@
            } else {
                "PowerShell 7 removed"@
            },
        }
    }

    pub fn id(self) -> (r: &'static str)
        ensures
            r@ == self.id_text(),
    {
        match self {
            Integration::Windows => "windows",
            Integration::Cmd => "cmd",
            Integration::WindowsPowerShell => "windows-powershell",
            Integration::PowerShell7 => "powershell",
        }
    }

    /// The name the version and upgrade notices use for this adapter.
    pub fn display_name(self) -> (r: &'static str)
        ensures
            r@ == self.display_text(),
    {
        match self {
            Integration::Windows => "Windows surfaces",
            Integration::Cmd => "Command Prompt",
            Integration::WindowsPowerShell => "Windows PowerShell",
            Integration::PowerShell7 => "PowerShell 7",
        }
    }

    /// The phrase that reports a change of this integration.
    pub fn action(self, enabled: bool) -> (r: &'static str)
        ensures
            r@ == self.action_text(enabled),
    {
        match self {
            Integration::Windows => if enabled {
                "Windows surfaces installed"
            } else {
                "Windows surfaces removed"
            },
            Integration::Cmd => if enabled {
                "Command Prompt installed"
            } else {
                "Command Prompt removed"
            },
            Integration::WindowsPowerShell => if enabled {
                "Windows PowerShell installed"
            } else {
                "Windows PowerShell removed"
            },
            Integration::PowerShell7 => if enabled {
                "PowerShell 7 installed"
            } else {
                "PowerShell 7 removed"
            },
        }
    }

    /// Whether a change only takes effect in newly opened shells.
    pub fn is_terminal(self) -> (r: bool)
        ensures
            r == (self != Integration::Windows),
    {
        !matches!(self, Integration::Windows)
    }
}

// ---------------------------------------------------------------------------
// State
// ---------------------------------------------------------------------------

/// One shell adapter's deployed state: whether it is installed, the payload version
/// it recorded, and whether that is not this build's.
#[derive(Clone, Debug, PartialEq, Eq)]
pub struct AdapterStatus {
    pub integration: Integration,
    pub installed: bool,
    pub version: Option<String>,
    pub outdated: bool,
}

/// An adapter's state as plain text.
pub struct AdapterText {
    pub integration: Integration,
    pub installed: bool,
    pub version: Option<Seq<char>>,
    pub outdated: bool,
}

impl View for AdapterStatus {
    type V = AdapterText;

    open spec fn view(&self) -> AdapterText {
        AdapterText {
            integration: self.integration,
            installed: self.installed,
            version: string_in(self.version),
            outdated: self.outdated,
        }
    }
}

/// Some adapters as plain text.
pub open spec fn adapters_text(adapters: Seq<AdapterStatus>) -> Seq<AdapterText> {
    adapters.map_values(|adapter: AdapterStatus| adapter@)
}

/// The optional filesystem driver, as both pages report it.
#[derive(Clone, Copy, Debug, PartialEq, Eq, Structural)]
pub enum DriverStatus {
    NotInstalled,
    InstalledNotLoaded,
    LoadedNotConnected,
    Connected,
}

impl DriverStatus {
    /// A port that answers outranks whatever the service says; otherwise the
    /// service decides.
    pub fn read(port_available: bool, service: FilterServiceState) -> (r: DriverStatus)
        ensures
            r == if port_available {
                DriverStatus::Connected
            } else {
                match service {
                    FilterServiceState::NotInstalled => DriverStatus::NotInstalled,
                    FilterServiceState::Stopped => DriverStatus::InstalledNotLoaded,
                    FilterServiceState::Running => DriverStatus::LoadedNotConnected,
                }
            },
    {
        if port_available {
            return DriverStatus::Connected;
        }
        match service {
            FilterServiceState::NotInstalled => DriverStatus::NotInstalled,
            FilterServiceState::Stopped => DriverStatus::InstalledNotLoaded,
            FilterServiceState::Running => DriverStatus::LoadedNotConnected,
        }
    }

    pub open spec fn label_text(self) -> Seq<char> {
        match self {
            DriverStatus::NotInstalled => "not installed"@,
            DriverStatus::InstalledNotLoaded => "installed, not loaded"@,
            DriverStatus::LoadedNotConnected => "loaded, not connected"@,
            DriverStatus::Connected => "connected"@,
        }
    }

    pub fn label(self) -> (r: &'static str)
        ensures
            r@ == self.label_text(),
    {
        match self {
            DriverStatus::NotInstalled => "not installed",
            DriverStatus::InstalledNotLoaded => "installed, not loaded",
            DriverStatus::LoadedNotConnected => "loaded, not connected",
            DriverStatus::Connected => "connected",
        }
    }
}

/// Everything the window renders, read from the registry and the broker.
#[derive(Clone, Debug, PartialEq, Eq)]
pub struct State {
    pub disabled: bool,
    pub packaged: bool,
    pub windows: bool,
    /// Cmd, Windows PowerShell and PowerShell 7, in that order.
    pub adapters: Vec<AdapterStatus>,
    pub powershell7_available: bool,
    pub bare_mode: BareSlashMode,
    pub pinned: String,
    pub root: Option<String>,
    pub store_flavor: bool,
    pub auto_update: bool,
    /// The version the last check found.
    pub update_tag: Option<String>,
    /// Unix time of the last check attempt, whatever it concluded.
    pub last_check: Option<u64>,
    pub distributions: Vec<String>,
    pub wsl_default: Option<String>,
    pub broker: BrokerState,
    pub broker_window: bool,
    pub driver: DriverStatus,
    /// A downloaded update bundle is waiting to be registered.
    pub update_bundle_ready: bool,
}

/// The window's state as plain text.
pub struct StateText {
    pub disabled: bool,
    pub packaged: bool,
    pub windows: bool,
    pub adapters: Seq<AdapterText>,
    pub powershell7_available: bool,
    pub bare_mode: BareSlashMode,
    pub pinned: Seq<char>,
    pub root: Option<Seq<char>>,
    pub store_flavor: bool,
    pub auto_update: bool,
    pub update_tag: Option<Seq<char>>,
    pub last_check: Option<u64>,
    pub distributions: Seq<Seq<char>>,
    pub wsl_default: Option<Seq<char>>,
    pub broker: BrokerState,
    pub broker_window: bool,
    pub driver: DriverStatus,
    pub update_bundle_ready: bool,
}

impl View for State {
    type V = StateText;

    open spec fn view(&self) -> StateText {
        StateText {
            disabled: self.disabled,
            packaged: self.packaged,
            windows: self.windows,
            adapters: adapters_text(self.adapters@),
            powershell7_available: self.powershell7_available,
            bare_mode: self.bare_mode,
            pinned: self.pinned@,
            root: string_in(self.root),
            store_flavor: self.store_flavor,
            auto_update: self.auto_update,
            update_tag: string_in(self.update_tag),
            last_check: self.last_check,
            distributions: strings_text(self.distributions@),
            wsl_default: string_in(self.wsl_default),
            broker: self.broker,
            broker_window: self.broker_window,
            driver: self.driver,
            update_bundle_ready: self.update_bundle_ready,
        }
    }
}

fn same_option(a: &Option<String>, b: &Option<String>) -> (r: bool)
    ensures
        r == (string_in(*a) == string_in(*b)),
{
    match (a, b) {
        (Some(x), Some(y)) => same(x.as_str(), y.as_str()),
        (None, None) => true,
        _ => false,
    }
}

fn same_adapters(a: &[AdapterStatus], b: &[AdapterStatus]) -> (r: bool)
    ensures
        r == (adapters_text(a@) == adapters_text(b@)),
{
    let ghost x = adapters_text(a@);
    let ghost y = adapters_text(b@);
    if a.len() != b.len() {
        assert(x.len() != y.len());
        return false;
    }
    for i in 0..a.len()
        invariant
            a@.len() == b@.len(),
            x == adapters_text(a@),
            y == adapters_text(b@),
            forall|j: int| 0 <= j < i ==> x[j] == y[j],
    {
        assert(x[i as int] == a@[i as int]@);
        assert(y[i as int] == b@[i as int]@);
        if !(a[i].integration == b[i].integration && a[i].installed == b[i].installed && a[i].outdated
            == b[i].outdated && same_option(&a[i].version, &b[i].version)) {
            assert(x[i as int] != y[i as int]);
            return false;
        }
    }
    assert(x =~= y);
    true
}

fn same_strings(a: &[String], b: &[String]) -> (r: bool)
    ensures
        r == (strings_text(a@) == strings_text(b@)),
{
    let ghost x = strings_text(a@);
    let ghost y = strings_text(b@);
    if a.len() != b.len() {
        assert(x.len() != y.len());
        return false;
    }
    for i in 0..a.len()
        invariant
            a@.len() == b@.len(),
            x == strings_text(a@),
            y == strings_text(b@),
            forall|j: int| 0 <= j < i ==> x[j] == y[j],
    {
        assert(x[i as int] == a@[i as int]@);
        assert(y[i as int] == b@[i as int]@);
        if !same(a[i].as_str(), b[i].as_str()) {
            return false;
        }
    }
    assert(x =~= y);
    true
}

fn same_time(a: Option<u64>, b: Option<u64>) -> (r: bool)
    ensures
        r == (a == b),
{
    match (a, b) {
        (Some(x), Some(y)) => x == y,
        (None, None) => true,
        _ => false,
    }
}

/// The adapter row of an integration.
pub open spec fn adapter_row(adapters: Seq<AdapterText>, integration: Integration) -> Option<
    AdapterText,
>
    decreases adapters.len(),
{
    if adapters.len() == 0 {
        None
    } else if adapters[0].integration == integration {
        Some(adapters[0])
    } else {
        adapter_row(adapters.skip(1), integration)
    }
}

/// The installed adapters whose payload is not this build's, in page order.
pub open spec fn outdated_in(adapters: Seq<AdapterText>) -> Seq<Integration>
    decreases adapters.len(),
{
    if adapters.len() == 0 {
        Seq::empty()
    } else {
        let before = outdated_in(adapters.drop_last());
        if adapters.last().installed && adapters.last().outdated {
            before.push(adapters.last().integration)
        } else {
            before
        }
    }
}

/// What an adapter's version is shown as.
pub open spec fn shown_version(version: Option<Seq<char>>) -> Seq<char> {
    match version {
        Some(text) => text,
        None => "unknown"@,
    }
}

/// The index of the pinned distribution among some distributions.
pub open spec fn pin_index(distributions: Seq<Seq<char>>, pinned: Seq<char>) -> Option<int>
    decreases distributions.len(),
{
    if distributions.len() == 0 {
        None
    } else if folds_alike(distributions[0], pinned) {
        Some(0)
    } else {
        match pin_index(distributions.skip(1), pinned) {
            Some(index) => Some(index + 1),
            None => None,
        }
    }
}

impl StateText {
    /// Whether an integration is installed.
    pub open spec fn has(self, integration: Integration) -> bool {
        if integration == Integration::Windows {
            self.windows
        } else {
            adapter_row(self.adapters, integration) is Some && adapter_row(
                self.adapters,
                integration,
            )->Some_0.installed
        }
    }

    /// The combo index of the pin: 0 follows the Windows default.
    pub open spec fn distribution_index(self) -> int {
        if self.pinned.len() == 0 {
            0
        } else {
            match pin_index(self.distributions, self.pinned) {
                Some(index) => index + 1,
                None => 0,
            }
        }
    }

    /// What bare `/` actually opens: the pin if there is one, else the WSL default.
    pub open spec fn effective_distribution(self) -> Option<Seq<char>> {
        if self.distribution_index() > 0 {
            Some(self.distributions[self.distribution_index() - 1])
        } else {
            self.wsl_default
        }
    }

    pub open spec fn is_list_mode(self) -> bool {
        self.bare_mode == BareSlashMode::DistributionList
    }

    /// The secondary line under a Terminals toggle.
    pub open spec fn adapter_detail(self, integration: Integration) -> Option<Seq<char>> {
        match adapter_row(self.adapters, integration) {
            None => None,
            Some(adapter) => if !adapter.installed {
                None
            } else if adapter.outdated {
                Some(
                    "Installed payload "@ + shown_version(adapter.version)
                        + " \u{2014} updating to "@ + FSW_VERSION@,
                )
            } else {
                Some("Installed payload "@ + shown_version(adapter.version))
            },
        }
    }

    /// The About page's line for one adapter.
    pub open spec fn adapter_line(self, integration: Integration) -> Seq<char> {
        let row = adapter_row(self.adapters, integration);
        if row is None || !row->Some_0.installed {
            integration.display_text() + " adapter: not installed"@
        } else if row->Some_0.outdated {
            integration.display_text() + " adapter: "@ + shown_version(row->Some_0.version)
                + " (update pending)"@
        } else {
            integration.display_text() + " adapter: "@ + shown_version(row->Some_0.version)
        }
    }

    /// The About page's broker line.
    pub open spec fn broker_line(self) -> Seq<char> {
        match self.broker {
            BrokerState::Active => "Broker: active"@,
            BrokerState::Paused => "Broker: paused"@,
            BrokerState::Unavailable => if self.broker_window {
                "Broker: hook unavailable"@
            } else {
                "Broker: stopped"@
            },
        }
    }

    /// The About page's "there is a newer version" line.
    pub open spec fn update_line(self) -> Option<Seq<char>> {
        match self.update_tag {
            Some(tag) => Some("Update available: "@ + without_lower_v(tag)),
            None => None,
        }
    }

    /// Which of the two package flavors is running, or neither.
    pub open spec fn flavor_line(self) -> Seq<char> {
        if !self.packaged {
            "Flavor: unpackaged"@
        } else if self.store_flavor {
            "Flavor: Microsoft Store"@
        } else {
            "Flavor: GitHub"@
        }
    }

    /// What the caption under the distribution picker says.
    pub open spec fn caption(self) -> Seq<char> {
        match self.root {
            Some(root) => "/ opens "@ + root,
            None => match self.effective_distribution() {
                Some(name) => "/ opens "@ + WSL_ROOT_UNC@ + "\\"@ + name,
                None => "No WSL distribution is available for / yet."@,
            },
        }
    }

    /// The broker's part of the status text.
    pub open spec fn broker_word(self) -> Seq<char> {
        if !self.windows {
            "not installed"@
        } else {
            match self.broker {
                BrokerState::Active => "active"@,
                BrokerState::Paused => "disabled"@,
                BrokerState::Unavailable => if self.broker_window {
                    "hook unavailable"@
                } else {
                    "stopped"@
                },
            }
        }
    }

    pub open spec fn status(self) -> Seq<char> {
        "Windows broker: "@ + self.broker_word() + "\nFilesystem driver: "@
            + self.driver.label_text()
    }
}

/// A tag without one leading `v`.
pub open spec fn without_lower_v(tag: Seq<char>) -> Seq<char> {
    if tag.len() > 0 && tag[0] == 'v' {
        tag.skip(1)
    } else {
        tag
    }
}

/// A tag without one leading `v`.
pub fn short_version(tag: &str) -> (r: String)
    ensures
        r@ == without_lower_v(tag@),
{
    let chars = chars_of(tag);
    let v = chars.as_slice();
    if v.len() > 0 && v[0] == 'v' {
        let rest = part(v, 1, v.len());
        assert(rest@ =~= tag@.skip(1));
        string_of(rest)
    } else {
        string_of(v)
    }
}

impl State {
    /// Whether two states show the same.
    pub fn shows_the_same(&self, other: &State) -> (r: bool)
        ensures
            r == (self@ == other@),
    {
        self.disabled == other.disabled && self.packaged == other.packaged && self.windows
            == other.windows && self.powershell7_available == other.powershell7_available
            && self.bare_mode == other.bare_mode && self.store_flavor == other.store_flavor
            && self.auto_update == other.auto_update && self.broker == other.broker
            && self.broker_window == other.broker_window && self.driver == other.driver
            && self.update_bundle_ready == other.update_bundle_ready && same_time(
            self.last_check,
            other.last_check,
        ) && same(self.pinned.as_str(), other.pinned.as_str()) && same_option(
            &self.root,
            &other.root,
        ) && same_option(&self.update_tag, &other.update_tag) && same_option(
            &self.wsl_default,
            &other.wsl_default,
        ) && same_adapters(self.adapters.as_slice(), other.adapters.as_slice()) && same_strings(
            self.distributions.as_slice(),
            other.distributions.as_slice(),
        )
    }

    /// The adapter row of an integration, or `None` for the Windows surfaces, which
    /// are no shell adapter.
    pub fn adapter(&self, integration: Integration) -> (r: Option<&AdapterStatus>)
        ensures
            match r {
                Some(adapter) => adapter_row(self@.adapters, integration) == Some(adapter@),
                None => adapter_row(self@.adapters, integration) is None,
            },
    {
        let ghost all = adapters_text(self.adapters@);
        assert(all.skip(0) =~= all);
        for i in 0..self.adapters.len()
            invariant
                all == adapters_text(self.adapters@),
                adapter_row(all, integration) == adapter_row(all.skip(i as int), integration),
        {
            proof {
                assert(all.skip(i as int)[0] == self.adapters@[i as int]@);
                assert(all.skip(i as int).skip(1) =~= all.skip(i + 1));
            }
            if self.adapters[i].integration == integration {
                return Some(&self.adapters[i]);
            }
        }
        None
    }

    /// Whether an integration is installed.
    pub fn installed(&self, integration: Integration) -> (r: bool)
        ensures
            r == self@.has(integration),
    {
        if integration == Integration::Windows {
            return self.windows;
        }
        match self.adapter(integration) {
            Some(adapter) => adapter.installed,
            None => false,
        }
    }

    /// Installed adapters whose payload is not this build's, in page order.
    pub fn outdated_adapters(&self) -> (r: Vec<Integration>)
        ensures
            r@ == outdated_in(self@.adapters),
    {
        let ghost all = adapters_text(self.adapters@);
        let mut outdated: Vec<Integration> = Vec::new();
        for i in 0..self.adapters.len()
            invariant
                all == adapters_text(self.adapters@),
                outdated@ == outdated_in(all.take(i as int)),
        {
            proof {
                assert(all.take(i + 1).drop_last() =~= all.take(i as int));
                assert(all.take(i + 1).last() == self.adapters@[i as int]@);
            }
            if self.adapters[i].installed && self.adapters[i].outdated {
                outdated.push(self.adapters[i].integration);
            }
        }
        assert(all.take(all.len() as int) =~= all);
        outdated
    }

    /// The secondary line under a Terminals toggle: what is actually deployed.
    pub fn adapter_detail(&self, integration: Integration) -> (r: Option<String>)
        ensures
            string_in(r) == self@.adapter_detail(integration),
    {
        match self.adapter(integration) {
            None => None,
            Some(adapter) => {
                if !adapter.installed {
                    return None;
                }
                let mut text: String = "Installed payload ".to_owned();
                push_version(&mut text, &adapter.version);
                if adapter.outdated {
                    text.push_str(" \u{2014} updating to ");
                    text.push_str(FSW_VERSION);
                }
                Some(text)
            },
        }
    }

    /// The About page's line for one adapter.
    pub fn adapter_component_line(&self, integration: Integration) -> (r: String)
        ensures
            r@ == self@.adapter_line(integration),
    {
        let mut text: String = integration.display_name().to_owned();
        match self.adapter(integration) {
            None => {
                text.push_str(" adapter: not installed");
            },
            Some(adapter) => {
                if !adapter.installed {
                    text.push_str(" adapter: not installed");
                } else {
                    text.push_str(" adapter: ");
                    push_version(&mut text, &adapter.version);
                    if adapter.outdated {
                        text.push_str(" (update pending)");
                    }
                }
            },
        }
        text
    }

    /// The About page's broker line.
    pub fn broker_component_line(&self) -> (r: &'static str)
        ensures
            r@ == self@.broker_line(),
    {
        match self.broker {
            BrokerState::Active => "Broker: active",
            BrokerState::Paused => "Broker: paused",
            BrokerState::Unavailable => if self.broker_window {
                "Broker: hook unavailable"
            } else {
                "Broker: stopped"
            },
        }
    }

    /// The About page's filesystem-driver line.
    pub fn driver_component_line(&self) -> (r: String)
        ensures
            r@ == "Filesystem driver: "@ + self@.driver.label_text(),
    {
        let mut text: String = "Filesystem driver: ".to_owned();
        text.push_str(self.driver.label());
        text
    }

    /// When this last looked for an update. Always shown, also when the answer is
    /// "never".
    pub fn last_check_line(&self, now: u64) -> (r: String)
        ensures
            r@ == "Last update check: "@ + last_check_text(now, self@.last_check),
    {
        let mut text: String = "Last update check: ".to_owned();
        text.push_str(format_last_check(now, self.last_check).as_str());
        text
    }

    /// The About page's "there is a newer version" line, or `None`.
    pub fn update_available_line(&self) -> (r: Option<String>)
        ensures
            string_in(r) == self@.update_line(),
    {
        match &self.update_tag {
            Some(tag) => {
                let mut text: String = "Update available: ".to_owned();
                text.push_str(short_version(tag.as_str()).as_str());
                Some(text)
            },
            None => None,
        }
    }

    /// Which of the two package flavors is running, or neither.
    pub fn flavor_component_line(&self) -> (r: &'static str)
        ensures
            r@ == self@.flavor_line(),
    {
        if !self.packaged {
            "Flavor: unpackaged"
        } else if self.store_flavor {
            "Flavor: Microsoft Store"
        } else {
            "Flavor: GitHub"
        }
    }

    pub fn is_list_mode(&self) -> (r: bool)
        ensures
            r == self@.is_list_mode(),
    {
        self.bare_mode == BareSlashMode::DistributionList
    }

    /// Item 0 is `Follow the Windows default`; the rest are the distributions.
    pub fn distribution_options(&self) -> (r: Vec<String>)
        ensures
            strings_text(r@) == seq!["Follow the Windows default"@] + self@.distributions,
    {
        let ghost all = strings_text(self.distributions@);
        let mut options: Vec<String> = Vec::new();
        options.push("Follow the Windows default".to_owned());
        assert(strings_text(options@) =~= seq!["Follow the Windows default"@] + all.take(0));
        for i in 0..self.distributions.len()
            invariant
                all == strings_text(self.distributions@),
                strings_text(options@) == seq!["Follow the Windows default"@] + all.take(i as int),
        {
            let ghost before = strings_text(options@);
            let name = self.distributions[i].clone();
            options.push(name);
            assert(strings_text(options@) =~= before.push(name@));
            assert(before.push(all[i as int]) =~= seq!["Follow the Windows default"@] + all.take(
                i + 1,
            ));
        }
        assert(all.take(all.len() as int) =~= all);
        options
    }

    /// The combo index of the pin. The window declares it and compares against it,
    /// so "did the user actually change it" is exact by construction.
    pub fn distribution_index(&self) -> (r: usize)
        ensures
            r == self@.distribution_index(),
            r <= self@.distributions.len(),
    {
        if self.pinned.as_str().is_empty() {
            return 0;
        }
        let ghost all = strings_text(self.distributions@);
        let n: usize = self.distributions.len();
        assert(all.skip(0) =~= all);
        for i in 0..n
            invariant
                n == self.distributions@.len(),
                self.pinned@.len() > 0,
                all == strings_text(self.distributions@),
                match pin_index(all.skip(i as int), self.pinned@) {
                    Some(index) => pin_index(all, self.pinned@) == Some(index + i),
                    None => pin_index(all, self.pinned@) is None,
                },
        {
            let ghost rest = all.skip(i as int);
            proof {
                assert(rest[0] == self.distributions@[i as int]@);
                assert(rest.skip(1) =~= all.skip(i + 1));
            }
            if eq_ignore_case(self.distributions[i].as_str(), self.pinned.as_str()) {
                return i + 1;
            }
        }
        assert(all.skip(n as int) =~= Seq::empty());
        0
    }

    /// What bare `/` actually opens: the pin if there is one, else the WSL default.
    pub fn effective_distribution(&self) -> (r: Option<&str>)
        ensures
            text_in(r) == self@.effective_distribution(),
    {
        let index = self.distribution_index();
        if index > 0 {
            assert(self@.distributions[index - 1] == self.distributions@[index - 1]@);
            Some(self.distributions[index - 1].as_str())
        } else {
            match &self.wsl_default {
                Some(name) => Some(name.as_str()),
                None => None,
            }
        }
    }

    /// The caption under the distribution picker.
    pub fn bare_target_caption(&self) -> (r: String)
        ensures
            r@ == self@.caption(),
    {
        if let Some(root) = &self.root {
            let mut text: String = "/ opens ".to_owned();
            text.push_str(root.as_str());
            return text;
        }
        match self.effective_distribution() {
            Some(name) => {
                let mut text: String = "/ opens ".to_owned();
                text.push_str(WSL_ROOT_UNC);
                text.push_str("\\");
                text.push_str(name);
                text
            },
            None => "No WSL distribution is available for / yet.".to_owned(),
        }
    }

    /// True when the folder choice is live.
    pub fn is_folder_mode(&self) -> (r: bool)
        ensures
            r == (self@.root is Some),
    {
        self.root.is_some()
    }

    /// The General page's status text.
    pub fn status_text(&self) -> (r: String)
        ensures
            r@ == self@.status(),
    {
        let word = if !self.windows {
            "not installed"
        } else {
            match self.broker {
                BrokerState::Active => "active",
                BrokerState::Paused => "disabled",
                BrokerState::Unavailable => if self.broker_window {
                    "hook unavailable"
                } else {
                    "stopped"
                },
            }
        };
        let mut text: String = "Windows broker: ".to_owned();
        text.push_str(word);
        text.push_str("\nFilesystem driver: ");
        text.push_str(self.driver.label());
        text
    }
}

fn push_version(s: &mut String, version: &Option<String>)
    ensures
        final(s)@ == old(s)@ + shown_version(string_in(*version)),
{
    match version {
        Some(text) => s.push_str(text.as_str()),
        None => s.push_str("unknown"),
    }
}

// ---------------------------------------------------------------------------
// Reading the state
// ---------------------------------------------------------------------------

/// What the machine answered, before anything is made of it.
pub struct Readings<'a> {
    pub stored: Option<&'a StoredSettings>,
    pub lxss: Option<&'a LxssValues>,
    /// The full name of the running package, where there is one.
    pub full_name: Option<&'a str>,
    pub run_value_present: bool,
    pub cmd: Option<&'a AdapterMarker>,
    pub windows_powershell: Option<&'a AdapterMarker>,
    pub powershell: Option<&'a AdapterMarker>,
    pub powershell7_available: bool,
    /// The broker's answer, where its window answered.
    pub broker_answer: Option<isize>,
    pub broker_window: bool,
    pub port_available: bool,
    pub service: FilterServiceState,
    /// The bundle of the recorded release is there.
    pub bundle_exists: bool,
}

/// One adapter, from its marker.
pub open spec fn adapter_reading(integration: Integration, marker: Option<&AdapterMarker>) -> AdapterText {
    AdapterText {
        integration,
        installed: is_installed(marker),
        version: recorded_version(marker),
        outdated: is_installed(marker) && recorded_version(marker) != Some(FSW_VERSION@),
    }
}

/// The registered distributions that the readings name.
pub open spec fn registered_in(lxss: Option<&LxssValues>) -> Seq<Seq<char>> {
    match lxss {
        Some(values) => valid_names(strings_text(values.names@)),
        None => Seq::empty(),
    }
}

/// The state that some readings amount to.
pub open spec fn state_from(readings: Readings) -> StateText {
    let packaged = readings.full_name is Some;
    let store = in_name(readings.full_name, |name: Seq<char>| family_text(name)) == Some(
        STORE_PACKAGE_FAMILY@,
    );
    StateText {
        disabled: stored_disabled(readings.stored),
        packaged,
        windows: packaged || readings.run_value_present,
        adapters: seq![
            adapter_reading(Integration::Cmd, readings.cmd),
            adapter_reading(Integration::WindowsPowerShell, readings.windows_powershell),
            adapter_reading(Integration::PowerShell7, readings.powershell),
        ],
        powershell7_available: readings.powershell7_available,
        bare_mode: stored_mode(readings.stored),
        pinned: match stored_pin(readings.stored) {
            Some(pin) => pin,
            None => Seq::empty(),
        },
        root: stored_root(readings.stored),
        store_flavor: store,
        auto_update: auto_update_setting(
            match readings.stored {
                Some(values) => values.auto_update,
                None => None,
            },
            store,
        ),
        update_tag: stored_tag(readings.stored),
        last_check: match readings.stored {
            Some(values) => values.last_update_check,
            None => None,
        },
        distributions: registered_in(readings.lxss),
        wsl_default: default_among(
            registered_in(readings.lxss),
            match readings.lxss {
                Some(values) => string_in(values.default_name),
                None => None,
            },
        ),
        broker: match readings.broker_answer {
            Some(value) => answered_state(value),
            None => BrokerState::Unavailable,
        },
        broker_window: readings.broker_window,
        driver: if readings.port_available {
            DriverStatus::Connected
        } else {
            match readings.service {
                FilterServiceState::NotInstalled => DriverStatus::NotInstalled,
                FilterServiceState::Stopped => DriverStatus::InstalledNotLoaded,
                FilterServiceState::Running => DriverStatus::LoadedNotConnected,
            }
        },
        update_bundle_ready: readings.bundle_exists,
    }
}

fn read_adapter(integration: Integration, marker: Option<&AdapterMarker>) -> (r: AdapterStatus)
    ensures
        r@ == adapter_reading(integration, marker),
{
    AdapterStatus {
        integration,
        installed: adapter_installed(marker),
        version: adapter_version(marker),
        outdated: adapter_outdated(marker, FSW_VERSION),
    }
}

impl State {
    /// Everything the window renders, from what the machine answered.
    pub fn read(readings: &Readings<'_>) -> (r: State)
        ensures
            r@ == state_from(*readings),
    {
        let distributions = list_registered_distributions(readings.lxss);
        let marked = match readings.lxss {
            Some(values) => as_deref(&values.default_name),
            None => None,
        };
        let wsl_default = get_default_distribution(distributions.as_slice(), marked);
        let settings = SettingsValues::read(readings.stored);
        let store_flavor = is_store_flavor(readings.full_name);
        let adapters = vec![
            read_adapter(Integration::Cmd, readings.cmd),
            read_adapter(Integration::WindowsPowerShell, readings.windows_powershell),
            read_adapter(Integration::PowerShell7, readings.powershell),
        ];
        proof {
            assert(adapters_text(adapters@) =~= state_from(*readings).adapters);
        }
        let pinned = match settings.bare_slash_pinned {
            Some(pinned) => pinned,
            None => {
                let empty = String::new();
                assert(empty@ =~= Seq::<char>::empty());
                empty
            },
        };
        let packaged = readings.full_name.is_some();
        State {
            disabled: settings.disabled,
            packaged,
            windows: windows_integration_installed(packaged, readings.run_value_present),
            adapters,
            powershell7_available: readings.powershell7_available,
            bare_mode: settings.bare_slash_mode,
            pinned,
            root: settings.bare_slash_root,
            store_flavor,
            auto_update: read_auto_update_enabled(readings.stored, store_flavor),
            update_tag: cached_update_tag(readings.stored),
            last_check: last_update_check(readings.stored),
            distributions,
            wsl_default,
            broker: broker_state(readings.broker_answer),
            broker_window: readings.broker_window,
            driver: DriverStatus::read(readings.port_available, readings.service),
            update_bundle_ready: readings.bundle_exists,
        }
    }
}

}
