//! What each page of the settings window shows: which controls are there, what they
//! say, and whether they accept input.

use crate::package::{architecture_text, in_name, package_architecture, package_version};
use crate::package::{version_text, FSW_VERSION};
use crate::path::text_in;
use crate::settings::strings_text;
use crate::text::string_in;
use crate::update::last_check_text;
use crate::update_reply::{banner_text, install_banner_label, NoticeAction};
use crate::window_model::{model_text, ModelText, SettingsModel};
use crate::window_state::{Integration, Section};
use vstd::prelude::*;

verus! {

// ---------------------------------------------------------------------------
// The General page
// ---------------------------------------------------------------------------

/// The picker of the distribution that bare `/` opens.
#[derive(Debug, Clone, PartialEq, Eq)]
pub struct PickerView {
    pub options: Vec<String>,
    pub index: usize,
    pub caption: String,
}

/// The automatic updates card.
#[derive(Debug, Clone, PartialEq, Eq)]
pub struct AutoUpdateView {
    pub description: &'static str,
    pub detail: String,
    pub is_on: bool,
}

/// The General page.
#[derive(Debug, Clone, PartialEq, Eq)]
pub struct GeneralView {
    /// Whether the controls that change state accept input.
    pub enabled: bool,
    pub resolution_on: bool,
    pub list_checked: bool,
    pub default_checked: bool,
    pub folder_checked: bool,
    pub picker: Option<PickerView>,
    /// The draft in the folder box, where the box is shown.
    pub folder: Option<String>,
    pub auto_update: Option<AutoUpdateView>,
    /// Whether "Check now" is there.
    pub check_now: bool,
    pub status: String,
}

/// The picker as plain text.
pub struct PickerText {
    pub options: Seq<Seq<char>>,
    pub index: int,
    pub caption: Seq<char>,
}

/// The automatic updates card as plain text.
pub struct AutoUpdateText {
    pub description: Seq<char>,
    pub detail: Seq<char>,
    pub is_on: bool,
}

/// The General page as plain text.
pub struct GeneralText {
    pub enabled: bool,
    pub resolution_on: bool,
    pub list_checked: bool,
    pub default_checked: bool,
    pub folder_checked: bool,
    pub picker: Option<PickerText>,
    pub folder: Option<Seq<char>>,
    pub auto_update: Option<AutoUpdateText>,
    pub check_now: bool,
    pub status: Seq<char>,
}

impl View for GeneralView {
    type V = GeneralText;

    open spec fn view(&self) -> GeneralText {
        GeneralText {
            enabled: self.enabled,
            resolution_on: self.resolution_on,
            list_checked: self.list_checked,
            default_checked: self.default_checked,
            folder_checked: self.folder_checked,
            picker: match self.picker {
                Some(picker) => Some(
                    PickerText {
                        options: strings_text(picker.options@),
                        index: picker.index as int,
                        caption: picker.caption@,
                    },
                ),
                None => None,
            },
            folder: string_in(self.folder),
            auto_update: match self.auto_update {
                Some(card) => Some(
                    AutoUpdateText {
                        description: card.description@,
                        detail: card.detail@,
                        is_on: card.is_on,
                    },
                ),
                None => None,
            },
            check_now: self.check_now,
            status: self.status@,
        }
    }
}

/// What the automatic updates card says.
pub open spec fn auto_update_description(store_flavor: bool) -> Seq<char> {
    if store_flavor {
        "Let fwdslash install Store updates in the background. Off by default; the Store still updates the app on its own schedule."@
    } else {
        "Check GitHub daily and install new versions automatically."@
    }
}

/// The General page of a model. A folder choice, stored or pending, outranks both
/// modes; a build without a package has nothing to update.
pub open spec fn general_page(model: ModelText, now: u64) -> GeneralText {
    let state = model.state;
    let folder = state.root is Some || model.folder_selected;
    GeneralText {
        enabled: model.pending is None,
        resolution_on: !state.disabled,
        list_checked: state.is_list_mode() && !folder,
        default_checked: !state.is_list_mode() && !folder,
        folder_checked: folder,
        picker: if state.is_list_mode() || folder {
            None
        } else {
            Some(
                PickerText {
                    options: seq!["Follow the Windows default"@] + state.distributions,
                    index: state.distribution_index(),
                    caption: state.caption(),
                },
            )
        },
        folder: if folder {
            Some(model.root_draft)
        } else {
            None
        },
        auto_update: if state.packaged {
            Some(
                AutoUpdateText {
                    description: auto_update_description(state.store_flavor),
                    detail: "Last update check: "@ + last_check_text(now, state.last_check),
                    is_on: state.auto_update,
                },
            )
        } else {
            None
        },
        check_now: state.packaged,
        status: state.status(),
    }
}

// ---------------------------------------------------------------------------
// The other pages
// ---------------------------------------------------------------------------

/// The Windows page.
#[derive(Debug, Clone, Copy, PartialEq, Eq, Structural)]
pub struct WindowsView {
    pub is_on: bool,
    pub enabled: bool,
    /// Windows owns the start at logon: say where it can be changed.
    pub managed: bool,
}

/// One shell on the Terminals page.
#[derive(Debug, Clone, PartialEq, Eq)]
pub struct TerminalRow {
    pub integration: Integration,
    pub title: &'static str,
    pub description: &'static str,
    /// What is deployed.
    pub detail: Option<String>,
    pub is_on: bool,
    pub enabled: bool,
}

/// One shell as plain text.
pub struct RowText {
    pub integration: Integration,
    pub title: Seq<char>,
    pub description: Seq<char>,
    pub detail: Option<Seq<char>>,
    pub is_on: bool,
    pub enabled: bool,
}

impl View for TerminalRow {
    type V = RowText;

    open spec fn view(&self) -> RowText {
        RowText {
            integration: self.integration,
            title: self.title@,
            description: self.description@,
            detail: string_in(self.detail),
            is_on: self.is_on,
            enabled: self.enabled,
        }
    }
}

/// The title of a shell's card.
pub open spec fn row_title(integration: Integration) -> Seq<char> {
    match integration {
        Integration::Windows => "Explorer, Run, and Search"@,
        Integration::Cmd => "Command Prompt"@,
        Integration::WindowsPowerShell => "Windows PowerShell 5.1"@,
        Integration::PowerShell7 => "PowerShell 7"@,
    }
}

/// What a shell's card says.
pub open spec fn row_description(integration: Integration, powershell7_available: bool) -> Seq<char> {
    match integration {
        Integration::Windows => "Installs the per-user broker and startup entry. Turning this off stops the broker and removes its startup registration."@,
        Integration::Cmd => "Adds reversible dir and ls DOSKEY adapters for new cmd.exe sessions."@,
        Integration::WindowsPowerShell => "Adds a guarded profile import and preserves normal Get-ChildItem behavior."@,
        Integration::PowerShell7 => if powershell7_available {
            "Adds the same reversible adapter to the PowerShell 7 profile."@
        } else {
            "PowerShell 7 is not installed on this computer."@
        },
    }
}

/// Whether a shell's switch accepts input: PowerShell 7 has to be there, or still to
/// be removed, and Windows manages its own surfaces for a packaged build.
pub open spec fn row_enabled(model: ModelText, integration: Integration) -> bool {
    &&& model.pending is None
    &&& match integration {
        Integration::Windows => !model.state.packaged,
        Integration::PowerShell7 => model.state.powershell7_available || model.state.has(
            integration,
        ),
        _ => true,
    }
}

/// One shell's row.
pub open spec fn terminal_row(model: ModelText, integration: Integration) -> RowText {
    RowText {
        integration,
        title: row_title(integration),
        description: row_description(integration, model.state.powershell7_available),
        detail: model.state.adapter_detail(integration),
        is_on: model.state.has(integration),
        enabled: row_enabled(model, integration),
    }
}

/// The running package version, or this build's where there is no package, and the
/// architecture.
pub open spec fn package_text(full: Option<&str>, processor: Seq<char>) -> Seq<char> {
    (match in_name(full, |name: Seq<char>| version_text(name)) {
        Some(version) => version,
        None => FSW_VERSION@,
    }) + " ("@ + (match in_name(full, |name: Seq<char>| architecture_text(name)) {
        Some(architecture) => architecture,
        None => processor,
    }) + ")"@
}

/// What is deployed on this machine, one line for each component.
pub open spec fn component_lines(model: ModelText, package: Seq<char>, now: u64) -> Seq<Seq<char>> {
    let state = model.state;
    let lines = seq![
        state.broker_line(),
        "Filesystem driver: "@ + state.driver.label_text(),
        state.adapter_line(Integration::Cmd),
        state.adapter_line(Integration::WindowsPowerShell),
        state.adapter_line(Integration::PowerShell7),
        "Package: "@ + package,
        state.flavor_line(),
        "Last update check: "@ + last_check_text(now, state.last_check),
    ];
    match state.update_line() {
        Some(line) => lines.push(line),
        None => lines,
    }
}

// ---------------------------------------------------------------------------
// The banners
// ---------------------------------------------------------------------------

/// The standing notices and actions above the page.
#[derive(Debug, Clone, PartialEq, Eq)]
pub struct BannersView {
    /// The message of the progress bar of an upgrade.
    pub upgrade: Option<String>,
    /// The notice's own action.
    pub notice_action: Option<NoticeAction>,
    /// The label of the install button.
    pub install: Option<&'static str>,
    /// Whether the install button accepts input.
    pub enabled: bool,
    /// Something is in flight.
    pub busy: bool,
}

/// The banners as plain text.
pub struct BannersText {
    pub upgrade: Option<Seq<char>>,
    pub notice_action: Option<NoticeAction>,
    pub install: Option<Seq<char>>,
    pub enabled: bool,
    pub busy: bool,
}

impl View for BannersView {
    type V = BannersText;

    open spec fn view(&self) -> BannersText {
        BannersText {
            upgrade: string_in(self.upgrade),
            notice_action: self.notice_action,
            install: text_in(self.install),
            enabled: self.enabled,
            busy: self.busy,
        }
    }
}

/// The banners of a model; `None` where there is none to show.
pub open spec fn banners_of(model: ModelText) -> Option<BannersText> {
    let install = banner_text(
        model.state.packaged,
        model.state.store_flavor,
        model.state.update_bundle_ready,
        model.state.update_tag is Some,
    );
    let action = match model.notice {
        Some(notice) => notice.action,
        None => None,
    };
    if model.upgrade is None && install is None && action is None && model.pending is None {
        None
    } else {
        Some(
            BannersText {
                upgrade: match model.upgrade {
                    Some(upgrade) => Some(
                        upgrade.current.display_text() + " adapter \u{2192} "@ + FSW_VERSION@,
                    ),
                    None => None,
                },
                notice_action: action,
                install,
                enabled: model.pending is None,
                busy: model.pending is Some,
            },
        )
    }
}

pub open spec fn banners_in(banners: Option<BannersView>) -> Option<BannersText> {
    match banners {
        Some(banners) => Some(banners@),
        None => None,
    }
}

// ---------------------------------------------------------------------------
// Reading the pages off a model
// ---------------------------------------------------------------------------

/// The running package version, or this build's where there is no package, and the
/// architecture.
pub fn package_label(full: Option<&str>, processor: &str) -> (r: String)
    ensures
        r@ == package_text(full, processor@),
{
    let mut text: String = match package_version(full) {
        Some(version) => version,
        None => FSW_VERSION.to_owned(),
    };
    text.push_str(" (");
    match package_architecture(full) {
        Some(architecture) => {
            text.push_str(architecture.as_str());
        },
        None => {
            text.push_str(processor);
        },
    }
    text.push_str(")");
    text
}

impl SettingsModel {
    /// The General page.
    pub fn view_general(&self, now: u64) -> (r: GeneralView)
        ensures
            r@ == general_page(self@, now),
    {
        proof {
            reveal(model_text);
        }
        let state = &self.state;
        let folder = state.is_folder_mode() || self.folder_selected;
        let list = state.is_list_mode();
        let picker: Option<PickerView> = if list || folder {
            None
        } else {
            Some(
                PickerView {
                    options: state.distribution_options(),
                    index: state.distribution_index(),
                    caption: state.bare_target_caption(),
                },
            )
        };
        let draft: Option<String> = if folder {
            Some(self.root_draft.clone())
        } else {
            None
        };
        let auto_update: Option<AutoUpdateView> = if state.packaged {
            Some(
                AutoUpdateView {
                    description: if state.store_flavor {
                        "Let fwdslash install Store updates in the background. Off by default; the Store still updates the app on its own schedule."
                    } else {
                        "Check GitHub daily and install new versions automatically."
                    },
                    detail: state.last_check_line(now),
                    is_on: state.auto_update,
                },
            )
        } else {
            None
        };
        GeneralView {
            enabled: self.controls_enabled(),
            resolution_on: !state.disabled,
            list_checked: list && !folder,
            default_checked: !list && !folder,
            folder_checked: folder,
            picker,
            folder: draft,
            auto_update,
            check_now: state.packaged,
            status: state.status_text(),
        }
    }

    /// The Windows page.
    pub fn view_windows(&self) -> (r: WindowsView)
        ensures
            r == (WindowsView {
                is_on: self@.state.has(Integration::Windows),
                enabled: row_enabled(self@, Integration::Windows),
                managed: self@.state.packaged,
            }),
    {
        proof {
            reveal(model_text);
        }
        WindowsView {
            is_on: self.state.installed(Integration::Windows),
            enabled: !self.state.packaged && self.controls_enabled(),
            managed: self.state.packaged,
        }
    }

    /// One shell of the Terminals page.
    pub fn terminal_row(&self, integration: Integration) -> (r: TerminalRow)
        ensures
            r@ == terminal_row(self@, integration),
    {
        proof {
            reveal(model_text);
        }
        let available = self.state.powershell7_available;
        let installed = self.state.installed(integration);
        let (title, description) = match integration {
            Integration::Windows => (
                "Explorer, Run, and Search",
                "Installs the per-user broker and startup entry. Turning this off stops the broker and removes its startup registration.",
            ),
            Integration::Cmd => (
                "Command Prompt",
                "Adds reversible dir and ls DOSKEY adapters for new cmd.exe sessions.",
            ),
            Integration::WindowsPowerShell => (
                "Windows PowerShell 5.1",
                "Adds a guarded profile import and preserves normal Get-ChildItem behavior.",
            ),
            Integration::PowerShell7 => (
                "PowerShell 7",
                if available {
                    "Adds the same reversible adapter to the PowerShell 7 profile."
                } else {
                    "PowerShell 7 is not installed on this computer."
                },
            ),
        };
        let allowed = match integration {
            Integration::Windows => !self.state.packaged,
            Integration::PowerShell7 => available || installed,
            _ => true,
        };
        TerminalRow {
            integration,
            title,
            description,
            detail: self.state.adapter_detail(integration),
            is_on: installed,
            enabled: allowed && self.controls_enabled(),
        }
    }

    /// The Terminals page: its three shells, and whether the repair button accepts
    /// input.
    pub fn view_terminals(&self) -> (r: (Vec<TerminalRow>, bool))
        ensures
            r.0@.len() == 3,
            r.0@[0]@ == terminal_row(self@, Integration::Cmd),
            r.0@[1]@ == terminal_row(self@, Integration::WindowsPowerShell),
            r.0@[2]@ == terminal_row(self@, Integration::PowerShell7),
            r.1 == (self@.pending is None),
    {
        let rows = vec![
            self.terminal_row(Integration::Cmd),
            self.terminal_row(Integration::WindowsPowerShell),
            self.terminal_row(Integration::PowerShell7),
        ];
        (rows, self.controls_enabled())
    }

    /// The About page's components card, from the label of the package.
    pub fn components_card(&self, package: &str, now: u64) -> (r: Vec<String>)
        ensures
            strings_text(r@) == component_lines(self@, package@, now),
    {
        proof {
            reveal(model_text);
        }
        let state = &self.state;
        let mut label: String = "Package: ".to_owned();
        label.push_str(package);
        let mut lines = vec![
            state.broker_component_line().to_owned(),
            state.driver_component_line(),
            state.adapter_component_line(Integration::Cmd),
            state.adapter_component_line(Integration::WindowsPowerShell),
            state.adapter_component_line(Integration::PowerShell7),
            label,
            state.flavor_component_line().to_owned(),
            state.last_check_line(now),
        ];
        if let Some(line) = state.update_available_line() {
            lines.push(line);
        }
        assert(strings_text(lines@) =~= component_lines(self@, package@, now));
        lines
    }

    /// The About page: its subtitle and its components card.
    pub fn view_about(&self, full: Option<&str>, processor: &str, now: u64) -> (r: (
        String,
        Vec<String>,
    ))
        ensures
            r.0@ == "Forward Slash Windows "@ + package_text(full, processor@),
            strings_text(r.1@) == component_lines(self@, package_text(full, processor@), now),
    {
        let package = package_label(full, processor);
        let mut subtitle: String = "Forward Slash Windows ".to_owned();
        subtitle.push_str(package.as_str());
        (subtitle, self.components_card(package.as_str(), now))
    }

    /// The standing notices and actions above the page. They are kept out of the
    /// notice, so that a routine result never hides the progress of an upgrade.
    pub fn banners(&self) -> (r: Option<BannersView>)
        ensures
            banners_in(r) == banners_of(self@),
    {
        proof {
            reveal(model_text);
        }
        let install = install_banner_label(
            self.state.packaged,
            self.state.store_flavor,
            self.state.update_bundle_ready,
            self.state.update_tag.is_some(),
        );
        let notice_action = match &self.notice {
            Some(notice) => notice.action,
            None => None,
        };
        if self.upgrade.is_none() && install.is_none() && notice_action.is_none()
            && self.pending.is_none() {
            return None;
        }
        let upgrade: Option<String> = match &self.upgrade {
            Some(upgrade) => {
                let mut message: String = upgrade.current.display_name().to_owned();
                message.push_str(" adapter \u{2192} ");
                message.push_str(FSW_VERSION);
                Some(message)
            },
            None => None,
        };
        Some(
            BannersView {
                upgrade,
                notice_action,
                install,
                enabled: self.controls_enabled(),
                busy: self.pending.is_some(),
            },
        )
    }

    /// Whether the navigation shows this page as selected.
    pub fn is_selected(&self, section: Section) -> (r: bool)
        ensures
            r == (self@.section == section),
    {
        proof {
            reveal(model_text);
        }
        self.section == section
    }
}

// ---------------------------------------------------------------------------
// Laws
// ---------------------------------------------------------------------------

/// Exactly one of the three bare-slash choices is shown as chosen, and only its own
/// controls are shown: the picker for the default distribution, the box for a
/// folder.
pub proof fn law_one_bare_slash_choice_is_shown(model: ModelText, now: u64)
    ensures
        ({
            let page = general_page(model, now);
            &&& page.list_checked ==> !page.default_checked && !page.folder_checked
            &&& page.default_checked ==> !page.list_checked && !page.folder_checked
            &&& page.list_checked || page.default_checked || page.folder_checked
            &&& page.picker is Some == page.default_checked
            &&& page.folder is Some == page.folder_checked
        }),
{
}

/// While something is in flight, no control that changes state accepts input, and
/// the window says that it is busy.
pub proof fn law_controls_wait_for_what_is_in_flight(
    model: ModelText,
    integration: Integration,
    now: u64,
)
    requires
        model.pending is Some,
    ensures
        !general_page(model, now).enabled,
        !row_enabled(model, integration),
        banners_of(model) is Some,
        banners_of(model)->Some_0.busy,
        !banners_of(model)->Some_0.enabled,
{
}

}
