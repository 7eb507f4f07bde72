//! The settings window as a state machine: a message changes the model and asks for
//! effects, which the caller performs and answers with further messages.

use crate::package::FSW_VERSION;
use crate::path::{is_valid_windows_root, is_windows_root, text_in};
use crate::settings::strings_text;
use crate::state_watch::{after_wakes, should_read, ReadCoalescer, Wake};
use crate::text::{chars_of, push_chars, same, string_in, string_of, trim, trimmed};
use crate::update::{update_check_allowed, OutcomeText, UpdateOutcome};
use crate::update_reply::{
    install_meaning, install_notice, latest_version_message, latest_version_text, notice_in,
    notice_of, InfoBarSeverity, Notice, NoticeText,
};
use crate::window_state::{
    outdated_in, section_of, short_version, without_lower_v, Integration, Section, State, StateText,
};
use vstd::prelude::*;

verus! {

/// The phrase for a change of the folder root. The answer carries the phrase, so it
/// is also how the one action that clears the pending folder choice is recognised.
pub const ROOT_ACTION: &'static str = "Bare slash opens the chosen folder";

/// The phrase reserved for one step of the automatic adapter upgrade, which reports
/// itself once, when its queue drains.
pub const UPGRADE_ACTION: &'static str = "Terminal integration upgrade";

pub const CHECK_ACTION: &'static str = "Update check";

pub const INSTALL_ACTION: &'static str = "Update install";

pub const REPAIR_ACTION: &'static str = "Integrations repaired";

pub const AUTO_UPDATE_ACTION: &'static str = "Automatic updates";

pub const OPEN_WSL_ACTION: &'static str = "Opening the WSL root";

pub const OPEN_STORE_ACTION: &'static str = "Opening the Microsoft Store";

// ---------------------------------------------------------------------------
// Messages and effects
// ---------------------------------------------------------------------------

/// What the manual repair ended up doing.
#[derive(Clone, Debug, PartialEq, Eq)]
pub enum RepairOutcome {
    Repaired,
    /// The broker's sweep is running: the same work is already being done.
    Busy,
    /// The repair refused; the string says why.
    Failed(String),
}

/// Something that happened.
#[derive(Clone, Debug)]
pub enum Msg {
    Navigate(Option<String>),
    PaneOpenChanged(bool),
    /// Whether the color scheme is dark.
    ColorSchemeChanged(bool),
    ToggleGlobal(bool),
    BareSlashListChecked(bool),
    BareSlashDefaultChecked(bool),
    FolderRadioChecked(bool),
    RootTextChanged(String),
    ApplyRoot,
    BrowseRoot,
    /// The folder picker closed, with a folder or without one.
    FolderPicked(Option<String>),
    /// An update check finished. `explicit` marks the one the user asked for.
    UpdateCheckFinished { outcome: UpdateOutcome, explicit: bool },
    CheckForUpdates,
    SetAutoUpdate(bool),
    AutoUpdateFinished { enabled: bool, succeeded: bool },
    SelectDistribution(Option<usize>),
    ToggleIntegration(Integration, bool),
    OpenWslRoot,
    ShellOpenFinished { action: &'static str, succeeded: bool },
    RefreshStatus,
    DismissNotice,
    InstallUpdate,
    UpdateInstallFinished { code: i32, stderr: String },
    OpenStorePage,
    RepairIntegrations,
    RepairFinished(RepairOutcome),
    /// A background read of the state completed.
    StateLoaded(State),
    /// The launch sweep finished; carries the state read that followed it.
    LaunchSweepFinished(State),
    /// One turn of the external-change watch ended, with the window on screen or
    /// not.
    ExternalStateChanged { wake: Wake, visible: bool },
    /// The state read that an external change started.
    StateRefreshed(State),
    BrokerProbed,
    /// An invocation of the controller finished.
    ControllerFinished { action: &'static str, terminal: bool, succeeded: bool, detail: String },
    /// The answer to an attempt to take the sweep lock.
    SweepLock { purpose: SweepUse, taken: bool },
}

/// What the cross-process sweep lock is wanted for.
#[derive(Clone, Copy, Debug, PartialEq, Eq, Structural)]
pub enum SweepUse {
    /// The upgrade at the window's launch; the repair takes its place where the
    /// lock is held elsewhere.
    Launch,
    /// An upgrade later on.
    Upgrade,
    /// The repair sweep.
    Repair,
}

/// Something to do.
#[derive(Clone, Debug, PartialEq, Eq)]
pub enum Effect {
    /// Run the controller with these arguments; answer `ControllerFinished`.
    Controller { action: &'static str, terminal: bool, arguments: Vec<String> },
    /// Read the state; answer `StateLoaded`.
    Refresh,
    /// Wait for the next external change; answer `ExternalStateChanged`.
    ArmStateWatch,
    /// Start the listener for external changes.
    StartStateWatch,
    /// Read the state; answer `StateRefreshed`.
    ReadExternalState,
    /// Mirror the settings and start the broker; answer `BrokerProbed`.
    ProbeBroker,
    /// Show the folder picker; answer `FolderPicked`.
    PickFolder,
    /// Open the WSL root; answer `ShellOpenFinished`.
    OpenWslRoot,
    /// Open the Store page; answer `ShellOpenFinished`.
    OpenStorePage,
    /// Check for updates, past the daily cadence where it is forced; answer
    /// `UpdateCheckFinished`.
    CheckForUpdates { force: bool },
    /// Install the update; answer `UpdateInstallFinished`.
    InstallUpdate,
    /// Repair under the sweep lock; answer `RepairFinished`.
    Repair,
    /// Run the launch repair under the lock that is held; answer
    /// `LaunchSweepFinished`.
    LaunchRepair,
    /// Store the switch; answer `AutoUpdateFinished`.
    SetAutoUpdate(bool),
    /// Clear the recorded update notice.
    DismissUpdate,
    /// Close the window.
    RequestClose,
    /// Try to take the sweep lock, and answer `SweepLock` before anything else.
    AcquireSweepLock(SweepUse),
    ReleaseSweepLock,
}

/// An effect as plain text.
pub enum EffectText {
    Controller { action: Seq<char>, terminal: bool, arguments: Seq<Seq<char>> },
    Refresh,
    ArmStateWatch,
    StartStateWatch,
    ReadExternalState,
    ProbeBroker,
    PickFolder,
    OpenWslRoot,
    OpenStorePage,
    CheckForUpdates { force: bool },
    InstallUpdate,
    Repair,
    LaunchRepair,
    SetAutoUpdate(bool),
    DismissUpdate,
    RequestClose,
    AcquireSweepLock(SweepUse),
    ReleaseSweepLock,
}

impl View for Effect {
    type V = EffectText;

    open spec fn view(&self) -> EffectText {
        match self {
            Effect::Controller { action, terminal, arguments } => EffectText::Controller {
                action: action@,
                terminal: *terminal,
                arguments: strings_text(arguments@),
            },
            Effect::Refresh => EffectText::Refresh,
            Effect::ArmStateWatch => EffectText::ArmStateWatch,
            Effect::StartStateWatch => EffectText::StartStateWatch,
            Effect::ReadExternalState => EffectText::ReadExternalState,
            Effect::ProbeBroker => EffectText::ProbeBroker,
            Effect::PickFolder => EffectText::PickFolder,
            Effect::OpenWslRoot => EffectText::OpenWslRoot,
            Effect::OpenStorePage => EffectText::OpenStorePage,
            Effect::CheckForUpdates { force } => EffectText::CheckForUpdates { force: *force },
            Effect::InstallUpdate => EffectText::InstallUpdate,
            Effect::Repair => EffectText::Repair,
            Effect::LaunchRepair => EffectText::LaunchRepair,
            Effect::SetAutoUpdate(enabled) => EffectText::SetAutoUpdate(*enabled),
            Effect::DismissUpdate => EffectText::DismissUpdate,
            Effect::RequestClose => EffectText::RequestClose,
            Effect::AcquireSweepLock(purpose) => EffectText::AcquireSweepLock(*purpose),
            Effect::ReleaseSweepLock => EffectText::ReleaseSweepLock,
        }
    }
}

/// Some effects as plain text.
pub open spec fn effects_text(effects: Seq<Effect>) -> Seq<EffectText> {
    effects.map_values(|effect: Effect| effect@)
}

// ---------------------------------------------------------------------------
// The model
// ---------------------------------------------------------------------------

/// The automatic adapter upgrade in flight: one controller step per adapter, one at
/// a time.
#[derive(Clone, Debug, PartialEq, Eq)]
pub struct Upgrade {
    /// The adapter being upgraded now.
    pub current: Integration,
    /// Adapters still waiting, popped from the back.
    pub queue: Vec<Integration>,
    /// Adapters whose step succeeded.
    pub done: Vec<Integration>,
    /// At least one step failed.
    pub failed: bool,
}

/// An upgrade as plain values.
pub struct UpgradeText {
    pub current: Integration,
    pub queue: Seq<Integration>,
    pub done: Seq<Integration>,
    pub failed: bool,
}

impl View for Upgrade {
    type V = UpgradeText;

    open spec fn view(&self) -> UpgradeText {
        UpgradeText {
            current: self.current,
            queue: self.queue@,
            done: self.done@,
            failed: self.failed,
        }
    }
}

pub open spec fn upgrade_in(upgrade: Option<Upgrade>) -> Option<UpgradeText> {
    match upgrade {
        Some(upgrade) => Some(upgrade@),
        None => None,
    }
}

pub struct SettingsModel {
    pub section: Section,
    pub pane_open: bool,
    pub dark: bool,
    pub state: State,
    /// The draft of the custom root; committed only by Apply.
    pub root_draft: String,
    /// The folder radio is selected but no root is stored yet.
    pub folder_selected: bool,
    /// The current notice is the update-available one: dismissing it also clears
    /// what was recorded.
    pub notice_is_update: bool,
    pub notice: Option<Notice>,
    /// The phrase of the invocation in flight. Every control that changes state is
    /// disabled while it is set.
    pub pending: Option<&'static str>,
    pub upgrade: Option<Upgrade>,
    /// An upgrade has already been started in this process.
    pub upgrade_attempted: bool,
    /// The one-shot repair sweep has been started.
    pub repair_started: bool,
    /// This process holds the cross-process sweep lock.
    pub sweep_held: bool,
    pub external_reads: ReadCoalescer,
}

/// The model as plain text.
pub struct ModelText {
    pub section: Section,
    pub pane_open: bool,
    pub dark: bool,
    pub state: StateText,
    pub root_draft: Seq<char>,
    pub folder_selected: bool,
    pub notice_is_update: bool,
    pub notice: Option<NoticeText>,
    pub pending: Option<Seq<char>>,
    pub upgrade: Option<UpgradeText>,
    pub upgrade_attempted: bool,
    pub repair_started: bool,
    pub sweep_held: bool,
    /// Whether an external read runs, and whether another is owed.
    pub reading: bool,
    pub owed: bool,
}

/// The model's fields as plain text.
#[verifier::opaque]
pub open spec fn model_text(model: SettingsModel) -> ModelText {
    ModelText {
        section: model.section,
        pane_open: model.pane_open,
        dark: model.dark,
        state: model.state@,
        root_draft: model.root_draft@,
        folder_selected: model.folder_selected,
        notice_is_update: model.notice_is_update,
        notice: notice_in(model.notice),
        pending: text_in(model.pending),
        upgrade: upgrade_in(model.upgrade),
        upgrade_attempted: model.upgrade_attempted,
        repair_started: model.repair_started,
        sweep_held: model.sweep_held,
        reading: model.external_reads.reading(),
        owed: model.external_reads.owes(),
    }
}

impl View for SettingsModel {
    type V = ModelText;

    open spec fn view(&self) -> ModelText {
        model_text(*self)
    }
}

// ---------------------------------------------------------------------------
// What messages mean
// ---------------------------------------------------------------------------

/// A model and the effects it asks for.
pub type Turn = (ModelText, Seq<EffectText>);

/// Nothing is asked for.
pub open spec fn quiet(model: ModelText) -> Turn {
    (model, Seq::empty())
}

/// One effect is asked for.
pub open spec fn asking(model: ModelText, effect: EffectText) -> Turn {
    (model, seq![effect])
}

/// A turn with one more effect.
pub open spec fn and_then_ask(turn: Turn, effect: EffectText) -> Turn {
    (turn.0, turn.1.push(effect))
}

/// An invocation of the controller starts.
pub open spec fn controlling(
    model: ModelText,
    action: Seq<char>,
    terminal: bool,
    arguments: Seq<Seq<char>>,
) -> Turn {
    asking(
        ModelText { pending: Some(action), ..model },
        EffectText::Controller { action, terminal, arguments },
    )
}

/// One step of the adapter upgrade starts.
pub open spec fn upgrade_step(model: ModelText, integration: Integration) -> Turn {
    controlling(
        model,
        UPGRADE_ACTION@,
        true,
        seq!["integration"@, integration.id_text(), "enable"@],
    )
}

/// The upgrade starts if an installed adapter is outdated, nothing is in flight, and
/// it was not tried before: the sweep lock is asked for.
pub open spec fn upgrading(model: ModelText, purpose: SweepUse) -> Turn {
    if model.upgrade_attempted || model.upgrade is Some || model.pending is Some || outdated_in(
        model.state.adapters,
    ).len() == 0 {
        quiet(model)
    } else {
        asking(
            ModelText { upgrade_attempted: true, ..model },
            EffectText::AcquireSweepLock(purpose),
        )
    }
}

/// The upgrade of the outdated adapters, the first of them now and the rest in page
/// order behind it.
pub open spec fn started_upgrade(outdated: Seq<Integration>) -> UpgradeText {
    UpgradeText {
        current: outdated[0],
        queue: outdated.skip(1).reverse(),
        done: Seq::empty(),
        failed: false,
    }
}

/// The repair sweep starts, once: under the lock that is held, or after asking for
/// it.
pub open spec fn repairing(model: ModelText) -> Turn {
    if model.repair_started {
        quiet(model)
    } else if model.sweep_held {
        asking(ModelText { repair_started: true, ..model }, EffectText::LaunchRepair)
    } else {
        asking(
            ModelText { repair_started: true, ..model },
            EffectText::AcquireSweepLock(SweepUse::Repair),
        )
    }
}

/// The answer to an attempt to take the sweep lock. Where somebody else holds it,
/// that process is doing the work.
#[verifier::opaque]
pub open spec fn sweep_answer(model: ModelText, purpose: SweepUse, taken: bool) -> Turn {
    let held = ModelText { sweep_held: true, ..model };
    let outdated = outdated_in(model.state.adapters);
    match purpose {
        SweepUse::Repair => if taken {
            asking(held, EffectText::LaunchRepair)
        } else {
            quiet(model)
        },
        SweepUse::Upgrade => if taken && outdated.len() > 0 {
            upgrade_step(
                ModelText { upgrade: Some(started_upgrade(outdated)), ..held },
                outdated[0],
            )
        } else {
            quiet(
                if taken {
                    held
                } else {
                    model
                },
            )
        },
        SweepUse::Launch => if taken && outdated.len() > 0 {
            upgrade_step(
                ModelText { upgrade: Some(started_upgrade(outdated)), ..held },
                outdated[0],
            )
        } else {
            repairing(
                if taken {
                    held
                } else {
                    model
                },
            )
        },
    }
}

/// Some names with `, ` between each two.
pub open spec fn names_listed(done: Seq<Integration>) -> Seq<char>
    decreases done.len(),
{
    if done.len() == 0 {
        Seq::empty()
    } else if done.len() == 1 {
        done[0].display_text()
    } else {
        names_listed(done.drop_last()) + ", "@ + done.last().display_text()
    }
}

/// What a drained upgrade reports.
pub open spec fn upgrade_notice(done: Seq<Integration>, failed: bool) -> NoticeText {
    if failed {
        notice_of(
            InfoBarSeverity::Error,
            "Some terminal integrations could not be updated"@,
            "Turn the affected integration off and on again on the Terminals page, or press Repair integrations."@,
        )
    } else {
        notice_of(
            InfoBarSeverity::Success,
            "Terminal integrations updated"@,
            names_listed(done) + (if done.len() == 1 {
                " is now on "@
            } else {
                " are now on "@
            }) + FSW_VERSION@,
        )
    }
}

/// One step of the upgrade finished: the next one starts, or the whole upgrade is
/// reported once and the repair sweep follows.
#[verifier::opaque]
pub open spec fn upgrade_advanced(model: ModelText, succeeded: bool) -> Turn {
    match model.upgrade {
        None => quiet(model),
        Some(upgrade) => {
            let done = if succeeded {
                upgrade.done.push(upgrade.current)
            } else {
                upgrade.done
            };
            let failed = upgrade.failed || !succeeded;
            if upgrade.queue.len() > 0 {
                let next = upgrade.queue.last();
                upgrade_step(
                    ModelText {
                        upgrade: Some(
                            UpgradeText {
                                current: next,
                                queue: upgrade.queue.drop_last(),
                                done,
                                failed,
                            },
                        ),
                        ..model
                    },
                    next,
                )
            } else {
                and_then_ask(
                    repairing(
                        ModelText {
                            upgrade: None,
                            notice: Some(upgrade_notice(done, failed)),
                            notice_is_update: false,
                            ..model
                        },
                    ),
                    EffectText::Refresh,
                )
            }
        },
    }
}

/// The notice that reports an action. Only success and error are ever used. An
/// actionable failure's own explanation is shown.
pub open spec fn result_notice(
    succeeded: bool,
    action: Seq<char>,
    terminal: bool,
    detail: Seq<char>,
) -> NoticeText {
    if succeeded {
        notice_of(
            InfoBarSeverity::Success,
            "Updated"@,
            if terminal {
                action + ". Reopen affected terminals."@
            } else {
                action
            },
        )
    } else {
        notice_of(
            InfoBarSeverity::Error,
            "Could not update integration"@,
            if trimmed(detail).len() == 0 {
                action + " failed. Existing settings were left in place."@
            } else {
                (action + " failed. Existing settings were left in place."@).push(' ') + trimmed(
                    detail,
                )
            },
        )
    }
}

/// The model with the notice that reports an action.
pub open spec fn told(
    model: ModelText,
    succeeded: bool,
    action: Seq<char>,
    terminal: bool,
    detail: Seq<char>,
) -> ModelText {
    ModelText {
        notice: Some(result_notice(succeeded, action, terminal, detail)),
        notice_is_update: false,
        ..model
    }
}

/// Whether the mode radios show this mode already: a folder choice, stored or
/// pending, outranks both.
pub open spec fn shows_mode(model: ModelText, list: bool) -> bool {
    model.state.is_list_mode() == list && model.state.root is None && !model.folder_selected
}

/// The mode radio was checked. Unchecking is the echo of a sibling, and re-checking
/// the active mode is no change.
#[verifier::opaque]
pub open spec fn mode_checked(model: ModelText, checked: bool, list: bool) -> Turn {
    if !checked || shows_mode(model, list) {
        quiet(model)
    } else {
        controlling(
            ModelText { folder_selected: false, ..model },
            if list {
                "Bare slash shows all distributions"@
            } else {
                "Bare slash opens the default distribution"@
            },
            false,
            seq![
                "bare-slash"@,
                if list {
                    "list"@
                } else {
                    "default"@
                },
            ],
        )
    }
}

/// A folder was chosen for the root.
pub open spec fn root_chosen(model: ModelText, path: Seq<char>) -> Turn {
    controlling(model, ROOT_ACTION@, false, seq!["bare-slash"@, "root"@, path])
}

/// The draft root is applied.
#[verifier::opaque]
pub open spec fn root_applied(model: ModelText) -> Turn {
    let candidate = trimmed(model.root_draft);
    if model.state.root == Some(candidate) {
        quiet(model)
    } else if !is_windows_root(candidate) {
        quiet(
            ModelText {
                notice: Some(
                    notice_of(
                        InfoBarSeverity::Error,
                        "Could not set the folder root"@,
                        "Use an absolute path like C:\\code or \\\\wsl.localhost\\Ubuntu\\home\\me."@,
                    ),
                ),
                notice_is_update: false,
                ..model
            },
        )
    } else {
        root_chosen(model, candidate)
    }
}

/// The folder picker closed.
#[verifier::opaque]
pub open spec fn folder_picked(model: ModelText, path: Option<Seq<char>>) -> Turn {
    match path {
        None => quiet(model),
        Some(path) => {
            let chosen = ModelText { root_draft: path, folder_selected: true, ..model };
            if !is_windows_root(path) || model.state.root == Some(path) {
                quiet(chosen)
            } else {
                root_chosen(chosen, path)
            }
        },
    }
}

/// A distribution was selected: item 0 follows the Windows default. A cleared
/// selection is the control's own reset, never a choice.
#[verifier::opaque]
pub open spec fn distribution_selected(model: ModelText, index: Option<usize>) -> Turn {
    match index {
        None => quiet(model),
        Some(index) => if index == model.state.distribution_index() || index
            > model.state.distributions.len() {
            quiet(model)
        } else {
            controlling(
                model,
                "Bare slash default updated"@,
                false,
                if index > 0 {
                    seq!["bare-slash"@, "default"@, model.state.distributions[index - 1]]
                } else {
                    seq!["bare-slash"@, "default"@]
                },
            )
        },
    }
}

/// An integration was switched.
#[verifier::opaque]
pub open spec fn integration_toggled(model: ModelText, integration: Integration, enabled: bool) -> Turn {
    if enabled == model.state.has(integration) {
        quiet(model)
    } else {
        controlling(
            model,
            integration.action_text(enabled),
            integration != Integration::Windows,
            seq![
                "integration"@,
                integration.id_text(),
                if enabled {
                    "enable"@
                } else {
                    "disable"@
                },
            ],
        )
    }
}

/// The notice of a release that is ready.
pub open spec fn ready_notice(tag: Seq<char>, store_flavor: bool) -> NoticeText {
    notice_of(
        InfoBarSeverity::Informational,
        "Update available"@,
        "Version "@ + without_lower_v(tag) + (if store_flavor {
            " is available in the Microsoft Store. Install it now, or let the Store install it on its own schedule."@
        } else {
            " was downloaded. It applies after you sign out and back in, or restart Forward Slash Windows now."@
        }),
    )
}

/// An update check finished. A release that is ready is always announced; the rest
/// is silent unless the user asked.
#[verifier::opaque]
pub open spec fn check_finished(model: ModelText, outcome: OutcomeText, explicit: bool) -> Turn {
    let freed = if explicit {
        ModelText { pending: None, ..model }
    } else {
        model
    };
    let shown = match outcome {
        OutcomeText::Ready(tag) => ModelText {
            notice: Some(ready_notice(tag, model.state.store_flavor)),
            notice_is_update: true,
            ..freed
        },
        OutcomeText::UpToDate | OutcomeText::NotDue => if explicit {
            ModelText {
                notice: Some(
                    notice_of(InfoBarSeverity::Success, "Up to date"@, latest_version_text()),
                ),
                notice_is_update: false,
                ..freed
            }
        } else {
            freed
        },
        OutcomeText::Unavailable => if explicit {
            ModelText {
                notice: Some(
                    notice_of(
                        InfoBarSeverity::Informational,
                        "Could not check for updates"@,
                        "The update service could not be reached. The check runs again on its own."@,
                    ),
                ),
                notice_is_update: false,
                ..freed
            }
        } else {
            freed
        },
        OutcomeText::VerificationFailed(_) => freed,
    };
    asking(shown, EffectText::Refresh)
}

/// An install finished: it took over the shutdown, or it leaves a notice.
#[verifier::opaque]
pub open spec fn install_finished(model: ModelText, code: i32, stderr: Seq<char>) -> Turn {
    let freed = ModelText { pending: None, ..model };
    match install_meaning(code, stderr) {
        None => asking(freed, EffectText::RequestClose),
        Some(notice) => asking(
            ModelText { notice: Some(notice), notice_is_update: false, ..freed },
            EffectText::Refresh,
        ),
    }
}

/// What a manual repair reports.
pub open spec fn repair_notice(outcome: RepairOutcome) -> NoticeText {
    match outcome {
        RepairOutcome::Repaired => notice_of(
            InfoBarSeverity::Success,
            "Integrations repaired"@,
            "Terminal integrations were checked and brought up to date. Reopen affected terminals."@,
        ),
        RepairOutcome::Busy => notice_of(
            InfoBarSeverity::Informational,
            "Integrations are already being updated"@,
            "A background update of the terminal integrations is running. Try again in a moment."@,
        ),
        RepairOutcome::Failed(detail) => notice_of(
            InfoBarSeverity::Error,
            "Could not repair integrations"@,
            if trimmed(detail@).len() == 0 {
                "The integrations could not be repaired."@
            } else {
                trimmed(detail@)
            },
        ),
    }
}

/// An action that runs alone starts, unless something is in flight.
#[verifier::opaque]
pub open spec fn exclusive(model: ModelText, action: Seq<char>, effect: EffectText) -> Turn {
    if model.pending is Some {
        quiet(model)
    } else {
        asking(ModelText { pending: Some(action), ..model }, effect)
    }
}

/// An invocation of the controller finished.
#[verifier::opaque]
pub open spec fn controller_finished(
    model: ModelText,
    action: Seq<char>,
    terminal: bool,
    succeeded: bool,
    detail: Seq<char>,
) -> Turn {
    let freed = ModelText { pending: None, ..model };
    if action == UPGRADE_ACTION@ {
        upgrade_advanced(freed, succeeded)
    } else {
        let settled = if succeeded && action == ROOT_ACTION@ {
            ModelText { folder_selected: false, ..freed }
        } else {
            freed
        };
        asking(told(settled, succeeded, action, terminal, detail), EffectText::Refresh)
    }
}

/// An external read came back: a wake in between starts one more, and a state that
/// shows the same changes nothing.
#[verifier::opaque]
pub open spec fn state_refreshed(model: ModelText, state: StateText) -> Turn {
    let counted = ModelText { reading: model.owed, owed: false, ..model };
    let rest = if state == model.state {
        quiet(counted)
    } else {
        upgrading(ModelText { state, ..counted }, SweepUse::Upgrade)
    };
    if model.owed {
        (rest.0, seq![EffectText::ReadExternalState] + rest.1)
    } else {
        rest
    }
}

/// The launch sweep is over: the lock is let go, and the state it read is taken.
#[verifier::opaque]
pub open spec fn launch_sweep_finished(model: ModelText, state: StateText) -> Turn {
    let rest = upgrading(ModelText { state, sweep_held: false, ..model }, SweepUse::Upgrade);
    if model.sweep_held {
        (rest.0, seq![EffectText::ReleaseSweepLock] + rest.1)
    } else {
        rest
    }
}

/// Something else changed the state, or the poll fired: the watch is armed again,
/// and a read starts unless one runs or the poll found the window out of sight.
#[verifier::opaque]
pub open spec fn external_changed(model: ModelText, wake: Wake, visible: bool) -> Turn {
    if wake != Wake::Broadcast && !visible {
        asking(model, EffectText::ArmStateWatch)
    } else if model.reading {
        asking(ModelText { owed: true, ..model }, EffectText::ArmStateWatch)
    } else {
        (
            ModelText { reading: true, ..model },
            seq![EffectText::ArmStateWatch, EffectText::ReadExternalState],
        )
    }
}

/// The model at launch and the effects it asks for: a repair sweep where no upgrade
/// is wanted.
pub open spec fn created(section: Section, state: StateText) -> Turn {
    let model = ModelText {
        section,
        pane_open: false,
        dark: true,
        state,
        root_draft: Seq::empty(),
        folder_selected: false,
        notice_is_update: false,
        notice: None,
        pending: None,
        upgrade: None,
        upgrade_attempted: false,
        repair_started: false,
        sweep_held: false,
        reading: false,
        owed: false,
    };
    let launch = if outdated_in(state.adapters).len() > 0 {
        upgrading(model, SweepUse::Launch)
    } else {
        repairing(model)
    };
    let check = if state.packaged && state.auto_update {
        seq![EffectText::CheckForUpdates { force: false }]
    } else {
        Seq::empty()
    };
    (
        launch.0,
        seq![EffectText::ProbeBroker] + check + seq![
            EffectText::StartStateWatch,
            EffectText::ArmStateWatch,
        ] + launch.1,
    )
}

/// A page was selected. A cleared selection is never a user's choice.
#[verifier::opaque]
pub open spec fn navigated(model: ModelText, tag: Option<Seq<char>>) -> Turn {
    match tag {
        None => quiet(model),
        Some(tag) => {
            let section = section_of(tag);
            if section == model.section {
                quiet(model)
            } else {
                asking(ModelText { section, ..model }, EffectText::Refresh)
            }
        },
    }
}

/// The global switch was moved. Where it already shows what is stored, nothing
/// changed.
#[verifier::opaque]
pub open spec fn globally_toggled(model: ModelText, enabled: bool) -> Turn {
    if enabled != model.state.disabled {
        quiet(model)
    } else if enabled {
        controlling(model, "Resolution enabled"@, false, seq!["enable"@])
    } else {
        controlling(model, "Resolution disabled"@, false, seq!["disable"@])
    }
}

/// The folder radio was checked: this only reveals the folder controls.
#[verifier::opaque]
pub open spec fn folder_checked(model: ModelText, checked: bool) -> Turn {
    if !checked || model.folder_selected || model.state.root is Some {
        quiet(model)
    } else {
        asking(ModelText { folder_selected: true, ..model }, EffectText::Refresh)
    }
}

/// The automatic updates switch was moved.
#[verifier::opaque]
pub open spec fn auto_update_switched(model: ModelText, enabled: bool) -> Turn {
    if enabled == model.state.auto_update {
        quiet(model)
    } else {
        exclusive(model, AUTO_UPDATE_ACTION@, EffectText::SetAutoUpdate(enabled))
    }
}

/// The switch was stored, or could not be.
#[verifier::opaque]
pub open spec fn auto_update_finished(model: ModelText, enabled: bool, succeeded: bool) -> Turn {
    asking(
        told(
            ModelText { pending: None, ..model },
            succeeded,
            if enabled {
                "Automatic updates enabled"@
            } else {
                "Automatic updates disabled"@
            },
            false,
            ""@,
        ),
        EffectText::Refresh,
    )
}

/// Something was opened, or could not be.
#[verifier::opaque]
pub open spec fn shell_open_finished(model: ModelText, action: Seq<char>, succeeded: bool) -> Turn {
    let freed = ModelText { pending: None, ..model };
    quiet(
        if succeeded {
            freed
        } else {
            told(freed, false, action, false, ""@)
        },
    )
}

/// The user asked for a refresh.
#[verifier::opaque]
pub open spec fn status_refreshed(model: ModelText) -> Turn {
    asking(told(model, true, "Status refreshed"@, false, ""@), EffectText::Refresh)
}

/// The notice is dismissed. An update notice is recorded until a newer check
/// replaces it, so its dismissal clears that too.
#[verifier::opaque]
pub open spec fn notice_dismissed(model: ModelText) -> Turn {
    if model.notice_is_update {
        asking(
            ModelText { notice: None, notice_is_update: false, ..model },
            EffectText::DismissUpdate,
        )
    } else {
        quiet(ModelText { notice: None, ..model })
    }
}

/// A manual repair finished.
#[verifier::opaque]
pub open spec fn repair_finished(model: ModelText, outcome: RepairOutcome) -> Turn {
    asking(
        ModelText {
            pending: None,
            notice: Some(repair_notice(outcome)),
            notice_is_update: false,
            ..model
        },
        EffectText::Refresh,
    )
}

/// A state was read.
#[verifier::opaque]
pub open spec fn state_loaded(model: ModelText, state: StateText) -> Turn {
    upgrading(ModelText { state, ..model }, SweepUse::Upgrade)
}

/// What a message does to the model, and the effects it asks for.
pub open spec fn turn(model: ModelText, message: Msg) -> Turn {
    match message {
        Msg::Navigate(tag) => navigated(model, string_in(tag)),
        Msg::PaneOpenChanged(open) => quiet(ModelText { pane_open: open, ..model }),
        Msg::ColorSchemeChanged(dark) => quiet(ModelText { dark, ..model }),
        Msg::ToggleGlobal(enabled) => globally_toggled(model, enabled),
        Msg::BareSlashListChecked(checked) => mode_checked(model, checked, true),
        Msg::BareSlashDefaultChecked(checked) => mode_checked(model, checked, false),
        Msg::FolderRadioChecked(checked) => folder_checked(model, checked),
        Msg::RootTextChanged(text) => quiet(ModelText { root_draft: text@, ..model }),
        Msg::ApplyRoot => root_applied(model),
        Msg::BrowseRoot => asking(model, EffectText::PickFolder),
        Msg::FolderPicked(path) => folder_picked(model, string_in(path)),
        Msg::UpdateCheckFinished { outcome, explicit } => check_finished(model, outcome@, explicit),
        Msg::CheckForUpdates => exclusive(
            model,
            CHECK_ACTION@,
            EffectText::CheckForUpdates { force: true },
        ),
        Msg::SetAutoUpdate(enabled) => auto_update_switched(model, enabled),
        Msg::AutoUpdateFinished { enabled, succeeded } => auto_update_finished(
            model,
            enabled,
            succeeded,
        ),
        Msg::SelectDistribution(index) => distribution_selected(model, index),
        Msg::ToggleIntegration(integration, enabled) => integration_toggled(
            model,
            integration,
            enabled,
        ),
        Msg::OpenWslRoot => exclusive(model, OPEN_WSL_ACTION@, EffectText::OpenWslRoot),
        Msg::ShellOpenFinished { action, succeeded } => shell_open_finished(
            model,
            action@,
            succeeded,
        ),
        Msg::RefreshStatus => status_refreshed(model),
        Msg::DismissNotice => notice_dismissed(model),
        Msg::InstallUpdate => exclusive(model, INSTALL_ACTION@, EffectText::InstallUpdate),
        Msg::UpdateInstallFinished { code, stderr } => install_finished(model, code, stderr@),
        Msg::OpenStorePage => exclusive(model, OPEN_STORE_ACTION@, EffectText::OpenStorePage),
        Msg::RepairIntegrations => exclusive(model, REPAIR_ACTION@, EffectText::Repair),
        Msg::RepairFinished(outcome) => repair_finished(model, outcome),
        Msg::StateLoaded(state) => state_loaded(model, state@),
        Msg::LaunchSweepFinished(state) => launch_sweep_finished(model, state@),
        Msg::ExternalStateChanged { wake, visible } => external_changed(model, wake, visible),
        Msg::StateRefreshed(state) => state_refreshed(model, state@),
        Msg::BrokerProbed => asking(model, EffectText::Refresh),
        Msg::ControllerFinished { action, terminal, succeeded, detail } => controller_finished(
            model,
            action@,
            terminal,
            succeeded,
            detail@,
        ),
        Msg::SweepLock { purpose, taken } => sweep_answer(model, purpose, taken),
    }
}

// ---------------------------------------------------------------------------
// Handling a message
// ---------------------------------------------------------------------------

fn nothing() -> (r: Vec<Effect>)
    ensures
        effects_text(r@) == Seq::<EffectText>::empty(),
{
    let effects: Vec<Effect> = Vec::new();
    assert(effects_text(effects@) =~= Seq::<EffectText>::empty());
    effects
}

fn one(effect: Effect) -> (r: Vec<Effect>)
    ensures
        effects_text(r@) == seq![effect@],
{
    let effects = vec![effect];
    assert(effects_text(effects@) =~= seq![effect@]);
    effects
}

fn add_effect(effects: &mut Vec<Effect>, effect: Effect)
    ensures
        effects_text(final(effects)@) == effects_text(old(effects)@).push(effect@),
{
    effects.push(effect);
    assert(effects_text(effects@) =~= effects_text(old(effects)@).push(effect@));
}

fn joined(first: Effect, rest: Vec<Effect>) -> (r: Vec<Effect>)
    ensures
        effects_text(r@) == seq![first@] + effects_text(rest@),
{
    let mut effects = vec![first];
    let mut rest = rest;
    let ghost before = rest@;
    effects.append(&mut rest);
    assert(effects@ =~= seq![first] + before);
    assert(effects_text(effects@) =~= seq![first@] + effects_text(before));
    effects
}

fn one_word(a: &str) -> (r: Vec<String>)
    ensures
        strings_text(r@) == seq![a@],
{
    let words = vec![a.to_owned()];
    assert(strings_text(words@) =~= seq![a@]);
    words
}

fn two_words(a: &str, b: &str) -> (r: Vec<String>)
    ensures
        strings_text(r@) == seq![a@, b@],
{
    let words = vec![a.to_owned(), b.to_owned()];
    assert(strings_text(words@) =~= seq![a@, b@]);
    words
}

fn three_words(a: &str, b: &str, c: &str) -> (r: Vec<String>)
    ensures
        strings_text(r@) == seq![a@, b@, c@],
{
    let words = vec![a.to_owned(), b.to_owned(), c.to_owned()];
    assert(strings_text(words@) =~= seq![a@, b@, c@]);
    words
}

/// Some names with `, ` between each two.
fn list_names(done: &[Integration]) -> (r: String)
    ensures
        r@ == names_listed(done@),
{
    let n: usize = done.len();
    let mut text: String = String::new();
    assert(text@ =~= names_listed(done@.take(0)));
    for i in 0..n
        invariant
            n == done@.len(),
            text@ == names_listed(done@.take(i as int)),
    {
        let ghost next = done@.take(i + 1);
        assert(next.drop_last() =~= done@.take(i as int));
        assert(next.last() == done@[i as int]);
        if i > 0 {
            text.push_str(", ");
        }
        let ghost before = text@;
        text.push_str(done[i].display_name());
        proof {
            if i == 0 {
                assert(next.len() == 1);
                assert(text@ =~= done@[0].display_text());
            }
        }
    }
    assert(done@.take(n as int) =~= done@);
    text
}

fn notice_for_upgrade(done: &[Integration], failed: bool) -> (r: Notice)
    ensures
        r@ == upgrade_notice(done@, failed),
{
    if failed {
        return Notice::new(
            InfoBarSeverity::Error,
            "Some terminal integrations could not be updated",
            "Turn the affected integration off and on again on the Terminals page, or press Repair integrations.".to_owned(),
        );
    }
    let mut message = list_names(done);
    message.push_str(
        if done.len() == 1 {
            " is now on "
        } else {
            " are now on "
        },
    );
    message.push_str(FSW_VERSION);
    Notice::new(InfoBarSeverity::Success, "Terminal integrations updated", message)
}

fn notice_for_result(succeeded: bool, action: &str, terminal: bool, detail: &str) -> (r: Notice)
    ensures
        r@ == result_notice(succeeded, action@, terminal, detail@),
{
    let mut message: String = action.to_owned();
    if succeeded {
        if terminal {
            message.push_str(". Reopen affected terminals.");
        }
        return Notice::new(InfoBarSeverity::Success, "Updated", message);
    }
    message.push_str(" failed. Existing settings were left in place.");
    let chars = chars_of(detail);
    let detail = trim(chars.as_slice());
    if detail.len() > 0 {
        message.push(' ');
        push_chars(&mut message, detail);
    }
    Notice::new(InfoBarSeverity::Error, "Could not update integration", message)
}

fn notice_for_ready(tag: &str, store_flavor: bool) -> (r: Notice)
    ensures
        r@ == ready_notice(tag@, store_flavor),
{
    let short = short_version(tag);
    let mut message: String = "Version ".to_owned();
    message.push_str(short.as_str());
    message.push_str(
        if store_flavor {
            " is available in the Microsoft Store. Install it now, or let the Store install it on its own schedule."
        } else {
            " was downloaded. It applies after you sign out and back in, or restart Forward Slash Windows now."
        },
    );
    Notice::new(InfoBarSeverity::Informational, "Update available", message)
}

fn notice_for_repair(outcome: RepairOutcome) -> (r: Notice)
    ensures
        r@ == repair_notice(outcome),
{
    match outcome {
        RepairOutcome::Repaired => Notice::new(
            InfoBarSeverity::Success,
            "Integrations repaired",
            "Terminal integrations were checked and brought up to date. Reopen affected terminals.".to_owned(),
        ),
        RepairOutcome::Busy => Notice::new(
            InfoBarSeverity::Informational,
            "Integrations are already being updated",
            "A background update of the terminal integrations is running. Try again in a moment.".to_owned(),
        ),
        RepairOutcome::Failed(detail) => {
            let chars = chars_of(detail.as_str());
            let detail = trim(chars.as_slice());
            Notice::new(
                InfoBarSeverity::Error,
                "Could not repair integrations",
                if detail.len() == 0 {
                    "The integrations could not be repaired.".to_owned()
                } else {
                    string_of(detail)
                },
            )
        },
    }
}

impl SettingsModel {
    /// Whether controls that change state accept input right now.
    pub fn controls_enabled(&self) -> (r: bool)
        ensures
            r == (self@.pending is None),
    {
        proof {
            reveal(model_text);
        }
        self.pending.is_none()
    }

    /// Starts an invocation of the controller.
    fn start_controller(
        &mut self,
        action: &'static str,
        terminal: bool,
        arguments: Vec<String>,
    ) -> (r: Vec<Effect>)
        ensures
            (final(self)@, effects_text(r@)) == controlling(
                old(self)@,
                action@,
                terminal,
                strings_text(arguments@),
            ),
    {
        proof {
            reveal(model_text);
        }
        self.pending = Some(action);
        one(Effect::Controller { action, terminal, arguments })
    }

    /// The single path for the report of an action.
    fn show_result(&mut self, succeeded: bool, action: &str, terminal: bool, detail: &str)
        ensures
            final(self)@ == told(old(self)@, succeeded, action@, terminal, detail@),
    {
        proof {
            reveal(model_text);
        }
        self.notice = Some(notice_for_result(succeeded, action, terminal, detail));
        self.notice_is_update = false;
    }

    /// Asks for the sweep lock if an installed adapter is outdated. An outdated
    /// payload is a bug to fix, not a decision to make.
    fn maybe_start_upgrade(&mut self, purpose: SweepUse) -> (r: Vec<Effect>)
        ensures
            (final(self)@, effects_text(r@)) == upgrading(old(self)@, purpose),
    {
        proof {
            reveal(model_text);
        }
        if self.upgrade_attempted || self.upgrade.is_some() || self.pending.is_some() {
            return nothing();
        }
        if self.state.outdated_adapters().len() == 0 {
            return nothing();
        }
        self.upgrade_attempted = true;
        one(Effect::AcquireSweepLock(purpose))
    }

    /// One enable per adapter is the whole upgrade: on an outdated marker it
    /// reinstalls the payload.
    fn start_upgrade_step(&mut self, integration: Integration) -> (r: Vec<Effect>)
        ensures
            (final(self)@, effects_text(r@)) == upgrade_step(old(self)@, integration),
    {
        self.start_controller(
            UPGRADE_ACTION,
            true,
            three_words("integration", integration.id(), "enable"),
        )
    }

    /// Starts the upgrade of the outdated adapters, in page order.
    fn start_upgrade(&mut self, outdated: Vec<Integration>) -> (r: Vec<Effect>)
        requires
            outdated@.len() > 0,
        ensures
            (final(self)@, effects_text(r@)) == upgrade_step(
                ModelText { upgrade: Some(started_upgrade(outdated@)), ..old(self)@ },
                outdated@[0],
            ),
    {
        proof {
            reveal(model_text);
        }
        let n: usize = outdated.len();
        let mut queue: Vec<Integration> = Vec::new();
        let mut i: usize = n;
        while i > 1
            invariant
                1 <= i <= n,
                n == outdated@.len(),
                queue@ == outdated@.skip(i as int).reverse(),
            decreases i,
        {
            i -= 1;
            queue.push(outdated[i]);
            assert(queue@ =~= outdated@.skip(i as int).reverse());
        }
        let current = outdated[0];
        let done: Vec<Integration> = Vec::new();
        assert(done@ =~= Seq::<Integration>::empty());
        self.upgrade = Some(Upgrade { current, queue, done, failed: false });
        self.start_upgrade_step(current)
    }

    /// Records one finished step and either starts the next or reports the whole
    /// upgrade once.
    fn advance_upgrade(&mut self, succeeded: bool) -> (r: Vec<Effect>)
        ensures
            (final(self)@, effects_text(r@)) == upgrade_advanced(old(self)@, succeeded),
    {
        proof {
            reveal(model_text);
            reveal(upgrade_advanced);
        }
        let mut taken: Option<Upgrade> = None;
        std::mem::swap(&mut self.upgrade, &mut taken);
        let mut upgrade = match taken {
            Some(upgrade) => upgrade,
            None => {
                return nothing();
            },
        };
        if succeeded {
            upgrade.done.push(upgrade.current);
        } else {
            upgrade.failed = true;
        }
        if let Some(next) = upgrade.queue.pop() {
            upgrade.current = next;
            self.upgrade = Some(upgrade);
            return self.start_upgrade_step(next);
        }
        self.notice = Some(notice_for_upgrade(upgrade.done.as_slice(), upgrade.failed));
        self.notice_is_update = false;
        let mut effects = self.start_repair_sweep();
        add_effect(&mut effects, Effect::Refresh);
        effects
    }

    /// Starts the repair sweep. Nothing happens after the first call.
    fn start_repair_sweep(&mut self) -> (r: Vec<Effect>)
        ensures
            (final(self)@, effects_text(r@)) == repairing(old(self)@),
    {
        proof {
            reveal(model_text);
        }
        if self.repair_started {
            return nothing();
        }
        self.repair_started = true;
        if self.sweep_held {
            return one(Effect::LaunchRepair);
        }
        one(Effect::AcquireSweepLock(SweepUse::Repair))
    }

    /// Goes on with what the sweep lock was wanted for.
    fn sweep_answered(&mut self, purpose: SweepUse, taken: bool) -> (r: Vec<Effect>)
        ensures
            (final(self)@, effects_text(r@)) == sweep_answer(old(self)@, purpose, taken),
    {
        proof {
            reveal(model_text);
            reveal(sweep_answer);
        }
        if taken {
            self.sweep_held = true;
        }
        if purpose == SweepUse::Repair {
            if taken {
                return one(Effect::LaunchRepair);
            }
            return nothing();
        }
        let outdated = self.state.outdated_adapters();
        if taken && outdated.len() > 0 {
            return self.start_upgrade(outdated);
        }
        if purpose == SweepUse::Launch {
            return self.start_repair_sweep();
        }
        nothing()
    }

    /// An action that runs alone starts, unless something is in flight.
    fn start_exclusive(&mut self, action: &'static str, effect: Effect) -> (r: Vec<Effect>)
        ensures
            (final(self)@, effects_text(r@)) == exclusive(old(self)@, action@, effect@),
    {
        proof {
            reveal(model_text);
            reveal(exclusive);
        }
        if self.pending.is_some() {
            return nothing();
        }
        self.pending = Some(action);
        one(effect)
    }

    fn check_mode(&mut self, checked: bool, list: bool) -> (r: Vec<Effect>)
        ensures
            (final(self)@, effects_text(r@)) == mode_checked(old(self)@, checked, list),
    {
        proof {
            reveal(model_text);
            reveal(mode_checked);
        }
        if !checked || (self.state.is_list_mode() == list && self.state.root.is_none()
            && !self.folder_selected) {
            return nothing();
        }
        self.folder_selected = false;
        if list {
            self.start_controller(
                "Bare slash shows all distributions",
                false,
                two_words("bare-slash", "list"),
            )
        } else {
            self.start_controller(
                "Bare slash opens the default distribution",
                false,
                two_words("bare-slash", "default"),
            )
        }
    }

    /// Whether this folder is the stored root.
    fn is_stored_root(&self, path: &str) -> (r: bool)
        ensures
            r == (self@.state.root == Some(path@)),
    {
        proof {
            reveal(model_text);
        }
        match &self.state.root {
            Some(root) => same(root.as_str(), path),
            None => false,
        }
    }

    fn apply_root(&mut self) -> (r: Vec<Effect>)
        ensures
            (final(self)@, effects_text(r@)) == root_applied(old(self)@),
    {
        proof {
            reveal(model_text);
            reveal(root_applied);
        }
        let chars = chars_of(self.root_draft.as_str());
        let candidate = string_of(trim(chars.as_slice()));
        if self.is_stored_root(candidate.as_str()) {
            return nothing();
        }
        if !is_valid_windows_root(candidate.as_str()) {
            self.notice = Some(
                Notice::new(
                    InfoBarSeverity::Error,
                    "Could not set the folder root",
                    "Use an absolute path like C:\\code or \\\\wsl.localhost\\Ubuntu\\home\\me.".to_owned(),
                ),
            );
            self.notice_is_update = false;
            return nothing();
        }
        self.start_controller(
            ROOT_ACTION,
            false,
            three_words("bare-slash", "root", candidate.as_str()),
        )
    }

    fn pick_folder(&mut self, path: Option<String>) -> (r: Vec<Effect>)
        ensures
            (final(self)@, effects_text(r@)) == folder_picked(old(self)@, string_in(path)),
    {
        proof {
            reveal(model_text);
            reveal(folder_picked);
        }
        let path = match path {
            Some(path) => path,
            None => {
                return nothing();
            },
        };
        self.root_draft = path.as_str().to_owned();
        self.folder_selected = true;
        if !is_valid_windows_root(path.as_str()) || self.is_stored_root(path.as_str()) {
            return nothing();
        }
        self.start_controller(ROOT_ACTION, false, three_words("bare-slash", "root", path.as_str()))
    }

    fn select_distribution(&mut self, index: Option<usize>) -> (r: Vec<Effect>)
        ensures
            (final(self)@, effects_text(r@)) == distribution_selected(old(self)@, index),
    {
        proof {
            reveal(model_text);
            reveal(distribution_selected);
        }
        let index: usize = match index {
            Some(index) => index,
            None => {
                return nothing();
            },
        };
        if index == self.state.distribution_index() {
            return nothing();
        }
        if index == 0 {
            return self.start_controller(
                "Bare slash default updated",
                false,
                two_words("bare-slash", "default"),
            );
        }
        if index > self.state.distributions.len() {
            return nothing();
        }
        let arguments = three_words(
            "bare-slash",
            "default",
            self.state.distributions[index - 1].as_str(),
        );
        self.start_controller("Bare slash default updated", false, arguments)
    }

    fn toggle_integration(&mut self, integration: Integration, enabled: bool) -> (r: Vec<Effect>)
        ensures
            (final(self)@, effects_text(r@)) == integration_toggled(
                old(self)@,
                integration,
                enabled,
            ),
    {
        proof {
            reveal(model_text);
            reveal(integration_toggled);
        }
        if enabled == self.state.installed(integration) {
            return nothing();
        }
        self.start_controller(
            integration.action(enabled),
            integration.is_terminal(),
            three_words(
                "integration",
                integration.id(),
                if enabled {
                    "enable"
                } else {
                    "disable"
                },
            ),
        )
    }

    fn finish_check(&mut self, outcome: UpdateOutcome, explicit: bool) -> (r: Vec<Effect>)
        ensures
            (final(self)@, effects_text(r@)) == check_finished(old(self)@, outcome@, explicit),
    {
        proof {
            reveal(model_text);
            reveal(check_finished);
        }
        if explicit {
            self.pending = None;
        }
        match outcome {
            UpdateOutcome::Ready(tag) => {
                self.notice = Some(notice_for_ready(tag.as_str(), self.state.store_flavor));
                self.notice_is_update = true;
            },
            UpdateOutcome::UpToDate | UpdateOutcome::NotDue => {
                if explicit {
                    self.notice = Some(
                        Notice::new(
                            InfoBarSeverity::Success,
                            "Up to date",
                            latest_version_message(),
                        ),
                    );
                    self.notice_is_update = false;
                }
            },
            UpdateOutcome::Unavailable => {
                if explicit {
                    self.notice = Some(
                        Notice::new(
                            InfoBarSeverity::Informational,
                            "Could not check for updates",
                            "The update service could not be reached. The check runs again on its own.".to_owned(),
                        ),
                    );
                    self.notice_is_update = false;
                }
            },
            UpdateOutcome::VerificationFailed(_) => {},
        }
        one(Effect::Refresh)
    }

    fn finish_install(&mut self, code: i32, stderr: &str) -> (r: Vec<Effect>)
        ensures
            (final(self)@, effects_text(r@)) == install_finished(old(self)@, code, stderr@),
    {
        proof {
            reveal(model_text);
            reveal(install_finished);
        }
        self.pending = None;
        match install_notice(code, stderr) {
            None => one(Effect::RequestClose),
            Some(notice) => {
                self.notice = Some(notice);
                self.notice_is_update = false;
                one(Effect::Refresh)
            },
        }
    }

    fn finish_controller(
        &mut self,
        action: &'static str,
        terminal: bool,
        succeeded: bool,
        detail: &str,
    ) -> (r: Vec<Effect>)
        ensures
            (final(self)@, effects_text(r@)) == controller_finished(
                old(self)@,
                action@,
                terminal,
                succeeded,
                detail@,
            ),
    {
        proof {
            reveal(controller_finished);
        }
        self.free();
        if same(action, UPGRADE_ACTION) {
            return self.advance_upgrade(succeeded);
        }
        if succeeded && same(action, ROOT_ACTION) {
            self.settle_folder();
        }
        self.show_result(succeeded, action, terminal, detail);
        one(Effect::Refresh)
    }

    fn external_change(&mut self, wake: Wake, visible: bool) -> (r: Vec<Effect>)
        ensures
            (final(self)@, effects_text(r@)) == external_changed(old(self)@, wake, visible),
    {
        proof {
            reveal(model_text);
            reveal(external_changed);
        }
        proof {
            reveal_with_fuel(after_wakes, 2);
        }
        let mut effects = one(Effect::ArmStateWatch);
        if should_read(wake, visible) && self.external_reads.wake() {
            add_effect(&mut effects, Effect::ReadExternalState);
            assert(effects_text(effects@) =~= seq![
                EffectText::ArmStateWatch,
                EffectText::ReadExternalState,
            ]);
        }
        effects
    }

    fn refresh_state(&mut self, state: State) -> (r: Vec<Effect>)
        ensures
            (final(self)@, effects_text(r@)) == state_refreshed(old(self)@, state@),
    {
        proof {
            reveal(model_text);
            reveal(state_refreshed);
        }
        let again = self.external_reads.finished();
        let rest = if state.shows_the_same(&self.state) {
            nothing()
        } else {
            self.state = state;
            self.maybe_start_upgrade(SweepUse::Upgrade)
        };
        if again {
            joined(Effect::ReadExternalState, rest)
        } else {
            rest
        }
    }

    fn finish_launch_sweep(&mut self, state: State) -> (r: Vec<Effect>)
        ensures
            (final(self)@, effects_text(r@)) == launch_sweep_finished(old(self)@, state@),
    {
        proof {
            reveal(model_text);
            reveal(launch_sweep_finished);
        }
        let held = self.sweep_held;
        self.sweep_held = false;
        self.state = state;
        let rest = self.maybe_start_upgrade(SweepUse::Upgrade);
        if held {
            joined(Effect::ReleaseSweepLock, rest)
        } else {
            rest
        }
    }

    fn navigate(&mut self, tag: Option<String>) -> (r: Vec<Effect>)
        ensures
            (final(self)@, effects_text(r@)) == navigated(old(self)@, string_in(tag)),
    {
        proof {
            reveal(model_text);
            reveal(navigated);
        }
        match tag {
            None => nothing(),
            Some(tag) => {
                let section = Section::from_tag(tag.as_str());
                if section == self.section {
                    return nothing();
                }
                self.section = section;
                one(Effect::Refresh)
            },
        }
    }

    fn toggle_global(&mut self, enabled: bool) -> (r: Vec<Effect>)
        ensures
            (final(self)@, effects_text(r@)) == globally_toggled(old(self)@, enabled),
    {
        proof {
            reveal(model_text);
            reveal(globally_toggled);
        }
        if enabled != self.state.disabled {
            return nothing();
        }
        if enabled {
            self.start_controller("Resolution enabled", false, one_word("enable"))
        } else {
            self.start_controller("Resolution disabled", false, one_word("disable"))
        }
    }

    fn check_folder_radio(&mut self, checked: bool) -> (r: Vec<Effect>)
        ensures
            (final(self)@, effects_text(r@)) == folder_checked(old(self)@, checked),
    {
        proof {
            reveal(model_text);
            reveal(folder_checked);
        }
        if !checked || self.folder_selected || self.state.root.is_some() {
            return nothing();
        }
        self.folder_selected = true;
        one(Effect::Refresh)
    }

    fn set_auto_update(&mut self, enabled: bool) -> (r: Vec<Effect>)
        ensures
            (final(self)@, effects_text(r@)) == auto_update_switched(old(self)@, enabled),
    {
        proof {
            reveal(model_text);
            reveal(auto_update_switched);
        }
        if enabled == self.state.auto_update {
            return nothing();
        }
        self.start_exclusive(AUTO_UPDATE_ACTION, Effect::SetAutoUpdate(enabled))
    }

    fn finish_auto_update(&mut self, enabled: bool, succeeded: bool) -> (r: Vec<Effect>)
        ensures
            (final(self)@, effects_text(r@)) == auto_update_finished(
                old(self)@,
                enabled,
                succeeded,
            ),
    {
        proof {
            reveal(model_text);
            reveal(auto_update_finished);
        }
        self.pending = None;
        let action = if enabled {
            "Automatic updates enabled"
        } else {
            "Automatic updates disabled"
        };
        self.show_result(succeeded, action, false, "");
        one(Effect::Refresh)
    }

    fn finish_shell_open(&mut self, action: &'static str, succeeded: bool) -> (r: Vec<Effect>)
        ensures
            (final(self)@, effects_text(r@)) == shell_open_finished(old(self)@, action@, succeeded),
    {
        proof {
            reveal(model_text);
            reveal(shell_open_finished);
        }
        self.pending = None;
        if !succeeded {
            self.show_result(false, action, false, "");
        }
        nothing()
    }

    fn report_refresh(&mut self) -> (r: Vec<Effect>)
        ensures
            (final(self)@, effects_text(r@)) == status_refreshed(old(self)@),
    {
        proof {
            reveal(model_text);
            reveal(status_refreshed);
        }
        self.show_result(true, "Status refreshed", false, "");
        one(Effect::Refresh)
    }

    fn dismiss_notice(&mut self) -> (r: Vec<Effect>)
        ensures
            (final(self)@, effects_text(r@)) == notice_dismissed(old(self)@),
    {
        proof {
            reveal(model_text);
            reveal(notice_dismissed);
        }
        self.notice = None;
        if self.notice_is_update {
            self.notice_is_update = false;
            return one(Effect::DismissUpdate);
        }
        nothing()
    }

    fn finish_repair(&mut self, outcome: RepairOutcome) -> (r: Vec<Effect>)
        ensures
            (final(self)@, effects_text(r@)) == repair_finished(old(self)@, outcome),
    {
        proof {
            reveal(model_text);
            reveal(repair_finished);
        }
        self.pending = None;
        self.notice = Some(notice_for_repair(outcome));
        self.notice_is_update = false;
        one(Effect::Refresh)
    }

    fn load_state(&mut self, state: State) -> (r: Vec<Effect>)
        ensures
            (final(self)@, effects_text(r@)) == state_loaded(old(self)@, state@),
    {
        proof {
            reveal(state_loaded);
        }
        self.take_state(state);
        self.maybe_start_upgrade(SweepUse::Upgrade)
    }

    fn set_pane_open(&mut self, open: bool) -> (r: Vec<Effect>)
        ensures
            (final(self)@, effects_text(r@)) == quiet(ModelText { pane_open: open, ..old(self)@ }),
    {
        proof {
            reveal(model_text);
        }
        self.pane_open = open;
        nothing()
    }

    fn set_dark(&mut self, dark: bool) -> (r: Vec<Effect>)
        ensures
            (final(self)@, effects_text(r@)) == quiet(ModelText { dark, ..old(self)@ }),
    {
        proof {
            reveal(model_text);
        }
        self.dark = dark;
        nothing()
    }

    fn set_root_draft(&mut self, text: String) -> (r: Vec<Effect>)
        ensures
            (final(self)@, effects_text(r@)) == quiet(
                ModelText { root_draft: text@, ..old(self)@ },
            ),
    {
        proof {
            reveal(model_text);
        }
        self.root_draft = text;
        nothing()
    }

    /// Nothing is in flight any more.
    fn free(&mut self)
        ensures
            final(self)@ == (ModelText { pending: None, ..old(self)@ }),
    {
        proof {
            reveal(model_text);
        }
        self.pending = None;
    }

    fn settle_folder(&mut self)
        ensures
            final(self)@ == (ModelText { folder_selected: false, ..old(self)@ }),
    {
        proof {
            reveal(model_text);
        }
        self.folder_selected = false;
    }

    fn take_state(&mut self, state: State)
        ensures
            final(self)@ == (ModelText { state: state@, ..old(self)@ }),
    {
        proof {
            reveal(model_text);
        }
        self.state = state;
    }

    /// Handles one message: the model changes, and the effects to perform are
    /// returned in order.
    pub fn update(&mut self, message: Msg) -> (r: Vec<Effect>)
        ensures
            (final(self)@, effects_text(r@)) == turn(old(self)@, message),
    {
        match message {
            Msg::Navigate(tag) => {
                return self.navigate(tag);
            },
            Msg::PaneOpenChanged(open) => {
                return self.set_pane_open(open);
            },
            Msg::ColorSchemeChanged(dark) => {
                return self.set_dark(dark);
            },
            Msg::ToggleGlobal(enabled) => {
                return self.toggle_global(enabled);
            },
            Msg::BareSlashListChecked(checked) => {
                return self.check_mode(checked, true);
            },
            Msg::BareSlashDefaultChecked(checked) => {
                return self.check_mode(checked, false);
            },
            Msg::FolderRadioChecked(checked) => {
                return self.check_folder_radio(checked);
            },
            Msg::RootTextChanged(text) => {
                return self.set_root_draft(text);
            },
            Msg::ApplyRoot => {
                return self.apply_root();
            },
            Msg::BrowseRoot => {
                return one(Effect::PickFolder);
            },
            Msg::FolderPicked(path) => {
                return self.pick_folder(path);
            },
            Msg::UpdateCheckFinished { outcome, explicit } => {
                return self.finish_check(outcome, explicit);
            },
            Msg::CheckForUpdates => {
                return self.start_exclusive(
                CHECK_ACTION,
                Effect::CheckForUpdates { force: true },
            );
            },
            Msg::SetAutoUpdate(enabled) => {
                return self.set_auto_update(enabled);
            },
            Msg::AutoUpdateFinished { enabled, succeeded } => {
                return self.finish_auto_update(
                enabled,
                succeeded,
            );
            },
            Msg::SelectDistribution(index) => {
                return self.select_distribution(index);
            },
            Msg::ToggleIntegration(integration, enabled) => {
                return self.toggle_integration(
                integration,
                enabled,
            );
            },
            Msg::OpenWslRoot => {
                return self.start_exclusive(OPEN_WSL_ACTION, Effect::OpenWslRoot);
            },
            Msg::ShellOpenFinished { action, succeeded } => {
                return self.finish_shell_open(
                action,
                succeeded,
            );
            },
            Msg::RefreshStatus => {
                return self.report_refresh();
            },
            Msg::DismissNotice => {
                return self.dismiss_notice();
            },
            Msg::InstallUpdate => {
                return self.start_exclusive(INSTALL_ACTION, Effect::InstallUpdate);
            },
            Msg::UpdateInstallFinished { code, stderr } => {
                return self.finish_install(
                code,
                stderr.as_str(),
            );
            },
            Msg::OpenStorePage => {
                return self.start_exclusive(OPEN_STORE_ACTION, Effect::OpenStorePage);
            },
            Msg::RepairIntegrations => {
                return self.start_exclusive(REPAIR_ACTION, Effect::Repair);
            },
            Msg::RepairFinished(outcome) => {
                return self.finish_repair(outcome);
            },
            Msg::StateLoaded(state) => {
                return self.load_state(state);
            },
            Msg::LaunchSweepFinished(state) => {
                return self.finish_launch_sweep(state);
            },
            Msg::ExternalStateChanged { wake, visible } => {
                return self.external_change(wake, visible);
            },
            Msg::StateRefreshed(state) => {
                return self.refresh_state(state);
            },
            Msg::BrokerProbed => {
                return one(Effect::Refresh);
            },
            Msg::ControllerFinished { action, terminal, succeeded, detail } => {
                return self.finish_controller(action, terminal, succeeded, detail.as_str());
            },
            Msg::SweepLock { purpose, taken } => {
                return self.sweep_answered(purpose, taken);
            },
        }
    }

    /// The model at launch, and the work the window starts with: the broker is
    /// armed, the daily check runs where it is allowed, external changes are
    /// watched, and an outdated adapter is repaired on sight.
    pub fn create(section: Section, state: State) -> (r: (Self, Vec<Effect>))
        ensures
            (r.0@, effects_text(r.1@)) == created(section, state@),
    {
        proof {
            reveal(model_text);
        }
        let mut effects = one(Effect::ProbeBroker);
        if update_check_allowed(state.packaged, state.auto_update) {
            add_effect(&mut effects, Effect::CheckForUpdates { force: false });
        }
        add_effect(&mut effects, Effect::StartStateWatch);
        add_effect(&mut effects, Effect::ArmStateWatch);
        let mut model = SettingsModel {
            section,
            pane_open: false,
            dark: true,
            state,
            root_draft: String::new(),
            folder_selected: false,
            notice_is_update: false,
            notice: None,
            pending: None,
            upgrade: None,
            upgrade_attempted: false,
            repair_started: false,
            sweep_held: false,
            external_reads: ReadCoalescer::default(),
        };
        assert(model@.root_draft =~= Seq::<char>::empty());
        let mut launch = model.maybe_start_upgrade(SweepUse::Launch);
        if launch.len() == 0 {
            launch = model.start_repair_sweep();
        }
        let ghost before = effects@;
        let ghost more = launch@;
        effects.append(&mut launch);
        assert(effects_text(effects@) =~= effects_text(before) + effects_text(more));
        (model, effects)
    }
}

// ---------------------------------------------------------------------------
// Performing the effects
// ---------------------------------------------------------------------------

/// The controller's arguments for an update check.
pub fn check_arguments(force: bool) -> (r: Vec<String>)
    ensures
        strings_text(r@) == if force {
            seq!["update"@, "check"@, "--force"@, "--json"@]
        } else {
            seq!["update"@, "check"@, "--json"@]
        },
{
    let arguments = if force {
        vec!["update".to_owned(), "check".to_owned(), "--force".to_owned(), "--json".to_owned()]
    } else {
        vec!["update".to_owned(), "check".to_owned(), "--json".to_owned()]
    };
    assert(strings_text(arguments@) =~= if force {
        seq!["update"@, "check"@, "--force"@, "--json"@]
    } else {
        seq!["update"@, "check"@, "--json"@]
    });
    arguments
}

/// The controller's arguments for an install the user asked for.
pub fn install_arguments() -> (r: Vec<String>)
    ensures
        strings_text(r@) == seq![
            "update"@,
            "install"@,
            "--force"@,
            "--relaunch"@,
            "app"@,
            "--json"@,
        ],
{
    let arguments = vec![
        "update".to_owned(),
        "install".to_owned(),
        "--force".to_owned(),
        "--relaunch".to_owned(),
        "app".to_owned(),
        "--json".to_owned(),
    ];
    assert(strings_text(arguments@) =~= seq![
        "update"@,
        "install"@,
        "--force"@,
        "--relaunch"@,
        "app"@,
        "--json"@,
    ]);
    arguments
}

/// What a manual repair ended up doing: `code` is the controller's exit code, or
/// `None` where the sweep lock is held elsewhere.
pub fn repair_outcome(code: Option<i32>, stderr: String) -> (r: RepairOutcome)
    ensures
        r == match code {
            None => RepairOutcome::Busy,
            Some(code) => if code == 0 {
                RepairOutcome::Repaired
            } else {
                RepairOutcome::Failed(stderr)
            },
        },
{
    match code {
        None => RepairOutcome::Busy,
        Some(code) => if code == 0 {
            RepairOutcome::Repaired
        } else {
            RepairOutcome::Failed(stderr)
        },
    }
}

}
