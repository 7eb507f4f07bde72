//! Laws of the settings window: what holds of its model whatever messages arrive.

use crate::state_watch::Wake;
use crate::text::string_in;
use crate::update::OutcomeText;
use crate::update_reply::check_meaning;
use crate::window_model::{
    asking, auto_update_finished, auto_update_switched, check_finished, controller_finished,
    created, distribution_selected, exclusive, external_changed, folder_checked, folder_picked,
    globally_toggled, install_finished, integration_toggled, launch_sweep_finished, mode_checked,
    navigated, notice_dismissed, quiet, repair_finished, root_applied, shell_open_finished,
    state_loaded, state_refreshed, status_refreshed, sweep_answer, turn, upgrade_advanced,
    CHECK_ACTION, EffectText, INSTALL_ACTION, ModelText, Msg, OPEN_STORE_ACTION, OPEN_WSL_ACTION,
    REPAIR_ACTION, RepairOutcome, SweepUse, Turn, UPGRADE_ACTION,
};
use crate::window_state::{outdated_in, section_of, Integration, Section, StateText};
use vstd::prelude::*;

verus! {

/// A marked notice is the one that announces an update.
pub open spec fn marked_truly(model: ModelText) -> bool {
    model.notice_is_update ==> match model.notice {
        Some(notice) => notice.title == "Update available"@,
        None => false,
    }
}

/// An effect that a turn asks for is in order: what it starts is recorded, and what
/// may happen once happens once.
pub open spec fn orderly_effect(model: ModelText, turn: Turn, effect: EffectText) -> bool {
    match effect {
        EffectText::Controller { action, .. } => turn.0.pending == Some(action) && turn.1.len()
            == 1,
        EffectText::AcquireSweepLock(SweepUse::Repair) => !model.repair_started
            && turn.0.repair_started,
        EffectText::AcquireSweepLock(_) => !model.upgrade_attempted && turn.0.upgrade_attempted,
        EffectText::LaunchRepair => turn.0.sweep_held,
        EffectText::ReleaseSweepLock => model.sweep_held && !turn.0.sweep_held,
        EffectText::ReadExternalState => turn.0.reading && (!model.reading || model.owed),
        _ => true,
    }
}

/// A turn is in order: its effects are, and no mark is lost.
#[verifier::opaque]
pub open spec fn orderly(model: ModelText, turn: Turn) -> bool {
    &&& forall|i: int| 0 <= i < turn.1.len() ==> orderly_effect(model, turn, #[trigger] turn.1[i])
    &&& model.upgrade_attempted ==> turn.0.upgrade_attempted
    &&& model.repair_started ==> turn.0.repair_started
    &&& marked_truly(model) ==> marked_truly(turn.0)
}

/// Effects whose order nothing depends on.
spec fn inert(effect: EffectText) -> bool {
    effect is CheckForUpdates || effect is SetAutoUpdate || effect is OpenWslRoot
        || effect is OpenStorePage || effect is InstallUpdate || effect is Repair
}

proof fn lemma_quiet(model: ModelText, next: ModelText)
    requires
        model.upgrade_attempted ==> next.upgrade_attempted,
        model.repair_started ==> next.repair_started,
        marked_truly(model) ==> marked_truly(next),
    ensures
        orderly(model, quiet(next)),
{
    reveal(orderly);
}

proof fn lemma_asking(model: ModelText, next: ModelText, effect: EffectText)
    requires
        model.upgrade_attempted ==> next.upgrade_attempted,
        model.repair_started ==> next.repair_started,
        marked_truly(model) ==> marked_truly(next),
        orderly_effect(model, asking(next, effect), effect),
    ensures
        orderly(model, asking(next, effect)),
{
    reveal(orderly);
}

proof fn lemma_sweep_answer(model: ModelText, purpose: SweepUse, taken: bool)
    ensures
        orderly(model, sweep_answer(model, purpose, taken)),
{
    reveal(sweep_answer);
    reveal(orderly);
}

proof fn lemma_upgrade_advanced(model: ModelText, succeeded: bool)
    ensures
        orderly(model, upgrade_advanced(model, succeeded)),
{
    reveal(upgrade_advanced);
    reveal(orderly);
}

proof fn lemma_mode_checked(model: ModelText, checked: bool, list: bool)
    ensures
        orderly(model, mode_checked(model, checked, list)),
{
    reveal(mode_checked);
    reveal(orderly);
}

proof fn lemma_root_applied(model: ModelText)
    ensures
        orderly(model, root_applied(model)),
{
    reveal(root_applied);
    reveal(orderly);
}

proof fn lemma_folder_picked(model: ModelText, path: Option<Seq<char>>)
    ensures
        orderly(model, folder_picked(model, path)),
{
    reveal(folder_picked);
    reveal(orderly);
}

proof fn lemma_distribution_selected(model: ModelText, index: Option<usize>)
    ensures
        orderly(model, distribution_selected(model, index)),
{
    reveal(distribution_selected);
    reveal(orderly);
}

proof fn lemma_integration_toggled(model: ModelText, integration: Integration, enabled: bool)
    ensures
        orderly(model, integration_toggled(model, integration, enabled)),
{
    reveal(integration_toggled);
    reveal(orderly);
}

proof fn lemma_check_finished(model: ModelText, outcome: OutcomeText, explicit: bool)
    ensures
        orderly(model, check_finished(model, outcome, explicit)),
{
    reveal(check_finished);
    reveal(orderly);
}

proof fn lemma_install_finished(model: ModelText, code: i32, stderr: Seq<char>)
    ensures
        orderly(model, install_finished(model, code, stderr)),
{
    reveal(install_finished);
    reveal(orderly);
}

proof fn lemma_exclusive(model: ModelText, action: Seq<char>, effect: EffectText)
    requires
        inert(effect),
    ensures
        orderly(model, exclusive(model, action, effect)),
{
    reveal(exclusive);
    reveal(orderly);
}

proof fn lemma_state_refreshed(model: ModelText, state: StateText)
    ensures
        orderly(model, state_refreshed(model, state)),
{
    reveal(state_refreshed);
    reveal(orderly);
}

proof fn lemma_launch_sweep_finished(model: ModelText, state: StateText)
    ensures
        orderly(model, launch_sweep_finished(model, state)),
{
    reveal(launch_sweep_finished);
    reveal(orderly);
}

proof fn lemma_external_changed(model: ModelText, wake: Wake, visible: bool)
    ensures
        orderly(model, external_changed(model, wake, visible)),
{
    reveal(external_changed);
    reveal(orderly);
}

proof fn lemma_navigated(model: ModelText, tag: Option<Seq<char>>)
    ensures
        orderly(model, navigated(model, tag)),
{
    reveal(navigated);
    reveal(orderly);
}

proof fn lemma_globally_toggled(model: ModelText, enabled: bool)
    ensures
        orderly(model, globally_toggled(model, enabled)),
{
    reveal(globally_toggled);
    reveal(orderly);
}

proof fn lemma_folder_checked(model: ModelText, checked: bool)
    ensures
        orderly(model, folder_checked(model, checked)),
{
    reveal(folder_checked);
    reveal(orderly);
}

proof fn lemma_auto_update_switched(model: ModelText, enabled: bool)
    ensures
        orderly(model, auto_update_switched(model, enabled)),
{
    reveal(auto_update_switched);
    reveal(exclusive);
    reveal(orderly);
}

proof fn lemma_auto_update_finished(model: ModelText, enabled: bool, succeeded: bool)
    ensures
        orderly(model, auto_update_finished(model, enabled, succeeded)),
{
    reveal(auto_update_finished);
    reveal(orderly);
}

proof fn lemma_shell_open_finished(model: ModelText, action: Seq<char>, succeeded: bool)
    ensures
        orderly(model, shell_open_finished(model, action, succeeded)),
{
    reveal(shell_open_finished);
    reveal(orderly);
}

proof fn lemma_status_refreshed(model: ModelText)
    ensures
        orderly(model, status_refreshed(model)),
{
    reveal(status_refreshed);
    reveal(orderly);
}

proof fn lemma_notice_dismissed(model: ModelText)
    ensures
        orderly(model, notice_dismissed(model)),
{
    reveal(notice_dismissed);
    reveal(orderly);
}

proof fn lemma_repair_finished(model: ModelText, outcome: RepairOutcome)
    ensures
        orderly(model, repair_finished(model, outcome)),
{
    reveal(repair_finished);
    reveal(orderly);
}

proof fn lemma_state_loaded(model: ModelText, state: StateText)
    ensures
        orderly(model, state_loaded(model, state)),
{
    reveal(state_loaded);
    reveal(orderly);
}

proof fn lemma_controller_finished(
    model: ModelText,
    action: Seq<char>,
    terminal: bool,
    succeeded: bool,
    detail: Seq<char>,
)
    ensures
        orderly(model, controller_finished(model, action, terminal, succeeded, detail)),
{
    reveal(controller_finished);
    reveal(orderly);
    lemma_upgrade_advanced(ModelText { pending: None, ..model }, succeeded);
}

/// Every turn is in order.
proof fn lemma_turn_is_orderly(model: ModelText, message: Msg)
    ensures
        orderly(model, turn(model, message)),
{
    match message {
        Msg::Navigate(tag) => lemma_navigated(model, string_in(tag)),
        Msg::PaneOpenChanged(open) => lemma_quiet(model, ModelText { pane_open: open, ..model }),
        Msg::ColorSchemeChanged(dark) => lemma_quiet(model, ModelText { dark, ..model }),
        Msg::ToggleGlobal(enabled) => lemma_globally_toggled(model, enabled),
        Msg::BareSlashListChecked(checked) => lemma_mode_checked(model, checked, true),
        Msg::BareSlashDefaultChecked(checked) => lemma_mode_checked(model, checked, false),
        Msg::FolderRadioChecked(checked) => lemma_folder_checked(model, checked),
        Msg::RootTextChanged(text) => lemma_quiet(model, ModelText { root_draft: text@, ..model }),
        Msg::ApplyRoot => lemma_root_applied(model),
        Msg::BrowseRoot => lemma_asking(model, model, EffectText::PickFolder),
        Msg::FolderPicked(path) => lemma_folder_picked(model, string_in(path)),
        Msg::UpdateCheckFinished { outcome, explicit } => lemma_check_finished(
            model,
            outcome@,
            explicit,
        ),
        Msg::CheckForUpdates => lemma_exclusive(
            model,
            CHECK_ACTION@,
            EffectText::CheckForUpdates { force: true },
        ),
        Msg::SetAutoUpdate(enabled) => lemma_auto_update_switched(model, enabled),
        Msg::AutoUpdateFinished { enabled, succeeded } => lemma_auto_update_finished(
            model,
            enabled,
            succeeded,
        ),
        Msg::SelectDistribution(index) => lemma_distribution_selected(model, index),
        Msg::ToggleIntegration(integration, enabled) => lemma_integration_toggled(
            model,
            integration,
            enabled,
        ),
        Msg::OpenWslRoot => lemma_exclusive(model, OPEN_WSL_ACTION@, EffectText::OpenWslRoot),
        Msg::ShellOpenFinished { action, succeeded } => lemma_shell_open_finished(
            model,
            action@,
            succeeded,
        ),
        Msg::RefreshStatus => lemma_status_refreshed(model),
        Msg::DismissNotice => lemma_notice_dismissed(model),
        Msg::InstallUpdate => lemma_exclusive(model, INSTALL_ACTION@, EffectText::InstallUpdate),
        Msg::UpdateInstallFinished { code, stderr } => lemma_install_finished(model, code, stderr@),
        Msg::OpenStorePage => lemma_exclusive(model, OPEN_STORE_ACTION@, EffectText::OpenStorePage),
        Msg::RepairIntegrations => lemma_exclusive(model, REPAIR_ACTION@, EffectText::Repair),
        Msg::RepairFinished(outcome) => lemma_repair_finished(model, outcome),
        Msg::StateLoaded(state) => lemma_state_loaded(model, state@),
        Msg::LaunchSweepFinished(state) => lemma_launch_sweep_finished(model, state@),
        Msg::ExternalStateChanged { wake, visible } => lemma_external_changed(model, wake, visible),
        Msg::StateRefreshed(state) => lemma_state_refreshed(model, state@),
        Msg::BrokerProbed => lemma_asking(model, model, EffectText::Refresh),
        Msg::ControllerFinished { action, terminal, succeeded, detail } => {
            lemma_controller_finished(model, action@, terminal, succeeded, detail@)
        },
        Msg::SweepLock { purpose, taken } => lemma_sweep_answer(model, purpose, taken),
    }
}

/// Where a turn starts the controller, that invocation is what is in flight
/// afterwards, and nothing else is started for the controls to race.
pub proof fn law_started_controllers_are_pending(model: ModelText, message: Msg, i: int)
    requires
        0 <= i < turn(model, message).1.len(),
        turn(model, message).1[i] is Controller,
    ensures
        turn(model, message).0.pending == Some(turn(model, message).1[i]->Controller_action),
        turn(model, message).1.len() == 1,
{
    lemma_turn_is_orderly(model, message);
    reveal(orderly);
    assert(orderly_effect(model, turn(model, message), turn(model, message).1[i]));
}

/// While an action is in flight, another check, install, repair, shell open or
/// change of the automatic updates switch does nothing.
pub proof fn law_exclusive_actions_wait(model: ModelText, message: Msg)
    requires
        model.pending is Some,
        message is CheckForUpdates || message is InstallUpdate || message is RepairIntegrations
            || message is OpenWslRoot || message is OpenStorePage || message is SetAutoUpdate,
    ensures
        turn(model, message) == (model, Seq::<EffectText>::empty()),
{
    reveal(exclusive);
    reveal(auto_update_switched);
}

/// A control that reports what is shown already, or a cleared selection, changes
/// nothing and starts nothing.
pub proof fn law_echoes_change_nothing(model: ModelText, message: Msg)
    requires
        match message {
            Msg::Navigate(None) => true,
            Msg::Navigate(Some(tag)) => section_of(tag@) == model.section,
            Msg::ToggleGlobal(enabled) => enabled == !model.state.disabled,
            Msg::ToggleIntegration(integration, enabled) => enabled == model.state.has(integration),
            Msg::SelectDistribution(None) => true,
            Msg::SelectDistribution(Some(index)) => index == model.state.distribution_index(),
            Msg::BareSlashListChecked(checked) => !checked,
            Msg::BareSlashDefaultChecked(checked) => !checked,
            Msg::FolderRadioChecked(checked) => !checked || model.state.root is Some,
            Msg::SetAutoUpdate(enabled) => enabled == model.state.auto_update,
            _ => false,
        },
    ensures
        turn(model, message) == (model, Seq::<EffectText>::empty()),
{
    reveal(navigated);
    reveal(globally_toggled);
    reveal(integration_toggled);
    reveal(distribution_selected);
    reveal(mode_checked);
    reveal(folder_checked);
    reveal(auto_update_switched);
}

/// From launch on, and through every message, only the notice that announces an
/// update is marked as such: dismissing any other one never clears the recorded
/// update.
pub proof fn law_only_the_update_notice_is_marked(
    section: Section,
    state: StateText,
    model: ModelText,
    message: Msg,
)
    ensures
        marked_truly(created(section, state).0),
        marked_truly(model) ==> marked_truly(turn(model, message).0),
{
    lemma_turn_is_orderly(model, message);
    reveal(orderly);
}

/// The automatic upgrade is wanted at most once in a process, and the repair sweep
/// is started at most once: both marks stay set, and the lock for an upgrade is only
/// ever asked for by the turn that sets its mark.
pub proof fn law_sweeps_start_once(model: ModelText, message: Msg, i: int)
    requires
        0 <= i < turn(model, message).1.len(),
    ensures
        model.upgrade_attempted ==> turn(model, message).0.upgrade_attempted,
        model.repair_started ==> turn(model, message).0.repair_started,
        turn(model, message).1[i] == EffectText::AcquireSweepLock(SweepUse::Upgrade) ==> {
            &&& !model.upgrade_attempted
            &&& turn(model, message).0.upgrade_attempted
        },
        turn(model, message).1[i] == EffectText::AcquireSweepLock(SweepUse::Repair) ==> {
            &&& !model.repair_started
            &&& turn(model, message).0.repair_started
        },
{
    lemma_turn_is_orderly(model, message);
    reveal(orderly);
    assert(orderly_effect(model, turn(model, message), turn(model, message).1[i]));
}

/// The launch repair runs only under the sweep lock, and the lock is let go only by
/// a process that holds it.
pub proof fn law_sweeps_run_under_the_lock(model: ModelText, message: Msg, i: int)
    requires
        0 <= i < turn(model, message).1.len(),
    ensures
        turn(model, message).1[i] is LaunchRepair ==> turn(model, message).0.sweep_held,
        turn(model, message).1[i] is ReleaseSweepLock ==> model.sweep_held && !turn(
            model,
            message,
        ).0.sweep_held,
{
    lemma_turn_is_orderly(model, message);
    reveal(orderly);
    assert(orderly_effect(model, turn(model, message), turn(model, message).1[i]));
}

/// An upgrade goes through the outdated adapters in page order: what is upgraded
/// now, what was, and what is still queued, are together what was outdated.
pub open spec fn upgrade_covers(model: ModelText, outdated: Seq<Integration>, steps: int) -> bool {
    match model.upgrade {
        None => false,
        Some(upgrade) => {
            &&& 0 <= steps < outdated.len()
            &&& upgrade.current == outdated[steps]
            &&& upgrade.queue == outdated.skip(steps + 1).reverse()
        },
    }
}

/// The upgrade that starts stands at the first outdated adapter, and each finished
/// step, whatever became of it, moves to the next; after the last the upgrade is
/// over and its report is shown.
pub proof fn law_upgrade_visits_every_outdated_adapter(
    model: ModelText,
    purpose: SweepUse,
    outdated: Seq<Integration>,
    steps: int,
    succeeded: bool,
    detail: String,
    action: &'static str,
    terminal: bool,
)
    requires
        action@ == UPGRADE_ACTION@,
    ensures
        purpose != SweepUse::Repair && outdated_in(model.state.adapters).len() > 0 ==> {
            let started = turn(model, Msg::SweepLock { purpose, taken: true });
            upgrade_covers(started.0, outdated_in(model.state.adapters), 0)
        },
        upgrade_covers(model, outdated, steps) ==> {
            let next = turn(
                model,
                Msg::ControllerFinished { action, terminal, succeeded, detail },
            );
            if steps + 1 < outdated.len() {
                upgrade_covers(next.0, outdated, steps + 1)
            } else {
                next.0.upgrade is None && next.0.notice is Some
            }
        },
{
    reveal(sweep_answer);
    reveal(controller_finished);
    reveal(upgrade_advanced);
    if upgrade_covers(model, outdated, steps) {
        let queue = outdated.skip(steps + 1).reverse();
        if steps + 1 < outdated.len() {
            assert(queue.last() == outdated[steps + 1]);
            assert(queue.drop_last() =~= outdated.skip(steps + 2).reverse());
        } else {
            assert(queue.len() == 0);
        }
    }
}

/// The watch outlives every wake: each one arms it again, before anything else.
pub proof fn law_the_watch_is_always_armed_again(model: ModelText, wake: Wake, visible: bool)
    ensures
        external_changed(model, wake, visible).1.len() > 0,
        external_changed(model, wake, visible).1[0] is ArmStateWatch,
{
    reveal(external_changed);
}

/// At most one external read runs at a time: one starts only where none runs, or
/// where one is owed when the running one lands, and is then recorded as running.
pub proof fn law_external_reads_do_not_overlap(model: ModelText, message: Msg, i: int)
    requires
        0 <= i < turn(model, message).1.len(),
        turn(model, message).1[i] is ReadExternalState,
    ensures
        !model.reading || model.owed,
        turn(model, message).0.reading,
{
    lemma_turn_is_orderly(model, message);
    reveal(orderly);
    assert(orderly_effect(model, turn(model, message), turn(model, message).1[i]));
}

/// A read that finds what is shown already changes nothing that is rendered, and
/// starts nothing but the read that a wake in between owes.
pub proof fn law_an_unchanged_read_is_silent(model: ModelText)
    ensures
        state_refreshed(model, model.state).0 == (ModelText {
            reading: model.owed,
            owed: false,
            ..model
        }),
        state_refreshed(model, model.state).1 == (if model.owed {
            seq![EffectText::ReadExternalState]
        } else {
            Seq::empty()
        }),
{
    reveal(state_refreshed);
    assert(seq![EffectText::ReadExternalState] + Seq::<EffectText>::empty() =~= seq![
        EffectText::ReadExternalState,
    ]);
}

/// A check that the user asked for always frees the controls and reports something;
/// any other check is silent unless it found a release.
pub proof fn law_asked_for_checks_report(model: ModelText, code: i32, stdout: Seq<char>)
    ensures
        check_finished(model, check_meaning(code, stdout), true).0.notice is Some,
        check_finished(model, check_meaning(code, stdout), true).0.pending is None,
        !(check_meaning(code, stdout) is Ready) ==> check_finished(
            model,
            check_meaning(code, stdout),
            false,
        ).0 == model,
{
    reveal(check_finished);
}

/// An install that took over the shutdown closes the window; every other answer
/// keeps it open, with a notice.
pub proof fn law_installs_close_or_explain(model: ModelText, code: i32, stderr: Seq<char>)
    ensures
        install_finished(model, code, stderr).0.pending is None,
        (code == 0) == (install_finished(model, code, stderr).1 == seq![EffectText::RequestClose]),
        code != 0 ==> install_finished(model, code, stderr).0.notice is Some,
{
    reveal(install_finished);
    let closing = seq![EffectText::RequestClose];
    let staying = seq![EffectText::Refresh];
    assert(closing[0] != staying[0]);
}

}
