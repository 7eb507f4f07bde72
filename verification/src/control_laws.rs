//! What each control of the settings window asks for, and what the pages show.

use crate::package::FSW_VERSION;
use crate::path::{folds_alike, BareSlashMode};
use crate::settings::{
    stored_disabled, stored_mode, stored_pin, stored_root, stored_tag, strings_text, valid_names,
};
use crate::state_watch::Wake;
use crate::system::{is_installed, AdapterMarker, BrokerState, FilterServiceState};
use crate::text::{is_white, law_trimming_takes_the_ends, trim_back_of, trim_front_of};
use crate::update::{OutcomeText, UpdateOutcome};
use crate::update_reply::{InfoBarSeverity, NoticeText};
use crate::window_model::{
    auto_update_finished, auto_update_switched, check_finished, controller_finished, created,
    distribution_selected, exclusive, external_changed, folder_checked, folder_picked,
    globally_toggled, install_finished, integration_toggled, launch_sweep_finished, mode_checked,
    names_listed, navigated, notice_dismissed, repair_finished, root_applied, shell_open_finished,
    state_loaded, state_refreshed, sweep_answer, turn, upgrade_notice, EffectText, ModelText, Msg,
    RepairOutcome, SweepUse,
};
use crate::window_state::{
    adapter_reading, adapter_row, link_tag, lowered, outdated_in, pin_index, section_in,
    section_of, state_from, AdapterText, DriverStatus, Integration, Readings, Section, StateText,
};
use crate::window_view::{component_lines, general_page, package_text, row_enabled, terminal_row};
use vstd::prelude::*;

verus! {

// ---------------------------------------------------------------------------
// What the controls ask for
// ---------------------------------------------------------------------------

/// The main switch asks the controller to enable or to disable, as it was turned.
pub proof fn law_the_main_switch(model: ModelText)
    ensures
        model.state.disabled ==> turn(model, Msg::ToggleGlobal(true)) == (
            ModelText { pending: Some("Resolution enabled"@), ..model },
            seq![
                EffectText::Controller {
                    action: "Resolution enabled"@,
                    terminal: false,
                    arguments: seq!["enable"@],
                },
            ],
        ),
        !model.state.disabled ==> turn(model, Msg::ToggleGlobal(false)) == (
            ModelText { pending: Some("Resolution disabled"@), ..model },
            seq![
                EffectText::Controller {
                    action: "Resolution disabled"@,
                    terminal: false,
                    arguments: seq!["disable"@],
                },
            ],
        ),
{
    reveal(globally_toggled);
}

/// The two mode choices ask for their own mode, unless the page shows it already.
pub proof fn law_the_mode_choices(model: ModelText)
    ensures
        ({
            let list = model.state.bare_mode == BareSlashMode::DistributionList;
            let folder = model.state.root is Some || model.folder_selected;
            &&& !list || folder ==> turn(model, Msg::BareSlashListChecked(true)) == (
                ModelText {
                    folder_selected: false,
                    pending: Some("Bare slash shows all distributions"@),
                    ..model
                },
                seq![
                    EffectText::Controller {
                        action: "Bare slash shows all distributions"@,
                        terminal: false,
                        arguments: seq!["bare-slash"@, "list"@],
                    },
                ],
            )
            &&& list && !folder ==> turn(model, Msg::BareSlashListChecked(true)) == (
                model,
                Seq::<EffectText>::empty(),
            )
            &&& list || folder ==> turn(model, Msg::BareSlashDefaultChecked(true)) == (
                ModelText {
                    folder_selected: false,
                    pending: Some("Bare slash opens the default distribution"@),
                    ..model
                },
                seq![
                    EffectText::Controller {
                        action: "Bare slash opens the default distribution"@,
                        terminal: false,
                        arguments: seq!["bare-slash"@, "default"@],
                    },
                ],
            )
            &&& !list && !folder ==> turn(model, Msg::BareSlashDefaultChecked(true)) == (
                model,
                Seq::<EffectText>::empty(),
            )
        }),
{
    reveal(mode_checked);
}

/// The distribution picker asks for the distribution at the chosen place, or for
/// none at the first, which follows WSL's own default; a place beyond the list is
/// ignored.
pub proof fn law_the_distribution_picker(model: ModelText, index: usize)
    requires
        index != model.state.distribution_index(),
    ensures
        index == 0 ==> turn(model, Msg::SelectDistribution(Some(index))) == (
            ModelText { pending: Some("Bare slash default updated"@), ..model },
            seq![
                EffectText::Controller {
                    action: "Bare slash default updated"@,
                    terminal: false,
                    arguments: seq!["bare-slash"@, "default"@],
                },
            ],
        ),
        0 < index <= model.state.distributions.len() ==> turn(
            model,
            Msg::SelectDistribution(Some(index)),
        ) == (
            ModelText { pending: Some("Bare slash default updated"@), ..model },
            seq![
                EffectText::Controller {
                    action: "Bare slash default updated"@,
                    terminal: false,
                    arguments: seq![
                        "bare-slash"@,
                        "default"@,
                        model.state.distributions[index - 1],
                    ],
                },
            ],
        ),
        index > model.state.distributions.len() ==> turn(
            model,
            Msg::SelectDistribution(Some(index)),
        ) == (model, Seq::<EffectText>::empty()),
{
    reveal(distribution_selected);
}

/// An integration's switch asks for that integration, to be enabled or disabled as
/// it was turned; all but the Windows surfaces concern open terminals.
pub proof fn law_the_integration_switches(model: ModelText, enabled: bool)
    ensures
        ({
            let word = if enabled {
                "enable"@
            } else {
                "disable"@
            };
            &&& enabled != model.state.has(Integration::Windows) ==> turn(
                model,
                Msg::ToggleIntegration(Integration::Windows, enabled),
            ).1 == seq![
                EffectText::Controller {
                    action: if enabled {
                        "Windows surfaces installed"@
                    } else {
                        "Windows surfaces removed"@
                    },
                    terminal: false,
                    arguments: seq!["integration"@, "windows"@, word],
                },
            ]
            &&& enabled != model.state.has(Integration::Cmd) ==> turn(
                model,
                Msg::ToggleIntegration(Integration::Cmd, enabled),
            ).1 == seq![
                EffectText::Controller {
                    action: if enabled {
                        "Command Prompt installed"@
                    } else {
                        "Command Prompt removed"@
                    },
                    terminal: true,
                    arguments: seq!["integration"@, "cmd"@, word],
                },
            ]
            &&& enabled != model.state.has(Integration::WindowsPowerShell) ==> turn(
                model,
                Msg::ToggleIntegration(Integration::WindowsPowerShell, enabled),
            ).1 == seq![
                EffectText::Controller {
                    action: if enabled {
                        "Windows PowerShell installed"@
                    } else {
                        "Windows PowerShell removed"@
                    },
                    terminal: true,
                    arguments: seq!["integration"@, "windows-powershell"@, word],
                },
            ]
            &&& enabled != model.state.has(Integration::PowerShell7) ==> turn(
                model,
                Msg::ToggleIntegration(Integration::PowerShell7, enabled),
            ).1 == seq![
                EffectText::Controller {
                    action: if enabled {
                        "PowerShell 7 installed"@
                    } else {
                        "PowerShell 7 removed"@
                    },
                    terminal: true,
                    arguments: seq!["integration"@, "powershell"@, word],
                },
            ]
        }),
{
    reveal(integration_toggled);
}

/// Applying the folder asks for the typed path without white space around it, where
/// it is a usable root that is not set already; an unusable one is explained, and
/// nothing is asked for.
pub proof fn law_the_folder_is_applied(
    model: ModelText,
    front: Seq<char>,
    path: Seq<char>,
    back: Seq<char>,
)
    requires
        model.root_draft == front + path + back,
        forall|i: int| 0 <= i < front.len() ==> is_white(#[trigger] front[i]),
        forall|i: int| 0 <= i < back.len() ==> is_white(#[trigger] back[i]),
        path.len() > 0,
        !is_white(path[0]),
        !is_white(path.last()),
    ensures
        ({
            let after = turn(model, Msg::ApplyRoot);
            let usable = crate::path::is_windows_root(path);
            let set = model.state.root == Some(path);
            &&& usable && !set ==> after == (
                ModelText { pending: Some("Bare slash opens the chosen folder"@), ..model },
                seq![
                    EffectText::Controller {
                        action: "Bare slash opens the chosen folder"@,
                        terminal: false,
                        arguments: seq!["bare-slash"@, "root"@, path],
                    },
                ],
            )
            &&& set ==> after == (model, Seq::<EffectText>::empty())
            &&& !usable && !set ==> {
                &&& after.1 == Seq::<EffectText>::empty()
                &&& after.0.notice is Some
                &&& after.0.notice->Some_0.severity == InfoBarSeverity::Error
                &&& after.0.pending == model.pending
            }
        }),
{
    reveal(root_applied);
    law_trimming_takes_the_ends(front, path, back);
}

/// A picked folder is shown, and asked for where it is a usable root that is not set
/// already; picking nothing changes nothing.
pub proof fn law_the_folder_is_picked(model: ModelText, path: String)
    ensures
        turn(model, Msg::FolderPicked(None)) == (model, Seq::<EffectText>::empty()),
        ({
            let after = turn(model, Msg::FolderPicked(Some(path)));
            &&& after.0.root_draft == path@ && after.0.folder_selected
            &&& crate::path::is_windows_root(path@) && model.state.root != Some(path@) ==> after.1
                == seq![
                EffectText::Controller {
                    action: "Bare slash opens the chosen folder"@,
                    terminal: false,
                    arguments: seq!["bare-slash"@, "root"@, path@],
                },
            ]
            &&& !crate::path::is_windows_root(path@) ==> after.1 == Seq::<EffectText>::empty()
        }),
{
    reveal(folder_picked);
}

/// With nothing in flight, each button asks for its own work and marks it as in
/// flight.
pub proof fn law_the_buttons(model: ModelText, enabled: bool)
    requires
        model.pending is None,
    ensures
        turn(model, Msg::CheckForUpdates).1 == seq![EffectText::CheckForUpdates { force: true }],
        turn(model, Msg::InstallUpdate).1 == seq![EffectText::InstallUpdate],
        turn(model, Msg::RepairIntegrations).1 == seq![EffectText::Repair],
        turn(model, Msg::OpenWslRoot).1 == seq![EffectText::OpenWslRoot],
        turn(model, Msg::OpenStorePage).1 == seq![EffectText::OpenStorePage],
        turn(model, Msg::BrowseRoot).1 == seq![EffectText::PickFolder],
        enabled != model.state.auto_update ==> turn(model, Msg::SetAutoUpdate(enabled)).1 == seq![
            EffectText::SetAutoUpdate(enabled),
        ],
        turn(model, Msg::CheckForUpdates).0.pending is Some,
        turn(model, Msg::InstallUpdate).0.pending is Some,
        turn(model, Msg::RepairIntegrations).0.pending is Some,
        turn(model, Msg::OpenWslRoot).0.pending is Some,
        turn(model, Msg::OpenStorePage).0.pending is Some,
        turn(model, Msg::BrowseRoot).0 == model,
{
    reveal(exclusive);
    reveal(auto_update_switched);
}

/// What ends frees the window again, whatever came of it.
pub proof fn law_what_ends_frees_the_window(
    model: ModelText,
    enabled: bool,
    succeeded: bool,
    outcome: RepairOutcome,
    action: &'static str,
    code: i32,
    text: String,
    checked: UpdateOutcome,
)
    ensures
        turn(model, Msg::AutoUpdateFinished { enabled, succeeded }).0.pending is None,
        turn(model, Msg::ShellOpenFinished { action, succeeded }).0.pending is None,
        turn(model, Msg::RepairFinished(outcome)).0.pending is None,
        turn(model, Msg::UpdateInstallFinished { code, stderr: text }).0.pending is None,
        turn(
            model,
            Msg::UpdateCheckFinished { outcome: checked, explicit: true },
        ).0.pending is None,
        action@ != "Terminal integration upgrade"@ ==> turn(
            model,
            Msg::ControllerFinished { action, terminal: enabled, succeeded, detail: text },
        ).0.pending is None,
{
    reveal(auto_update_finished);
    reveal(shell_open_finished);
    reveal(repair_finished);
    reveal(install_finished);
    reveal(check_finished);
    reveal(controller_finished);
}

/// What is told of a finished change: success with what was done, and with a hint
/// where terminals have to be opened again; failure with what it was and what was
/// said of it. The page is drawn again either way.
pub proof fn law_what_is_told_of_a_change(
    model: ModelText,
    action: &'static str,
    terminal: bool,
    detail: String,
)
    requires
        action@ != "Terminal integration upgrade"@,
        detail@.len() > 0,
        !is_white(detail@[0]),
        !is_white(detail@.last()),
    ensures
        ({
            let done = turn(
                model,
                Msg::ControllerFinished { action, terminal, succeeded: true, detail },
            );
            let failed = turn(
                model,
                Msg::ControllerFinished { action, terminal, succeeded: false, detail },
            );
            &&& done.0.notice == Some(
                NoticeText {
                    severity: InfoBarSeverity::Success,
                    title: "Updated"@,
                    message: if terminal {
                        action@ + ". Reopen affected terminals."@
                    } else {
                        action@
                    },
                    action: None,
                },
            )
            &&& failed.0.notice == Some(
                NoticeText {
                    severity: InfoBarSeverity::Error,
                    title: "Could not update integration"@,
                    message: action@ + " failed. Existing settings were left in place."@ + seq![' ']
                        + detail@,
                    action: None,
                },
            )
            &&& done.1 == seq![EffectText::Refresh]
            &&& failed.1 == seq![EffectText::Refresh]
            &&& !done.0.notice_is_update && !failed.0.notice_is_update
            &&& done.0.state == model.state && failed.0.state == model.state
        }),
{
    reveal(controller_finished);
    let nothing = Seq::<char>::empty();
    law_trimming_takes_the_ends(nothing, detail@, nothing);
    assert(nothing + detail@ + nothing =~= detail@);
    let front = action@ + " failed. Existing settings were left in place."@;
    assert(front.push(' ') + detail@ =~= front + seq![' '] + detail@);
}

/// What is told of a check: a ready release always, as an update; that there is none,
/// or that it could not be asked, only where the user asked. The page is drawn again.
pub proof fn law_what_is_told_of_a_check(model: ModelText, tag: Seq<char>, explicit: bool)
    ensures
        ({
            let ready = check_finished(model, OutcomeText::Ready(tag), explicit);
            let none = check_finished(model, OutcomeText::UpToDate, true);
            let not_due = check_finished(model, OutcomeText::NotDue, true);
            let away = check_finished(model, OutcomeText::Unavailable, true);
            &&& ready.0.notice is Some && ready.0.notice_is_update
            &&& ready.0.notice->Some_0.title == "Update available"@
            &&& ready.1 == seq![EffectText::Refresh]
            &&& none.0.notice is Some && none.0.notice->Some_0.title == "Up to date"@
            &&& not_due.0.notice == none.0.notice
            &&& away.0.notice is Some && away.0.notice->Some_0.title
                == "Could not check for updates"@
            &&& check_finished(model, OutcomeText::UpToDate, false) == (
                model,
                seq![EffectText::Refresh],
            )
            &&& check_finished(model, OutcomeText::Unavailable, false) == (
                model,
                seq![EffectText::Refresh],
            )
        }),
{
    reveal(check_finished);
}

/// Dismissing a notice takes it away; dismissing the update notice also forgets the
/// recorded update.
pub proof fn law_dismissing_a_notice(model: ModelText)
    ensures
        turn(model, Msg::DismissNotice).0.notice is None,
        !turn(model, Msg::DismissNotice).0.notice_is_update,
        model.notice_is_update ==> turn(model, Msg::DismissNotice).1 == seq![
            EffectText::DismissUpdate,
        ],
        !model.notice_is_update ==> turn(model, Msg::DismissNotice).1
            == Seq::<EffectText>::empty(),
{
    reveal(notice_dismissed);
}

/// What only changes how the window looks asks for nothing else.
pub proof fn law_what_only_changes_the_looks(model: ModelText, on: bool, text: String)
    ensures
        turn(model, Msg::PaneOpenChanged(on)) == (
            ModelText { pane_open: on, ..model },
            Seq::<EffectText>::empty(),
        ),
        turn(model, Msg::ColorSchemeChanged(on)) == (
            ModelText { dark: on, ..model },
            Seq::<EffectText>::empty(),
        ),
        turn(model, Msg::RootTextChanged(text)) == (
            ModelText { root_draft: text@, ..model },
            Seq::<EffectText>::empty(),
        ),
        section_of(text@) != model.section ==> turn(model, Msg::Navigate(Some(text))) == (
            ModelText { section: section_of(text@), ..model },
            seq![EffectText::Refresh],
        ),
        !model.folder_selected && model.state.root is None ==> turn(
            model,
            Msg::FolderRadioChecked(true),
        ) == (ModelText { folder_selected: true, ..model }, seq![EffectText::Refresh]),
{
    reveal(navigated);
    reveal(folder_checked);
}

/// When the state is read again: on every broadcast, and on a poll only while the
/// window can be seen; while a read is under way it is owed instead.
pub proof fn law_when_the_state_is_read(model: ModelText, visible: bool)
    ensures
        !model.reading ==> external_changed(model, Wake::Broadcast, visible) == (
            ModelText { reading: true, ..model },
            seq![EffectText::ArmStateWatch, EffectText::ReadExternalState],
        ),
        model.reading ==> external_changed(model, Wake::Broadcast, visible) == (
            ModelText { owed: true, ..model },
            seq![EffectText::ArmStateWatch],
        ),
        external_changed(model, Wake::Poll, true) == external_changed(
            model,
            Wake::Broadcast,
            true,
        ),
        external_changed(model, Wake::Poll, false) == (model, seq![EffectText::ArmStateWatch]),
{
    reveal(external_changed);
}

// ---------------------------------------------------------------------------
// Sections
// ---------------------------------------------------------------------------

/// Which page a name opens, with slashes around it or without: the three named
/// pages, the terminals also by the name of a terminal, and for any other name the
/// first page.
pub proof fn law_which_page_a_name_opens(name: Seq<char>)
    requires
        name.len() > 0,
        name[0] != '/',
        name.last() != '/',
        forall|i: int| 0 <= i < name.len() ==> !('A' <= #[trigger] name[i] <= 'Z'),
    ensures
        ({
            let page = if name == "windows"@ {
                Section::Windows
            } else if name == "terminals"@ || name == "cmd"@ || name == "windows-powershell"@ || name
                == "powershell"@ {
                Section::Terminals
            } else if name == "about"@ {
                Section::About
            } else {
                Section::General
            };
            &&& section_of(name) == page
            &&& section_of(name.push('/')) == page
            &&& section_of(seq!['/'] + name) == page
        }),
{
    assert(lowered(name) =~= name);
    reveal_with_fuel(trim_front_of, 2);
    reveal_with_fuel(trim_back_of, 2);
    assert(trim_front_of(name, '/') == name);
    assert(trim_back_of(name, '/') == name);
    assert(name.push('/')[0] == name[0]);
    assert(name.push('/').drop_last() =~= name);
    assert((seq!['/'] + name).skip(1) =~= name);
}

/// Case takes no part in the name of a page.
pub proof fn law_case_takes_no_part_in_page_names(name: Seq<char>, i: int)
    requires
        0 <= i < name.len(),
        'A' <= name[i] <= 'Z',
    ensures
        section_of(name.update(i, ((name[i] as u32 + 32) as u32) as char)) == section_of(name),
{
    let small = ((name[i] as u32 + 32) as u32) as char;
    lemma_small_letter(name[i]);
    lemma_trimmed_alike(name, i, small);
}

proof fn lemma_small_letter(c: char)
    requires
        'A' <= c <= 'Z',
    ensures
        'a' <= ((c as u32 + 32) as u32) as char <= 'z',
        crate::text::lower(((c as u32 + 32) as u32) as char) == crate::text::lower(c),
{
}

proof fn lemma_trimmed_alike(name: Seq<char>, i: int, small: char)
    requires
        0 <= i < name.len(),
        name[i] != '/',
        small != '/',
        crate::text::lower(small) == crate::text::lower(name[i]),
    ensures
        lowered(trim_back_of(trim_front_of(name.update(i, small), '/'), '/')) == lowered(
            trim_back_of(trim_front_of(name, '/'), '/'),
        ),
    decreases name.len(),
{
    let other = name.update(i, small);
    if name[0] == '/' {
        assert(other[0] == '/');
        assert(other.skip(1) =~= name.skip(1).update(i - 1, small));
        lemma_trimmed_alike(name.skip(1), i - 1, small);
    } else {
        assert(other[0] != '/');
        lemma_back_alike(name, i, small);
    }
}

proof fn lemma_back_alike(name: Seq<char>, i: int, small: char)
    requires
        0 <= i < name.len(),
        name[i] != '/',
        small != '/',
        crate::text::lower(small) == crate::text::lower(name[i]),
    ensures
        lowered(trim_back_of(name.update(i, small), '/')) == lowered(trim_back_of(name, '/')),
    decreases name.len(),
{
    let other = name.update(i, small);
    if name.last() == '/' {
        assert(i < name.len() - 1);
        assert(other.drop_last() =~= name.drop_last().update(i, small));
        lemma_back_alike(name.drop_last(), i, small);
    } else {
        assert(other.last() != '/');
        assert(lowered(other) =~= lowered(name));
    }
}

/// Which page the arguments open: that of a settings link, up to its first `/`, `?`
/// or `#`; that behind `--section`; other arguments are passed over.
pub proof fn law_which_page_the_arguments_open(
    tag: Seq<char>,
    rest: Seq<char>,
    more: Seq<Seq<char>>,
    other: Seq<char>,
)
    requires
        forall|i: int|
            0 <= i < tag.len() ==> #[trigger] tag[i] != '/' && tag[i] != '?' && tag[i] != '#' && !(
            'A' <= tag[i] <= 'Z'),
        forall|i: int| 0 <= i < rest.len() ==> !('A' <= #[trigger] rest[i] <= 'Z'),
        rest.len() == 0 || rest[0] == '/' || rest[0] == '?' || rest[0] == '#',
        forall|i: int| 0 <= i < other.len() ==> !('A' <= #[trigger] other[i] <= 'Z'),
        other != "--section"@,
        other.len() < 20,
    ensures
        section_in(seq!["fwdslash://settings/"@ + tag + rest] + more) == section_of(tag),
        section_in(seq!["--section"@, tag] + more) == section_of(tag),
        section_in(seq![other] + more) == section_in(more),
        section_in(Seq::empty()) == Section::General,
{
    reveal_strlit("fwdslash://settings/");
    reveal_strlit("--section");
    let prefix = "fwdslash://settings/"@;
    let link = prefix + tag + rest;
    assert forall|i: int| 0 <= i < link.len() implies lowered(link)[i] == link[i] by {
        if i < 20 {
            assert(link[i] == prefix[i]);
        } else if i < 20 + tag.len() {
            assert(link[i] == tag[i - 20]);
        } else {
            assert(link[i] == rest[i - 20 - tag.len()]);
        }
    }
    assert(lowered(link) =~= link);
    assert(link.subrange(0, 20) =~= prefix);
    assert(link.skip(20) =~= tag + rest);
    lemma_link_tag(tag, rest);
    assert((seq![link] + more)[0] == link);
    let flag = "--section"@;
    assert(lowered(flag) =~= flag);
    assert((seq![flag, tag] + more)[0] == flag);
    assert((seq![flag, tag] + more)[1] == tag);
    assert(lowered(other) =~= other);
    assert((seq![other] + more)[0] == other);
    assert((seq![other] + more).skip(1) =~= more);
}

proof fn lemma_link_tag(tag: Seq<char>, rest: Seq<char>)
    requires
        forall|i: int|
            0 <= i < tag.len() ==> #[trigger] tag[i] != '/' && tag[i] != '?' && tag[i] != '#',
        rest.len() == 0 || rest[0] == '/' || rest[0] == '?' || rest[0] == '#',
    ensures
        link_tag(tag + rest) == tag,
    decreases tag.len(),
{
    let all = tag + rest;
    if tag.len() == 0 {
        assert(all =~= rest);
        assert(link_tag(all) =~= tag);
    } else {
        assert(all[0] == tag[0]);
        assert(all.skip(1) =~= tag.skip(1) + rest);
        assert forall|i: int| 0 <= i < tag.skip(1).len() implies #[trigger] tag.skip(1)[i] != '/'
            && tag.skip(1)[i] != '?' && tag.skip(1)[i] != '#' by {
            assert(tag.skip(1)[i] == tag[i + 1]);
        }
        lemma_link_tag(tag.skip(1), rest);
        assert(link_tag(all) =~= tag);
    }
}

// ---------------------------------------------------------------------------
// What the pages show
// ---------------------------------------------------------------------------

/// Which adapters are outdated, one more at a time: those that are installed with
/// another version, in order.
pub proof fn law_one_more_outdated_adapter(adapters: Seq<AdapterText>, adapter: AdapterText)
    ensures
        outdated_in(Seq::empty()) == Seq::<Integration>::empty(),
        outdated_in(adapters.push(adapter)) == if adapter.installed && adapter.outdated {
            outdated_in(adapters).push(adapter.integration)
        } else {
            outdated_in(adapters)
        },
{
    assert(adapters.push(adapter).drop_last() =~= adapters);
}

/// The row of an adapter is the first one for it.
pub proof fn law_the_row_of_an_adapter(
    adapter: AdapterText,
    adapters: Seq<AdapterText>,
    integration: Integration,
)
    ensures
        adapter_row(Seq::empty(), integration) is None,
        adapter_row(seq![adapter] + adapters, adapter.integration) == Some(adapter),
        integration != adapter.integration ==> adapter_row(seq![adapter] + adapters, integration)
            == adapter_row(adapters, integration),
{
    let all = seq![adapter] + adapters;
    assert(all[0] == adapter);
    assert(all.skip(1) =~= adapters);
}

/// Where the pinned distribution stands: at the first name that is the same but for
/// case; the picker counts from one, and shows the first entry where nothing is
/// pinned or the pin is gone. What `/` opens follows the picker.
pub proof fn law_where_the_pin_stands(state: StateText, k: int)
    requires
        state.pinned.len() > 0,
        0 <= k < state.distributions.len(),
        folds_alike(state.distributions[k], state.pinned),
        forall|i: int|
            0 <= i < k ==> !folds_alike(#[trigger] state.distributions[i], state.pinned),
    ensures
        state.distribution_index() == k + 1,
        state.effective_distribution() == Some(state.distributions[k]),
{
    lemma_pin_index(state.distributions, state.pinned, k);
}

proof fn lemma_pin_index(names: Seq<Seq<char>>, pinned: Seq<char>, k: int)
    requires
        0 <= k < names.len(),
        folds_alike(names[k], pinned),
        forall|i: int| 0 <= i < k ==> !folds_alike(#[trigger] names[i], pinned),
    ensures
        pin_index(names, pinned) == Some(k),
    decreases names.len(),
{
    if k > 0 {
        let rest = names.skip(1);
        assert(rest[k - 1] == names[k]);
        assert forall|i: int| 0 <= i < k - 1 implies !folds_alike(#[trigger] rest[i], pinned) by {
            assert(rest[i] == names[i + 1]);
        }
        lemma_pin_index(rest, pinned, k - 1);
    }
}

/// Without a pin that is registered, WSL's own default is what `/` opens.
pub proof fn law_without_a_pin_the_default_opens(state: StateText)
    requires
        state.pinned.len() == 0 || forall|i: int|
            0 <= i < state.distributions.len() ==> !folds_alike(
                #[trigger] state.distributions[i],
                state.pinned,
            ),
    ensures
        state.distribution_index() == 0,
        state.effective_distribution() == state.wsl_default,
{
    if state.pinned.len() > 0 {
        lemma_no_pin_index(state.distributions, state.pinned);
    }
}

proof fn lemma_no_pin_index(names: Seq<Seq<char>>, pinned: Seq<char>)
    requires
        forall|i: int| 0 <= i < names.len() ==> !folds_alike(#[trigger] names[i], pinned),
    ensures
        pin_index(names, pinned) is None,
    decreases names.len(),
{
    if names.len() > 0 {
        let rest = names.skip(1);
        assert forall|i: int| 0 <= i < rest.len() implies !folds_alike(#[trigger] rest[i], pinned) by {
            assert(rest[i] == names[i + 1]);
        }
        assert(!folds_alike(names[0], pinned));
        lemma_no_pin_index(rest, pinned);
    }
}

/// What the caption says `/` opens: the custom root where there is one, else the
/// effective distribution's share, else that there is none.
pub proof fn law_what_the_caption_says(state: StateText, root: Seq<char>, name: Seq<char>)
    ensures
        state.root == Some(root) ==> state.caption() == "/ opens "@ + root,
        state.root is None && state.effective_distribution() == Some(name) ==> state.caption()
            == "/ opens "@ + r"\\wsl.localhost\"@ + name,
        state.root is None && state.effective_distribution() is None ==> state.caption()
            == "No WSL distribution is available for / yet."@,
{
    reveal_strlit(r"\\wsl.localhost\");
    reveal_strlit(r"\\wsl.localhost");
    reveal_strlit("\\");
    assert(r"\\wsl.localhost"@ + "\\"@ =~= r"\\wsl.localhost\"@);
    if state.root is None && state.effective_distribution() == Some(name) {
        assert(state.caption() =~= "/ opens "@ + r"\\wsl.localhost\"@ + name);
    }
}

/// What the status says of the broker and of the driver.
pub proof fn law_what_the_status_says(state: StateText)
    ensures
        ({
            let broker = if !state.windows {
                "not installed"@
            } else if state.broker == BrokerState::Active {
                "active"@
            } else if state.broker == BrokerState::Paused {
                "disabled"@
            } else if state.broker_window {
                "hook unavailable"@
            } else {
                "stopped"@
            };
            let driver = if state.driver == DriverStatus::NotInstalled {
                "not installed"@
            } else if state.driver == DriverStatus::InstalledNotLoaded {
                "installed, not loaded"@
            } else if state.driver == DriverStatus::LoadedNotConnected {
                "loaded, not connected"@
            } else {
                "connected"@
            };
            state.status() == "Windows broker: "@ + broker + "\nFilesystem driver: "@ + driver
        }),
{
}

/// The general page shows the state: the main switch is on where resolution is, the
/// choices follow the mode and the folder, the picker lists the distributions behind
/// one more entry, and the update card is there for a packaged build only.
pub proof fn law_the_general_page_shows_the_state(model: ModelText, now: u64)
    ensures
        ({
            let page = general_page(model, now);
            let folder = model.state.root is Some || model.folder_selected;
            let list = model.state.bare_mode == BareSlashMode::DistributionList;
            &&& page.enabled == (model.pending is None)
            &&& page.resolution_on == !model.state.disabled
            &&& page.folder_checked == folder
            &&& page.list_checked == (list && !folder)
            &&& page.default_checked == (!list && !folder)
            &&& page.picker is Some ==> {
                &&& page.picker->Some_0.options.len() == model.state.distributions.len() + 1
                &&& page.picker->Some_0.options.skip(1) == model.state.distributions
                &&& page.picker->Some_0.index == model.state.distribution_index()
            }
            &&& page.folder is Some ==> page.folder->Some_0 == model.root_draft
            &&& page.auto_update is Some == model.state.packaged
            &&& page.auto_update is Some ==> page.auto_update->Some_0.is_on
                == model.state.auto_update
            &&& page.check_now == model.state.packaged
        }),
{
    let options = seq!["Follow the Windows default"@] + model.state.distributions;
    assert(options.skip(1) =~= model.state.distributions);
}

/// A row of the terminals page is on where its integration is there, and can be
/// switched while nothing is in flight; PowerShell 7 only where it is installed or
/// its adapter is, and the Windows surfaces only outside a package.
pub proof fn law_the_rows_show_their_integrations(model: ModelText, integration: Integration)
    ensures
        terminal_row(model, integration).is_on == model.state.has(integration),
        terminal_row(model, integration).integration == integration,
        row_enabled(model, Integration::Cmd) == (model.pending is None),
        row_enabled(model, Integration::WindowsPowerShell) == (model.pending is None),
        row_enabled(model, Integration::Windows) == (model.pending is None
            && !model.state.packaged),
        row_enabled(model, Integration::PowerShell7) == (model.pending is None && (
        model.state.powershell7_available || model.state.has(Integration::PowerShell7))),
{
}

/// The names of the upgraded adapters are told one behind the other.
pub proof fn law_one_more_upgraded_name(done: Seq<Integration>, next: Integration)
    ensures
        names_listed(Seq::empty()) == Seq::<char>::empty(),
        names_listed(seq![next]) == next.display_text(),
        done.len() > 0 ==> names_listed(done.push(next)) == names_listed(done) + seq![',', ' ']
            + next.display_text(),
{
    reveal_strlit(", ");
    assert(", "@ =~= seq![',', ' ']);
    assert(done.push(next).drop_last() =~= done);
}

/// A state that was read again takes the place of the one before it, and nothing
/// else of the window changes but the count of reads and the start of an upgrade.
pub proof fn law_a_state_that_was_read_is_shown(model: ModelText, state: StateText)
    ensures
        state_refreshed(model, state).0.state == state,
        state_loaded(model, state).0.state == state,
        launch_sweep_finished(model, state).0.state == state,
        !launch_sweep_finished(model, state).0.sweep_held,
        state_refreshed(model, state).0.section == model.section,
        state_refreshed(model, state).0.notice == model.notice,
        state_refreshed(model, state).0.pending == model.pending,
        state_refreshed(model, state).0.root_draft == model.root_draft,
        state_loaded(model, state).0.notice == model.notice,
        state_loaded(model, state).0.pending == model.pending,
{
    reveal(state_refreshed);
    reveal(state_loaded);
    reveal(launch_sweep_finished);
}

/// What the window shows is what was read: each part of the state comes from its own
/// reading.
pub proof fn law_the_state_comes_from_its_readings(readings: Readings)
    ensures
        ({
            let state = state_from(readings);
            &&& state.packaged == (readings.full_name is Some)
            &&& state.windows == (readings.full_name is Some || readings.run_value_present)
            &&& state.disabled == stored_disabled(readings.stored)
            &&& state.bare_mode == stored_mode(readings.stored)
            &&& state.root == stored_root(readings.stored)
            &&& state.update_tag == stored_tag(readings.stored)
            &&& stored_pin(readings.stored) is Some ==> state.pinned == stored_pin(
                readings.stored,
            )->Some_0
            &&& stored_pin(readings.stored) is None ==> state.pinned.len() == 0
            &&& readings.lxss is Some ==> state.distributions == valid_names(
                strings_text(readings.lxss->Some_0.names@),
            )
            &&& readings.lxss is None ==> state.distributions.len() == 0
            &&& readings.broker_answer == Some(1isize) ==> state.broker == BrokerState::Active
            &&& readings.broker_answer == Some(2isize) ==> state.broker == BrokerState::Paused
            &&& readings.broker_answer is None ==> state.broker == BrokerState::Unavailable
            &&& state.broker_window == readings.broker_window
            &&& state.powershell7_available == readings.powershell7_available
            &&& state.update_bundle_ready == readings.bundle_exists
            &&& readings.port_available ==> state.driver == DriverStatus::Connected
            &&& !readings.port_available && readings.service == FilterServiceState::Running
                ==> state.driver == DriverStatus::LoadedNotConnected
            &&& !readings.port_available && readings.service == FilterServiceState::Stopped
                ==> state.driver == DriverStatus::InstalledNotLoaded
            &&& !readings.port_available && readings.service == FilterServiceState::NotInstalled
                ==> state.driver == DriverStatus::NotInstalled
            &&& state.has(Integration::Cmd) == is_installed(readings.cmd)
            &&& state.has(Integration::WindowsPowerShell) == is_installed(
                readings.windows_powershell,
            )
            &&& state.has(Integration::PowerShell7) == is_installed(readings.powershell)
            &&& state.has(Integration::Windows) == state.windows
        }),
{
    reveal_with_fuel(adapter_row, 4);
    let state = state_from(readings);
    let rows = state.adapters;
    assert(rows.skip(1)[0] == rows[1]);
    assert(rows.skip(1).skip(1)[0] == rows[2]);
}

/// An adapter counts as outdated exactly where it is installed with another version
/// than this one, or with none recorded.
pub proof fn law_which_adapters_are_outdated(integration: Integration, marker: AdapterMarker)
    ensures
        ({
            let reading = adapter_reading(integration, Some(&marker));
            &&& reading.integration == integration
            &&& reading.installed == is_installed(Some(&marker))
            &&& is_installed(Some(&marker)) && marker.version is None ==> reading.outdated
            &&& is_installed(Some(&marker)) && marker.version is Some ==> reading.outdated == (
            marker.version->Some_0@ != FSW_VERSION@)
            &&& !is_installed(Some(&marker)) ==> !reading.outdated
            &&& !adapter_reading(integration, None).installed
            &&& !adapter_reading(integration, None).outdated
        }),
{
}

/// How the window starts: it asks for the broker, for updates only in a packaged
/// build that updates on its own, starts its watch, and brings outdated adapters up
/// to date first, where there are any, and looks for repairs where there are none.
pub proof fn law_how_the_window_starts(section: Section, state: StateText)
    ensures
        ({
            let (model, effects) = created(section, state);
            let check = if state.packaged && state.auto_update {
                seq![EffectText::CheckForUpdates { force: false }]
            } else {
                Seq::<EffectText>::empty()
            };
            let sweep = if outdated_in(state.adapters).len() > 0 {
                SweepUse::Launch
            } else {
                SweepUse::Repair
            };
            &&& effects == seq![EffectText::ProbeBroker] + check + seq![
                EffectText::StartStateWatch,
                EffectText::ArmStateWatch,
                EffectText::AcquireSweepLock(sweep),
            ]
            &&& model.section == section && model.state == state
            &&& model.notice is None && model.pending is None && model.upgrade is None
            &&& model.root_draft == Seq::<char>::empty() && !model.folder_selected
        }),
{
    let (model, effects) = created(section, state);
    let check = if state.packaged && state.auto_update {
        seq![EffectText::CheckForUpdates { force: false }]
    } else {
        Seq::<EffectText>::empty()
    };
    let sweep = if outdated_in(state.adapters).len() > 0 {
        SweepUse::Launch
    } else {
        SweepUse::Repair
    };
    assert(effects =~= seq![EffectText::ProbeBroker] + check + seq![
        EffectText::StartStateWatch,
        EffectText::ArmStateWatch,
        EffectText::AcquireSweepLock(sweep),
    ]);
}

/// An upgrade asks the controller for one adapter after the other, to be enabled
/// again.
pub proof fn law_an_upgrade_enables_its_adapter(model: ModelText)
    requires
        outdated_in(model.state.adapters).len() > 0,
    ensures
        ({
            let first = outdated_in(model.state.adapters)[0];
            let after = turn(model, Msg::SweepLock { purpose: SweepUse::Upgrade, taken: true });
            &&& after.1 == seq![
                EffectText::Controller {
                    action: "Terminal integration upgrade"@,
                    terminal: true,
                    arguments: seq!["integration"@, first.id_text(), "enable"@],
                },
            ]
            &&& after.0.sweep_held
            &&& turn(model, Msg::SweepLock { purpose: SweepUse::Upgrade, taken: false }) == (
                model,
                Seq::<EffectText>::empty(),
            )
        }),
{
    reveal(sweep_answer);
}

/// What the component list says: the broker, the driver, the three adapters, the
/// package, the flavor and the last check, in this order, and the update where one
/// is recorded, without the `v` of its tag.
pub proof fn law_what_the_component_list_says(
    model: ModelText,
    package: Seq<char>,
    now: u64,
    version: Seq<char>,
)
    ensures
        ({
            let lines = component_lines(model, package, now);
            let count: int = if model.state.update_tag is Some {
                9
            } else {
                8
            };
            &&& lines.len() == count
            &&& lines[0] == model.state.broker_line()
            &&& lines[1] == "Filesystem driver: "@ + model.state.driver.label_text()
            &&& lines[2] == model.state.adapter_line(Integration::Cmd)
            &&& lines[3] == model.state.adapter_line(Integration::WindowsPowerShell)
            &&& lines[4] == model.state.adapter_line(Integration::PowerShell7)
            &&& lines[5] == "Package: "@ + package
            &&& !model.state.packaged ==> lines[6] == "Flavor: unpackaged"@
            &&& model.state.packaged && model.state.store_flavor ==> lines[6]
                == "Flavor: Microsoft Store"@
            &&& model.state.packaged && !model.state.store_flavor ==> lines[6] == "Flavor: GitHub"@
            &&& lines[7] == "Last update check: "@ + crate::update::last_check_text(
                now,
                model.state.last_check,
            )
            &&& model.state.update_tag == Some(seq!['v'] + version) ==> lines[8]
                == "Update available: "@ + version
        }),
{
    assert((seq!['v'] + version).skip(1) =~= version);
}

/// What is told of the adapters: their payload's version, and what becomes of an
/// outdated one.
pub proof fn law_what_is_told_of_an_adapter(
    state: StateText,
    integration: Integration,
    row: AdapterText,
    version: Seq<char>,
)
    requires
        adapter_row(state.adapters, integration) == Some(row),
        row.version == Some(version),
    ensures
        !row.installed ==> state.adapter_detail(integration) is None,
        !row.installed ==> state.adapter_line(integration) == integration.display_text()
            + " adapter: not installed"@,
        row.installed && !row.outdated ==> state.adapter_detail(integration) == Some(
            "Installed payload "@ + version,
        ),
        row.installed && !row.outdated ==> state.adapter_line(integration)
            == integration.display_text() + " adapter: "@ + version,
        row.installed && row.outdated ==> state.adapter_line(integration)
            == integration.display_text() + " adapter: "@ + version + " (update pending)"@,
{
}

/// What is told of the broker.
pub proof fn law_what_is_told_of_the_broker(state: StateText)
    ensures
        state.broker == BrokerState::Active ==> state.broker_line() == "Broker: active"@,
        state.broker == BrokerState::Paused ==> state.broker_line() == "Broker: paused"@,
        state.broker == BrokerState::Unavailable && state.broker_window ==> state.broker_line()
            == "Broker: hook unavailable"@,
        state.broker == BrokerState::Unavailable && !state.broker_window ==> state.broker_line()
            == "Broker: stopped"@,
{
}

/// What is told at the end of an upgrade: an error where any adapter failed, else
/// the names of those that were upgraded.
pub proof fn law_what_is_told_of_an_upgrade(done: Seq<Integration>, failed: bool)
    ensures
        upgrade_notice(done, true).severity == InfoBarSeverity::Error,
        upgrade_notice(done, false) == (NoticeText {
            severity: InfoBarSeverity::Success,
            title: "Terminal integrations updated"@,
            message: if done.len() == 1 {
                names_listed(done) + " is now on "@ + FSW_VERSION@
            } else {
                names_listed(done) + " are now on "@ + FSW_VERSION@
            },
            action: None,
        }),
{
}

/// What is told of a repair.
pub proof fn law_what_is_told_of_a_repair(model: ModelText, detail: String)
    requires
        detail@.len() > 0,
        !is_white(detail@[0]),
        !is_white(detail@.last()),
    ensures
        ({
            let done = turn(model, Msg::RepairFinished(RepairOutcome::Repaired)).0.notice->Some_0;
            let busy = turn(model, Msg::RepairFinished(RepairOutcome::Busy)).0.notice->Some_0;
            let failed = turn(
                model,
                Msg::RepairFinished(RepairOutcome::Failed(detail)),
            ).0.notice->Some_0;
            &&& done.severity == InfoBarSeverity::Success
            &&& busy.severity == InfoBarSeverity::Informational
            &&& failed.severity == InfoBarSeverity::Error
            &&& failed.message == detail@
        }),
{
    reveal(repair_finished);
    let nothing = Seq::<char>::empty();
    law_trimming_takes_the_ends(nothing, detail@, nothing);
    assert(nothing + detail@ + nothing =~= detail@);
}

/// What the update notice says: the version without the `v` of its tag, and how it
/// is installed.
pub proof fn law_what_the_update_notice_says(model: ModelText, version: Seq<char>, explicit: bool)
    ensures
        ({
            let notice = check_finished(
                model,
                OutcomeText::Ready(seq!['v'] + version),
                explicit,
            ).0.notice;
            &&& notice is Some
            &&& notice->Some_0.message == "Version "@ + version + (if model.state.store_flavor {
                " is available in the Microsoft Store. Install it now, or let the Store install it on its own schedule."@
            } else {
                " was downloaded. It applies after you sign out and back in, or restart Forward Slash Windows now."@
            })
        }),
{
    reveal(check_finished);
    assert((seq!['v'] + version).skip(1) =~= version);
}

/// What the package line says: the package's own version and architecture, and
/// without a package this build's version and the processor's.
pub proof fn law_what_the_package_line_says(full: &str, processor: Seq<char>)
    ensures
        package_text(None, processor) == FSW_VERSION@ + " ("@ + processor + ")"@,
        crate::package::version_text(full@) is Some ==> package_text(Some(full), processor)
            == crate::package::version_text(full@)->Some_0 + " ("@
            + crate::package::architecture_text(full@)->Some_0 + ")"@,
{
    if crate::package::version_text(full@) is Some {
        assert(crate::package::fields_of(full@).len() >= 4);
    }
}

} // verus!
