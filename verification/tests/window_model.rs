//! The settings window's model and pages on concrete values.

use fwdslash::exit_watchdog::{ExitWatchdog, TickAction, EXIT_GRACE_TICKS, STARTUP_GRACE_TICKS};
use fwdslash::instance::{
    is_settings_image, raise_step, startup, Hold, MutexAnswer, RaiseStep, Startup, SweepLock,
    ACTIVATION_POLLS,
};
use fwdslash::package::FSW_VERSION;
use fwdslash::path::BareSlashMode;
use fwdslash::settings::LxssValues;
use fwdslash::settings_write::StoredSettings;
use fwdslash::state_watch::{wake_for, window_visible, Wake};
use fwdslash::system::{
    broker_needs_start, broker_state, filter_service_state, AdapterMarker, BrokerState,
    FilterServiceState,
};
use fwdslash::tray::{
    install_needed, menu_choice, tray_action, TrayAction, MENU_EXIT, MENU_SHOW, TRAY_MESSAGE,
    WM_CLOSE, WM_LBUTTONUP, WM_RBUTTONUP,
};
use fwdslash::update::UpdateOutcome;
use fwdslash::update_reply::InfoBarSeverity;
use fwdslash::window_model::{
    check_arguments, install_arguments, repair_outcome, Effect, Msg, RepairOutcome, SettingsModel,
    SweepUse, CHECK_ACTION, ROOT_ACTION, UPGRADE_ACTION,
};
use fwdslash::window_state::{
    initial_section, AdapterStatus, DriverStatus, Integration, Readings, Section, State,
};
use fwdslash::window_view::package_label;

const FULL_NAME: &str = "32827MikeFara.fwdslash_0.0.4.0_x64__t6j5qexy2jpp2";

fn state() -> State {
    State {
        disabled: false,
        packaged: true,
        windows: true,
        adapters: vec![
            adapter(Integration::Cmd, false, None),
            adapter(Integration::WindowsPowerShell, false, None),
            adapter(Integration::PowerShell7, false, None),
        ],
        powershell7_available: false,
        bare_mode: BareSlashMode::DefaultDistribution,
        pinned: String::new(),
        root: None,
        store_flavor: false,
        auto_update: true,
        update_tag: None,
        last_check: None,
        distributions: vec!["Ubuntu".to_string(), "Debian".to_string()],
        wsl_default: Some("Ubuntu".to_string()),
        broker: BrokerState::Active,
        broker_window: true,
        driver: DriverStatus::NotInstalled,
        update_bundle_ready: false,
    }
}

fn adapter(integration: Integration, installed: bool, version: Option<&str>) -> AdapterStatus {
    AdapterStatus {
        integration,
        installed,
        version: version.map(str::to_string),
        outdated: installed && version != Some(FSW_VERSION),
    }
}

fn outdated() -> State {
    State {
        adapters: vec![
            adapter(Integration::Cmd, true, Some("0.0.1")),
            adapter(Integration::WindowsPowerShell, true, Some(FSW_VERSION)),
            adapter(Integration::PowerShell7, true, None),
        ],
        ..state()
    }
}

fn model() -> SettingsModel {
    SettingsModel::create(Section::General, state()).0
}

fn controller(action: &'static str, terminal: bool, arguments: &[&str]) -> Effect {
    Effect::Controller {
        action,
        terminal,
        arguments: arguments.iter().map(|word| (*word).to_string()).collect(),
    }
}

fn finished(action: &'static str, succeeded: bool) -> Msg {
    Msg::ControllerFinished {
        action,
        terminal: false,
        succeeded,
        detail: String::new(),
    }
}

#[test]
fn a_launch_starts_the_watch_and_a_sweep() {
    let (model, effects) = SettingsModel::create(Section::About, state());
    assert_eq!(
        effects,
        vec![
            Effect::ProbeBroker,
            Effect::CheckForUpdates { force: false },
            Effect::StartStateWatch,
            Effect::ArmStateWatch,
            Effect::AcquireSweepLock(SweepUse::Repair),
        ]
    );
    assert!(model.is_selected(Section::About));
    assert!(model.controls_enabled());
    let quiet = State {
        auto_update: false,
        ..state()
    };
    let (_, effects) = SettingsModel::create(Section::About, quiet);
    assert!(!effects.contains(&Effect::CheckForUpdates { force: false }));
    let (_, effects) = SettingsModel::create(Section::General, outdated());
    assert_eq!(effects.last(), Some(&Effect::AcquireSweepLock(SweepUse::Launch)));
}

#[test]
fn an_upgrade_visits_every_outdated_adapter_and_reports_once() {
    let (mut model, _) = SettingsModel::create(Section::General, outdated());
    let effects = model.update(Msg::SweepLock {
        purpose: SweepUse::Launch,
        taken: true,
    });
    assert_eq!(
        effects,
        vec![controller(UPGRADE_ACTION, true, &["integration", "cmd", "enable"])]
    );
    assert_eq!(
        model.banners().and_then(|banners| banners.upgrade),
        Some(format!("Command Prompt adapter \u{2192} {FSW_VERSION}"))
    );
    let effects = model.update(finished(UPGRADE_ACTION, true));
    assert_eq!(
        effects,
        vec![controller(UPGRADE_ACTION, true, &["integration", "powershell", "enable"])]
    );
    assert!(model.notice.is_none());
    let effects = model.update(finished(UPGRADE_ACTION, true));
    assert_eq!(effects, vec![Effect::LaunchRepair, Effect::Refresh]);
    let notice = model.notice.clone().expect("a report");
    assert_eq!(notice.title, "Terminal integrations updated");
    assert_eq!(
        notice.message,
        format!("Command Prompt, PowerShell 7 are now on {FSW_VERSION}")
    );
    // A state that is still outdated does not start it again.
    assert_eq!(model.update(Msg::StateLoaded(outdated())), Vec::new());
    let effects = model.update(Msg::LaunchSweepFinished(outdated()));
    assert_eq!(effects, vec![Effect::ReleaseSweepLock]);
}

#[test]
fn a_failed_step_makes_the_report_an_error() {
    let (mut model, _) = SettingsModel::create(Section::General, outdated());
    model.update(Msg::SweepLock {
        purpose: SweepUse::Launch,
        taken: true,
    });
    model.update(finished(UPGRADE_ACTION, false));
    model.update(finished(UPGRADE_ACTION, true));
    let notice = model.notice.clone().expect("a report");
    assert_eq!(notice.severity, InfoBarSeverity::Error);
    assert_eq!(notice.title, "Some terminal integrations could not be updated");
}

#[test]
fn a_held_lock_means_that_somebody_else_sweeps() {
    let (mut model, _) = SettingsModel::create(Section::General, outdated());
    let effects = model.update(Msg::SweepLock {
        purpose: SweepUse::Launch,
        taken: false,
    });
    assert_eq!(effects, vec![Effect::AcquireSweepLock(SweepUse::Repair)]);
    let effects = model.update(Msg::SweepLock {
        purpose: SweepUse::Repair,
        taken: false,
    });
    assert_eq!(effects, Vec::new());
}

#[test]
fn echoes_change_nothing() {
    let mut model = model();
    for message in [
        Msg::Navigate(None),
        Msg::Navigate(Some("general".to_string())),
        Msg::ToggleGlobal(true),
        Msg::BareSlashListChecked(false),
        Msg::BareSlashDefaultChecked(true),
        Msg::SelectDistribution(None),
        Msg::SelectDistribution(Some(0)),
        Msg::SelectDistribution(Some(3)),
        Msg::ToggleIntegration(Integration::Cmd, false),
        Msg::SetAutoUpdate(true),
    ] {
        assert_eq!(model.update(message), Vec::new());
        assert!(model.controls_enabled());
    }
}

#[test]
fn controls_start_the_controller_and_wait_for_it() {
    let mut model = model();
    assert_eq!(
        model.update(Msg::ToggleGlobal(false)),
        vec![controller("Resolution disabled", false, &["disable"])]
    );
    assert!(!model.controls_enabled());
    assert_eq!(model.update(Msg::CheckForUpdates), Vec::new());
    assert_eq!(model.update(Msg::InstallUpdate), Vec::new());
    assert_eq!(
        model.update(finished("Resolution disabled", true)),
        vec![Effect::Refresh]
    );
    assert_eq!(
        model.notice.as_ref().map(|notice| notice.message.as_str()),
        Some("Resolution disabled")
    );
    assert_eq!(
        model.update(Msg::ToggleIntegration(Integration::Cmd, true)),
        vec![controller(
            "Command Prompt installed",
            true,
            &["integration", "cmd", "enable"]
        )]
    );
    model.update(Msg::ControllerFinished {
        action: "Command Prompt installed",
        terminal: true,
        succeeded: false,
        detail: " blocked \n".to_string(),
    });
    assert_eq!(
        model.notice.as_ref().map(|notice| notice.message.as_str()),
        Some("Command Prompt installed failed. Existing settings were left in place. blocked")
    );
    assert_eq!(
        model.update(Msg::SelectDistribution(Some(2))),
        vec![controller(
            "Bare slash default updated",
            false,
            &["bare-slash", "default", "Debian"]
        )]
    );
}

#[test]
fn a_root_is_checked_before_it_is_applied() {
    let mut model = model();
    assert_eq!(model.update(Msg::FolderRadioChecked(true)), vec![Effect::Refresh]);
    assert!(model.view_general(0).folder_checked);
    model.update(Msg::RootTextChanged("relative".to_string()));
    assert_eq!(model.update(Msg::ApplyRoot), Vec::new());
    assert_eq!(
        model.notice.as_ref().map(|notice| notice.title),
        Some("Could not set the folder root")
    );
    model.update(Msg::RootTextChanged(r" C:\code ".to_string()));
    assert_eq!(
        model.update(Msg::ApplyRoot),
        vec![controller(ROOT_ACTION, false, &["bare-slash", "root", r"C:\code"])]
    );
    model.update(finished(ROOT_ACTION, true));
    assert!(!model.folder_selected);
    assert_eq!(model.update(Msg::BrowseRoot), vec![Effect::PickFolder]);
    assert_eq!(model.update(Msg::FolderPicked(None)), Vec::new());
    assert_eq!(
        model.update(Msg::FolderPicked(Some(r"D:\x".to_string()))),
        vec![controller(ROOT_ACTION, false, &["bare-slash", "root", r"D:\x"])]
    );
    assert_eq!(
        model.update(Msg::BareSlashListChecked(true)),
        vec![controller(
            "Bare slash shows all distributions",
            false,
            &["bare-slash", "list"]
        )]
    );
}

#[test]
fn checks_that_were_asked_for_report() {
    let mut model = model();
    assert_eq!(
        model.update(Msg::CheckForUpdates),
        vec![Effect::CheckForUpdates { force: true }]
    );
    assert_eq!(model.pending, Some(CHECK_ACTION));
    model.update(Msg::UpdateCheckFinished {
        outcome: UpdateOutcome::UpToDate,
        explicit: true,
    });
    assert!(model.controls_enabled());
    assert_eq!(model.notice.as_ref().map(|notice| notice.title), Some("Up to date"));
    model.update(Msg::DismissNotice);
    assert!(model.notice.is_none());
    // A check nobody asked for is silent unless it found a release.
    model.update(Msg::UpdateCheckFinished {
        outcome: UpdateOutcome::Unavailable,
        explicit: false,
    });
    assert!(model.notice.is_none());
    model.update(Msg::UpdateCheckFinished {
        outcome: UpdateOutcome::Ready("v0.0.5".to_string()),
        explicit: false,
    });
    assert_eq!(
        model.notice.as_ref().map(|notice| notice.message.as_str()),
        Some(
            "Version 0.0.5 was downloaded. It applies after you sign out and back in, or \
             restart Forward Slash Windows now."
        )
    );
    assert_eq!(model.update(Msg::DismissNotice), vec![Effect::DismissUpdate]);
}

#[test]
fn only_the_update_notice_clears_what_was_recorded() {
    let mut model = model();
    model.update(Msg::UpdateCheckFinished {
        outcome: UpdateOutcome::Ready("v0.0.5".to_string()),
        explicit: false,
    });
    assert!(model.notice_is_update);
    model.update(Msg::RefreshStatus);
    assert_eq!(model.update(Msg::DismissNotice), Vec::new());
}

#[test]
fn an_install_closes_the_window_or_explains() {
    let mut model = model();
    assert_eq!(model.update(Msg::InstallUpdate), vec![Effect::InstallUpdate]);
    assert_eq!(
        model.update(Msg::UpdateInstallFinished {
            code: 0,
            stderr: String::new(),
        }),
        vec![Effect::RequestClose]
    );
    assert_eq!(
        model.update(Msg::UpdateInstallFinished {
            code: 11,
            stderr: String::new(),
        }),
        vec![Effect::Refresh]
    );
    assert!(model.banners().is_some_and(|banners| banners.notice_action.is_some()));
    assert_eq!(model.update(Msg::OpenStorePage), vec![Effect::OpenStorePage]);
    model.update(Msg::ShellOpenFinished {
        action: "Opening the Microsoft Store",
        succeeded: false,
    });
    assert_eq!(
        model.notice.as_ref().map(|notice| notice.message.as_str()),
        Some("Opening the Microsoft Store failed. Existing settings were left in place.")
    );
}

#[test]
fn a_repair_reports_what_it_did() {
    let mut model = model();
    assert_eq!(model.update(Msg::RepairIntegrations), vec![Effect::Repair]);
    for (outcome, title, message) in [
        (
            repair_outcome(Some(0), String::new()),
            "Integrations repaired",
            "Terminal integrations were checked and brought up to date. Reopen affected \
             terminals.",
        ),
        (
            repair_outcome(None, String::new()),
            "Integrations are already being updated",
            "A background update of the terminal integrations is running. Try again in a \
             moment.",
        ),
        (
            repair_outcome(Some(1), " no \n".to_string()),
            "Could not repair integrations",
            "no",
        ),
        (
            RepairOutcome::Failed("  ".to_string()),
            "Could not repair integrations",
            "The integrations could not be repaired.",
        ),
    ] {
        assert_eq!(model.update(Msg::RepairFinished(outcome)), vec![Effect::Refresh]);
        let notice = model.notice.clone().expect("a notice");
        assert_eq!((notice.title, notice.message.as_str()), (title, message));
    }
}

#[test]
fn external_changes_are_read_one_at_a_time() {
    let mut model = model();
    let wake = |wake, visible| Msg::ExternalStateChanged { wake, visible };
    assert_eq!(model.update(wake(Wake::Poll, false)), vec![Effect::ArmStateWatch]);
    assert_eq!(
        model.update(wake(Wake::Broadcast, false)),
        vec![Effect::ArmStateWatch, Effect::ReadExternalState]
    );
    assert_eq!(model.update(wake(Wake::Broadcast, true)), vec![Effect::ArmStateWatch]);
    assert_eq!(
        model.update(Msg::StateRefreshed(state())),
        vec![Effect::ReadExternalState]
    );
    assert_eq!(model.update(Msg::StateRefreshed(state())), Vec::new());
    // A changed state is taken, and an outdated adapter in it is repaired.
    assert_eq!(
        model.update(Msg::StateRefreshed(outdated())),
        vec![Effect::AcquireSweepLock(SweepUse::Upgrade)]
    );
    assert!(model.state.installed(Integration::Cmd));
}

#[test]
fn the_general_page_shows_one_choice() {
    let mut model = model();
    let page = model.view_general(0);
    assert!(page.default_checked && !page.list_checked && !page.folder_checked);
    let picker = page.picker.expect("a picker");
    assert_eq!(picker.options, vec!["Follow the Windows default", "Ubuntu", "Debian"]);
    assert_eq!(picker.index, 0);
    assert_eq!(picker.caption, r"/ opens \\wsl.localhost\Ubuntu");
    assert_eq!(
        page.status,
        "Windows broker: active\nFilesystem driver: not installed"
    );
    assert_eq!(
        page.auto_update.map(|card| card.detail),
        Some("Last update check: never".to_string())
    );
    model.state.bare_mode = BareSlashMode::DistributionList;
    let page = model.view_general(0);
    assert!(page.list_checked && page.picker.is_none());
    model.state.root = Some(r"C:\code".to_string());
    let page = model.view_general(0);
    assert!(page.folder_checked && !page.list_checked && page.folder.is_some());
    model.state.packaged = false;
    let page = model.view_general(0);
    assert!(page.auto_update.is_none() && !page.check_now);
}

#[test]
fn the_other_pages() {
    let mut model = model();
    model.state.adapters[0] = adapter(Integration::Cmd, true, Some("0.0.1"));
    let page = model.view_windows();
    assert!(page.is_on && !page.enabled && page.managed);
    let (rows, repair) = model.view_terminals();
    assert!(repair);
    assert_eq!(
        rows[0].detail,
        Some(format!("Installed payload 0.0.1 \u{2014} updating to {FSW_VERSION}"))
    );
    assert!(rows[0].is_on && rows[0].enabled);
    assert!(!rows[2].enabled);
    assert_eq!(rows[2].description, "PowerShell 7 is not installed on this computer.");
    let (subtitle, lines) = model.view_about(Some(FULL_NAME), "AMD64", 0);
    assert_eq!(subtitle, "Forward Slash Windows 0.0.4.0 (x64)");
    assert_eq!(
        lines,
        vec![
            "Broker: active",
            "Filesystem driver: not installed",
            "Command Prompt adapter: 0.0.1 (update pending)",
            "Windows PowerShell adapter: not installed",
            "PowerShell 7 adapter: not installed",
            "Package: 0.0.4.0 (x64)",
            "Flavor: GitHub",
            "Last update check: never",
        ]
    );
    assert_eq!(package_label(None, "AMD64"), format!("{FSW_VERSION} (AMD64)"));
    assert!(model.banners().is_none());
    model.state.update_tag = Some("v0.0.5".to_string());
    assert_eq!(
        model.banners().and_then(|banners| banners.install),
        Some("Restart to update")
    );
    let (_, lines) = model.view_about(None, "AMD64", 0);
    assert_eq!(lines.last().map(String::as_str), Some("Update available: 0.0.5"));
}

#[test]
fn the_state_is_what_the_machine_answered() {
    let stored = StoredSettings {
        disabled: Some(1),
        bare_slash_mode: Some(1),
        bare_slash_distribution: Some("debian".to_string()),
        available_update: Some("v0.0.5".to_string()),
        ..StoredSettings::default()
    };
    let lxss = LxssValues {
        names: vec!["Ubuntu".to_string(), "Debian".to_string()],
        default_name: Some("Ubuntu".to_string()),
    };
    let marker = AdapterMarker {
        state: Some("installed".to_string()),
        version: None,
    };
    let state = State::read(&Readings {
        stored: Some(&stored),
        lxss: Some(&lxss),
        full_name: Some(FULL_NAME),
        run_value_present: false,
        cmd: Some(&marker),
        windows_powershell: None,
        powershell: None,
        powershell7_available: true,
        broker_answer: None,
        broker_window: true,
        port_available: false,
        service: FilterServiceState::Running,
        bundle_exists: true,
    });
    assert!(state.disabled && state.packaged && state.windows && state.store_flavor);
    assert!(!state.auto_update, "off by default for the Store");
    assert_eq!(state.outdated_adapters(), vec![Integration::Cmd]);
    assert_eq!(state.distribution_index(), 2);
    assert_eq!(state.effective_distribution(), Some("Debian"));
    assert_eq!(state.driver.label(), "loaded, not connected");
    assert_eq!(state.broker_component_line(), "Broker: hook unavailable");
    assert_eq!(state.update_available_line().as_deref(), Some("Update available: 0.0.5"));
    assert!(state.update_bundle_ready);
    assert!(state.shows_the_same(&state.clone()));
}

#[test]
fn sections_and_arguments() {
    let section = |parts: &[&str]| {
        let arguments: Vec<String> = parts.iter().map(|part| (*part).to_string()).collect();
        initial_section(&arguments)
    };
    assert_eq!(section(&[]), Section::General);
    assert_eq!(section(&["fwdslash://settings/About?x"]), Section::About);
    assert_eq!(section(&["x", "--section", "cmd"]), Section::Terminals);
    assert_eq!(section(&["--section"]), Section::General);
    for page in [Section::General, Section::Windows, Section::Terminals, Section::About] {
        assert_eq!(Section::from_tag(page.tag()), page);
    }
    assert_eq!(check_arguments(true), vec!["update", "check", "--force", "--json"]);
    assert_eq!(check_arguments(false), vec!["update", "check", "--json"]);
    assert_eq!(
        install_arguments(),
        vec!["update", "install", "--force", "--relaunch", "app", "--json"]
    );
}

#[test]
fn one_instance_and_one_sweep() {
    assert_eq!(startup(MutexAnswer::Created(5)), Startup::Run);
    assert_eq!(startup(MutexAnswer::Exists), Startup::RaiseOther);
    assert!(matches!(
        startup(MutexAnswer::Failed(5)),
        Startup::Refuse { code: 2, message, .. }
            if message == "Forward Slash Windows could not verify that it is not already running \
                           (Win32 error 5)."
    ));
    assert_eq!(raise_step(true, 1), RaiseStep::Raise);
    assert_eq!(raise_step(false, 1), RaiseStep::LookAgain);
    assert_eq!(raise_step(false, ACTIVATION_POLLS), RaiseStep::GiveUp);
    assert!(is_settings_image(r"C:\Program Files\x\FswSettings.exe"));
    assert!(is_settings_image("fswsettings.exe"));
    assert!(!is_settings_image(r"C:\fswsettings.exe\other.exe"));
    let mut lock = SweepLock::default();
    assert!(lock.acquire(MutexAnswer::Created(9)));
    assert!(!lock.acquire(MutexAnswer::Created(10)), "this process holds it");
    assert_eq!(lock.release(), Some(9));
    assert_eq!(lock.release(), None);
    assert!(!lock.acquire(MutexAnswer::Exists));
    assert!(lock.acquire(MutexAnswer::Failed(1)));
    assert_eq!(lock.hold, Hold::Assumed);
    assert_eq!(lock.release(), None);
}

#[test]
fn a_process_does_not_outlive_its_window() {
    let mut watchdog = ExitWatchdog::new();
    watchdog.note_window(7);
    let mut actions = Vec::new();
    for _ in 0..STARTUP_GRACE_TICKS + EXIT_GRACE_TICKS + 5 {
        actions.push(watchdog.tick(false));
    }
    assert!(actions.contains(&TickAction::Quit));
    assert!(actions.contains(&TickAction::Exit));
    let mut watchdog = ExitWatchdog::new();
    watchdog.note_window(7);
    watchdog.note_exit_requested();
    for _ in 0..STARTUP_GRACE_TICKS + EXIT_GRACE_TICKS + 5 {
        assert_eq!(watchdog.tick(false), TickAction::Nothing);
    }
}

#[test]
fn the_tray_hides_on_close_and_exits_when_asked() {
    assert_eq!(tray_action(WM_CLOSE, 0, 0, false, 0xc000).0, TrayAction::Hide);
    assert_ne!(tray_action(WM_CLOSE, 0, 0, true, 0xc000).0, TrayAction::Hide);
    assert_eq!(
        tray_action(TRAY_MESSAGE, 0, WM_LBUTTONUP, false, 0xc000).0,
        TrayAction::Restore
    );
    assert_eq!(
        tray_action(TRAY_MESSAGE, 0, WM_RBUTTONUP, false, 0xc000).0,
        TrayAction::ShowMenu
    );
    assert_eq!(tray_action(0xc000, 0, 0, false, 0xc000).0, TrayAction::ReaddIcon);
    assert_eq!(menu_choice(MENU_SHOW), TrayAction::Restore);
    assert_eq!(menu_choice(MENU_EXIT), TrayAction::Exit);
    assert!(install_needed(0, 5));
    assert!(!install_needed(5, 5));
    assert!(install_needed(5, 6));
}

#[test]
fn what_the_broker_and_the_driver_answer() {
    assert_eq!(broker_state(None), BrokerState::Unavailable);
    assert_eq!(broker_state(Some(1)), BrokerState::Active);
    assert_eq!(broker_state(Some(2)), BrokerState::Paused);
    assert!(broker_needs_start(true, false));
    assert!(!broker_needs_start(true, true));
    assert!(!broker_needs_start(false, false));
    assert_eq!(filter_service_state(None), FilterServiceState::NotInstalled);
    assert_eq!(filter_service_state(Some(4)), FilterServiceState::Running);
    assert_eq!(filter_service_state(Some(1)), FilterServiceState::Stopped);
    assert_eq!(wake_for(true, true), Wake::Broadcast);
    assert_eq!(wake_for(false, true), Wake::Poll);
    assert!(window_visible(false, false, false));
    assert!(!window_visible(true, true, true));
}
