//! Installs, the ladder, queued items and leftovers on concrete values.

use fwdslash::appinstall::{
    apply_store_result, apply_store_update, existing_item, hex, reconcile_queue, shows_progress,
    verdict, AppInstallState, Existing, ItemPoll, ItemStatus, Outcome as AppInstallOutcome,
    QueuedItem, Start, Verdict, WaitPolicy, ADMISSION_WINDOW, INSTALL_CEILING, STATE_COMPLETED,
    STATE_DOWNLOADING, STATE_FAILED, STATE_PAUSED, STATE_PENDING,
};
use fwdslash::gc::{collect, is_owned_sidecar, is_owned_update_task_name, Aged, STALE_AFTER};
use fwdslash::helper::{
    appinstall_available, apply_bundle_result, fold_result_file, helper_context_ok, helper_path,
    helper_result_detail, parse_helper_result, register_script, result_file_text, HelperResult,
};
use fwdslash::install::{
    auto_ladder, available_update, bundle_gate, cmd_check, cmd_install, cmd_status, collect_for,
    github_report, install_answer, install_github_bundle, install_path, keep_cached_offer,
    report_for_code, resolve_route, route_override, run, store_report, try_appinstall, try_notify,
    try_store, try_winget, Availability, BundleInstall, CheckNext, CheckStart, Dispatch,
    InstallAnswer, InstallPath, LadderWalk, OfferEffect, Rung, StoreAnswer, WingetProgress,
    USAGE,
};
use fwdslash::options::{
    RelaunchMode, Route, Verb, EXIT_AVAILABLE, EXIT_ERROR, EXIT_NEEDS_USER, EXIT_NOTHING, EXIT_OK,
    EXIT_USAGE, EXIT_WRONG_CONTEXT,
};
use fwdslash::relaunch::{
    acquire_step, batch_quoted_path, lock_holder, mutex_name, schedule_apply, schedule_watchdog,
    task_name, winget_command_for, AttemptLock, LockStep, PackageNames, ScriptLaunch, TaskKind,
    Watchdog, WatchdogPlan, LOCK_STALE_AFTER,
};
use fwdslash::report::{flavor_name, json_escape, Installation, Report};
use fwdslash::settings_write::note_check_attempt;
use fwdslash::store::{
    before_install, check_store_offer, code_for_state, network_is_metered, offer_entries,
    offer_from_state, silent_download_and_install, store_offer_from_entries, Offer,
    OperationStatus, Outcome as StoreOutcome, StoreEntry, StoreProbe,
};
use fwdslash::update::{UpdateOutcome, UpdateVerificationError};
use fwdslash::update_reply::check_outcome;

fn named(version: &str) -> Offer {
    Offer::Named(version.to_string())
}

fn words(parts: &[&str]) -> Vec<String> {
    parts.iter().map(|part| (*part).to_string()).collect()
}

// ---------------------------------------------------------------------------
// Waiting
// ---------------------------------------------------------------------------

#[test]
fn waits_are_bounded() {
    let foreground = WaitPolicy::Foreground { admission: ADMISSION_WINDOW };
    let background = WaitPolicy::Background { ceiling: INSTALL_CEILING };
    assert_eq!(verdict(foreground, 0, false), Verdict::Continue);
    assert_eq!(verdict(foreground, 0, true), Verdict::HandOff);
    assert_eq!(verdict(foreground, ADMISSION_WINDOW - 1, false), Verdict::Continue);
    assert_eq!(verdict(foreground, ADMISSION_WINDOW, false), Verdict::HandOff);
    assert_eq!(verdict(background, INSTALL_CEILING - 1, true), Verdict::Continue);
    assert_eq!(verdict(background, INSTALL_CEILING, true), Verdict::TimedOut);
}

fn status(state: i32) -> Option<ItemStatus> {
    Some(ItemStatus {
        state: AppInstallState(state),
        percent_moved: false,
        bytes_downloaded: 0,
        error: None,
    })
}

#[test]
fn an_install_completes_only_with_every_item() {
    let policy = WaitPolicy::Background { ceiling: INSTALL_CEILING };
    let mut poll = ItemPoll::new(policy);
    assert_eq!(poll.poll_items(&[status(STATE_COMPLETED), status(STATE_PENDING)], 0), None);
    assert_eq!(
        poll.poll_items(&[status(STATE_COMPLETED), status(STATE_COMPLETED)], 0),
        Some(AppInstallOutcome::Finished {
            code: EXIT_OK,
            result: HelperResult::Completed,
        })
    );
    // The worst item decides.
    let mut poll = ItemPoll::new(policy);
    assert!(matches!(
        poll.poll_items(&[status(STATE_PAUSED), status(STATE_FAILED)], 0),
        Some(AppInstallOutcome::Finished { code: EXIT_ERROR, .. })
    ));
}

#[test]
fn progress_is_a_moving_state_or_moving_bytes() {
    assert!(shows_progress(AppInstallState(STATE_DOWNLOADING), false, 0));
    assert!(!shows_progress(AppInstallState(STATE_PENDING), false, 0));
    assert!(shows_progress(AppInstallState(STATE_PENDING), true, 0));
    assert!(shows_progress(AppInstallState(STATE_PENDING), false, 1));
    assert_eq!(existing_item(AppInstallState(STATE_DOWNLOADING)), Existing::Adopt);
    assert_eq!(existing_item(AppInstallState(STATE_FAILED)), Existing::Clear);
}

#[test]
fn the_queue_is_reconciled_before_anything_starts() {
    let items = [
        QueuedItem { ours: true, state: Some(AppInstallState(STATE_FAILED)) },
        QueuedItem { ours: false, state: Some(AppInstallState(STATE_DOWNLOADING)) },
        QueuedItem { ours: true, state: Some(AppInstallState(STATE_DOWNLOADING)) },
    ];
    assert_eq!(reconcile_queue(&items), (vec![0], true));
    assert_eq!(reconcile_queue(&items[..2]), (vec![0], false));
}

#[test]
fn a_start_is_an_outcome_or_a_wait() {
    assert_eq!(
        apply_store_update(Start::Unavailable),
        Some(AppInstallOutcome::NotStarted("0x80040154".to_string()))
    );
    assert_eq!(
        apply_store_update(Start::Refused(0x8007_0005)),
        Some(AppInstallOutcome::NotStarted("0x80070005".to_string()))
    );
    assert_eq!(apply_store_update(Start::Queued(1)), None);
    assert_eq!(hex(0x8007_0005), "0x80070005");
    assert_eq!(
        apply_store_result(&AppInstallOutcome::NotStarted("0x1".to_string())),
        (HelperResult::Error("0x1".to_string()), EXIT_ERROR)
    );
}

// ---------------------------------------------------------------------------
// The Store
// ---------------------------------------------------------------------------

#[test]
fn a_named_offer_is_newer_than_what_runs() {
    assert_eq!(offer_from_state("0.0.4.0", Some("0.0.5.0"), false), Some(named("0.0.5.0")));
    assert_eq!(offer_from_state("0.0.5.0", Some("0.0.5.0"), false), None);
    assert_eq!(offer_from_state("0.0.5.0", Some("0.0.5.0"), true), Some(Offer::Unnamed));
    assert_eq!(named("0.0.5.0").label().as_deref(), Some("0.0.5.0"));
    assert_eq!(Offer::Unnamed.label(), None);
    let entries = [Some("0.0.5.0".to_string()), None, Some("0.0.10.0".to_string())];
    assert_eq!(store_offer_from_entries("0.0.4.0", &entries), Some(named("0.0.10.0")));
    assert_eq!(store_offer_from_entries("0.0.4.0", &[None]), Some(Offer::Unnamed));
    assert_eq!(store_offer_from_entries("0.0.4.0", &[]), None);
}

#[test]
fn only_our_own_entries_count() {
    let entries = [
        StoreEntry { name: Some("other.package".to_string()), version: Some((9, 0, 0, 0)) },
        StoreEntry { name: None, version: Some((9, 0, 0, 0)) },
        StoreEntry {
            name: Some("32827MikeFara.fwdslash".to_string()),
            version: Some((0, 0, 5, 0)),
        },
        StoreEntry { name: Some("32827MikeFara.fwdslash".to_string()), version: None },
    ];
    assert_eq!(offer_entries(&entries), vec![Some("0.0.5.0".to_string()), None]);
    assert_eq!(check_store_offer(Ok(&entries), Some("0.0.4.0")), Ok(Some(named("0.0.5.0"))));
    assert_eq!(check_store_offer(Ok(&entries[..2]), Some("0.0.4.0")), Ok(None));
    assert_eq!(
        check_store_offer(Ok(&entries), None),
        Err("package-version-unavailable".to_string())
    );
    assert_eq!(
        check_store_offer(Err(0x8007_2EE7), Some("0.0.4.0")),
        Err("0x80072EE7".to_string())
    );
}

#[test]
fn a_silent_install_starts_only_where_it_may() {
    let probe = || StoreProbe {
        updates: Ok(1),
        current: Some("0.0.4.0".to_string()),
        entries: Some(vec![Some("0.0.5.0".to_string())]),
        silent: Ok(true),
    };
    assert_eq!(before_install(&probe()), None);
    assert_eq!(
        before_install(&StoreProbe { silent: Ok(false), ..probe() }),
        Some(StoreOutcome::NotStarted("0x80070005".to_string()))
    );
    assert_eq!(
        before_install(&StoreProbe { entries: Some(Vec::new()), ..probe() }),
        Some(StoreOutcome::Finished { code: EXIT_NOTHING, detail: None })
    );
    for (state, code) in [(0, EXIT_OK), (3, EXIT_OK), (7, EXIT_AVAILABLE), (4, EXIT_ERROR)] {
        assert_eq!(code_for_state(state), code, "{state}");
    }
    let policy = WaitPolicy::Background { ceiling: INSTALL_CEILING };
    assert_eq!(silent_download_and_install(OperationStatus::Started, policy, 0), None);
    assert!(matches!(
        silent_download_and_install(OperationStatus::Ended(3), policy, 0),
        Some(StoreOutcome::Finished { code: EXIT_OK, .. })
    ));
    assert!(matches!(
        silent_download_and_install(OperationStatus::Refused(1), policy, 0),
        Some(StoreOutcome::NotStarted(_))
    ));
    assert!(!network_is_metered(Some(1)));
    assert!(network_is_metered(Some(2)));
}

// ---------------------------------------------------------------------------
// Verbs
// ---------------------------------------------------------------------------

#[test]
fn the_verbs_are_dispatched_by_context() {
    assert_eq!(
        run(&words(&["nonsense"]), true),
        Dispatch::Refuse { message: USAGE.to_string(), code: EXIT_USAGE }
    );
    assert_eq!(
        run(&words(&["apply-store"]), true),
        Dispatch::Refuse {
            message: "fwdslash update apply-store runs only from the update helper.".to_string(),
            code: EXIT_WRONG_CONTEXT,
        }
    );
    assert!(matches!(
        run(&words(&["apply-store"]), false),
        Dispatch::Perform(options) if options.verb == Verb::ApplyStore
    ));
    assert!(matches!(run(&words(&["status"]), true), Dispatch::Perform(_)));
    assert!(helper_context_ok(false));
    assert!(!helper_context_ok(true));
    assert!(collect_for(Verb::Check));
    assert!(!collect_for(Verb::Status));
}

#[test]
fn status_and_check_report_what_is_recorded() {
    let offer = Some(named("0.0.5.0"));
    let report = cmd_status(true, &offer);
    assert_eq!((report.state, report.available.as_deref()), ("available", Some("0.0.5.0")));
    assert_eq!(cmd_status(true, &None).state, "upToDate");
    assert_eq!(cmd_status(false, &offer).state, "disabled");
    let start = CheckStart {
        packaged: true,
        store_flavor: true,
        force: false,
        last_check: Some(1_000),
        now: 1_001,
    };
    assert!(matches!(
        cmd_check(&start, &offer),
        CheckNext::Report(report) if report.code == EXIT_AVAILABLE
    ));
    assert!(matches!(
        cmd_check(&start, &None),
        CheckNext::ForgetAndReport(report) if report.state == "notDue"
    ));
    let forced = CheckStart { force: true, ..start };
    assert!(matches!(
        cmd_check(&forced, &None),
        CheckNext::AskStore(attempt) if attempt == note_check_attempt(1_001)
    ));
    let github = CheckStart { store_flavor: false, ..forced };
    assert!(matches!(cmd_check(&github, &None), CheckNext::AskGithub));
    let unpackaged = CheckStart { packaged: false, ..github };
    assert!(matches!(
        cmd_check(&unpackaged, &None),
        CheckNext::Report(report) if report.state == "disabled"
    ));
}

#[test]
fn a_store_answer_is_recorded_or_the_earlier_offer_stands() {
    let (report, effect) =
        store_report(&StoreAnswer::Offers(named("0.0.5.0")), &None, None, 10_000);
    assert_eq!((report.code, effect), (EXIT_AVAILABLE, OfferEffect::Record));
    let (report, effect) = store_report(&StoreAnswer::Empty, &None, None, 10_000);
    assert_eq!((report.state, effect), ("upToDate", OfferEffect::Clear));
    let (report, effect) =
        store_report(&StoreAnswer::Empty, &Some(named("0.0.5.0")), Some(9_999), 10_000);
    assert_eq!((report.code, effect), (EXIT_AVAILABLE, OfferEffect::Keep));
    let (report, effect) =
        store_report(&StoreAnswer::Failed("0x1".to_string()), &None, None, 10_000);
    assert_eq!((report.state, effect), ("unavailable", OfferEffect::Keep));
    assert!(keep_cached_offer(Some(9_999), 10_000));
    assert!(!keep_cached_offer(Some(0), 10_000));
    assert_eq!(github_report(&UpdateOutcome::UpToDate).state, "upToDate");
    assert_eq!(github_report(&UpdateOutcome::Ready("v1.0.0".to_string())).code, EXIT_AVAILABLE);
}

#[test]
fn whether_there_is_anything_comes_before_the_moment() {
    for moment in [false, true] {
        assert_eq!(
            install_answer(&Availability::Nothing, true, moment),
            InstallAnswer::Nothing
        );
    }
    let offer = Availability::Offer(named("0.0.5.0"));
    assert_eq!(install_answer(&offer, true, false), InstallAnswer::Defer);
    assert_eq!(install_answer(&offer, true, true), InstallAnswer::Proceed);
    let (report, stamped) = cmd_install(&offer, true, true);
    assert!(report.is_none() && !stamped);
    let (report, stamped) = cmd_install(&Availability::Offer(Offer::Unnamed), true, true);
    assert!(report.is_none() && stamped);
    let (report, stamped) = cmd_install(&Availability::Nothing, true, true);
    assert_eq!(report.map(|report| report.code), Some(EXIT_NOTHING));
    assert!(!stamped);
    assert_eq!(install_path(false, true), InstallPath::Disabled);
    assert_eq!(install_path(true, false), InstallPath::Github);
    assert_eq!(install_path(true, true), InstallPath::Store);
    assert_eq!(
        available_update(true, Some(named("0.0.5.0")), None),
        Availability::Offer(named("0.0.5.0"))
    );
    assert_eq!(available_update(true, None, Some(None)), Availability::Nothing);
    assert_eq!(available_update(true, None, None), Availability::Unknown);
}

#[test]
fn a_bundle_is_installed_only_where_everything_is_ready() {
    assert_eq!(bundle_gate(false, true), Some(BundleInstall::NoBundle));
    assert_eq!(bundle_gate(true, false), Some(BundleInstall::BadMoment));
    assert_eq!(bundle_gate(true, true), None);
    for (progress, code) in [
        (BundleInstall::NoBundle, EXIT_NOTHING),
        (BundleInstall::BadMoment, EXIT_AVAILABLE),
        (BundleInstall::Scheduled, EXIT_OK),
    ] {
        assert_eq!(install_github_bundle(progress, None).code, code);
    }
    assert_eq!(apply_bundle_result(Ok(())), (HelperResult::Completed, EXIT_OK));
    let (result, code) = apply_bundle_result(Err(UpdateVerificationError::SignatureFailure));
    assert_eq!(code, EXIT_ERROR);
    assert!(matches!(result, HelperResult::Error(_)));
}

#[test]
fn the_ladder_skips_winget_on_a_metered_network() {
    assert_eq!(
        auto_ladder(true, true, false),
        vec![Route::Store, Route::Winget, Route::AppInstall]
    );
    assert_eq!(auto_ladder(true, true, true), vec![Route::Store, Route::AppInstall]);
    assert_eq!(auto_ladder(false, false, false), vec![Route::AppInstall]);
    assert_eq!(route_override(Some("store")), Some(Route::Store));
    assert_eq!(route_override(Some("auto")), None);
    assert_eq!(route_override(None), None);
    assert_eq!(
        resolve_route(Some(Route::Notify), Some(Route::Store), true, true, false).0,
        vec![Route::Notify]
    );
}

#[test]
fn a_walk_goes_down_and_says_why() {
    let mut walk = LadderWalk::new(vec![Route::Store, Route::Winget]);
    assert_eq!(walk.current(), Some(Route::Store));
    walk.decline("0x1");
    assert_eq!(walk.current(), Some(Route::Winget));
    walk.decline("missing");
    assert_eq!(walk.current(), None);
    let report = walk.give_up(Some("0.0.5.0"));
    assert_eq!(report.available.as_deref(), Some("0.0.5.0"));
    assert!(report.detail.is_some_and(|detail| detail.contains("0x1") && detail.contains("missing")));
}

#[test]
fn a_rung_ends_the_walk_or_declines() {
    let (rung, effects) = try_appinstall(&AppInstallOutcome::Queued, None);
    assert!(matches!(rung, Rung::Done(_)));
    assert!(!effects.cancel_watchdog);
    let (rung, _) = try_appinstall(&AppInstallOutcome::NotStarted("0x1".to_string()), None);
    assert!(matches!(rung, Rung::TryHelper(_)));
    let (rung, _) = try_store(&StoreOutcome::NotStarted("0x1".to_string()), None);
    assert!(matches!(rung, Rung::Declined(_)));
    let (rung, cancel) = try_store(&StoreOutcome::Queued, None);
    assert!(matches!(rung, Rung::Done(_)) && !cancel);
    assert!(matches!(try_winget(WingetProgress::Missing, None), Rung::Declined(_)));
    assert!(matches!(try_winget(WingetProgress::Scheduled, None), Rung::Done(_)));
    match try_notify(Some("0.0.5.0")) {
        Rung::Done(report) => assert_eq!(report.code, EXIT_NEEDS_USER),
        other => panic!("{other:?}"),
    }
    assert_eq!(report_for_code(EXIT_NOTHING, Route::Store).state, "upToDate");
}

// ---------------------------------------------------------------------------
// Reports and results
// ---------------------------------------------------------------------------

#[test]
fn a_report_reaches_the_window() {
    let installation = Installation {
        packaged: true,
        store_flavor: true,
        auto_update: false,
        last_check: Some(7),
    };
    let line = Report::new("available", EXIT_AVAILABLE)
        .available(Some("0.0.5.0".to_string()))
        .route(Route::Store)
        .emit(true, None, &installation);
    assert!(line.ends_with('\n'));
    assert_eq!(line.matches('\n').count(), 1);
    assert_eq!(
        check_outcome(EXIT_AVAILABLE, &line),
        UpdateOutcome::Ready("0.0.5.0".to_string())
    );
    assert_eq!(json_escape("a\"b\\c\nd\u{1}"), "a\\\"b\\\\c\\nd\\u0001");
    assert_eq!(flavor_name(false, true), "unpackaged");
    assert_eq!(flavor_name(true, true), "store");
    assert_eq!(flavor_name(true, false), "github");
}

#[test]
fn a_result_file_reads_back() {
    for result in [
        HelperResult::Completed,
        HelperResult::Paused,
        HelperResult::Error("0x80070005".to_string()),
    ] {
        assert_eq!(parse_helper_result(&result_file_text(&result)), Some(result));
    }
    assert_eq!(fold_result_file(Some("completed")), (true, None));
    let (clear, detail) = fold_result_file(Some("error:0x1"));
    assert!(!clear);
    assert_eq!(detail.as_deref(), Some("The last install failed (0x1)."));
    assert_eq!(fold_result_file(None), (false, None));
    assert_eq!(helper_result_detail(&HelperResult::Completed), None);
    assert_eq!(helper_path(Some(r"C:\u")).as_deref(), Some(r"C:\u\fwdslash-helper.exe"));
    assert_eq!(helper_path(None), None);
    assert!(appinstall_available(false, Some(r"C:\u")));
    assert!(!appinstall_available(false, None));
    assert!(register_script("C:\\it's").contains("'C:\\it''s'"));
}

// ---------------------------------------------------------------------------
// Tasks, locks and leftovers
// ---------------------------------------------------------------------------

#[test]
fn generated_names_are_owned() {
    for kind in [TaskKind::Watchdog, TaskKind::Apply] {
        let name = task_name(kind, 1234, 7);
        assert!(is_owned_update_task_name(&name), "{name}");
        assert!(is_owned_sidecar(&format!("{name}.cmd")));
        assert!(is_owned_sidecar(&format!("{name}.xml")));
        assert!(!is_owned_sidecar(&format!("{name}.txt")));
    }
    assert_eq!(task_name(TaskKind::Watchdog, 1234, 7), "fwdslash-update-watchdog-1234-7");
}

#[test]
fn only_stale_leftovers_are_collected() {
    let aged = |name: &str, age: Option<u128>| Aged { name: name.to_string(), age };
    let (tasks, files) = collect(
        &[
            aged("fwdslash-update-watchdog-1-1", None),
            aged("fwdslash-update-watchdog-1-2", Some(0)),
        ],
        &[
            aged("fwdslash-update-apply-1-1.cmd", Some(STALE_AFTER + 1)),
            aged("fwdslash-update-apply-1-2.cmd", Some(1)),
            aged("somebody-elses.cmd", Some(STALE_AFTER + 1)),
        ],
    );
    assert_eq!(tasks, vec!["fwdslash-update-watchdog-1-1"]);
    assert_eq!(files, vec!["fwdslash-update-apply-1-1.cmd"]);
}

#[test]
fn a_live_lock_is_honoured_and_a_dead_one_reclaimed() {
    let step = |age, alive| {
        acquire_step(true, false, age, Some("fwdslash-update-apply-1-1"), alive, LOCK_STALE_AFTER)
    };
    assert_eq!(step(Some(0), true), LockStep::Held);
    assert_eq!(step(Some(0), false), LockStep::RemoveAndRetry);
    assert_eq!(step(Some(LOCK_STALE_AFTER + 1), true), LockStep::RemoveAndRetry);
    assert_eq!(
        acquire_step(true, true, None, None, false, LOCK_STALE_AFTER),
        LockStep::Taken
    );
    let lock = AttemptLock { path: r"C:\u\lock".to_string(), owner: "me".to_string() };
    assert!(lock.release_removes(Some("me")));
    assert!(!lock.release_removes(Some("you")));
    assert!(!lock.release_removes(None));
    assert_eq!(lock_holder(Some("me\r\n")).as_deref(), Some("me"));
    assert_eq!(mutex_name(r"C:\U"), mutex_name(r"c:\u"), "a folder in any case");
}

#[test]
fn scheduled_scripts_name_their_task() {
    let lock = AttemptLock {
        path: r"C:\u\update-attempt.lock".to_string(),
        owner: "fwdslash-update-watchdog-1-1".to_string(),
    };
    let launch = || ScriptLaunch {
        lead: None,
        powershell: Some(r"C:\w\powershell.exe"),
        schtasks: Some(r"C:\w\schtasks.exe"),
    };
    let package = || PackageNames { family: "f_h", identity: "f", previous: "0.0.4.0" };
    assert_eq!(
        schedule_watchdog(&lock, launch(), package(), RelaunchMode::Nothing, false),
        WatchdogPlan::Absent
    );
    let unsafe_names = PackageNames { family: "f h", ..package() };
    assert_eq!(
        schedule_watchdog(&lock, launch(), unsafe_names, RelaunchMode::App, false),
        WatchdogPlan::Refused
    );
    let WatchdogPlan::Register(task) =
        schedule_watchdog(&lock, launch(), package(), RelaunchMode::App, false)
    else {
        panic!("safe literals");
    };
    assert_eq!(task.name, lock.owner);
    assert_eq!(task.delay_minutes, Some(5));
    assert!(task.script.contains("/tn \"fwdslash-update-watchdog-1-1\""));
    let task = schedule_apply(&lock, "run me", launch(), package(), RelaunchMode::App)
        .expect("safe literals");
    assert!(task.script.contains("run me\r\n"));
    assert!(schedule_apply(
        &lock,
        "run me",
        launch(),
        PackageNames { family: "f h", ..package() },
        RelaunchMode::App
    )
    .is_none());
    assert_eq!(batch_quoted_path(r"C:\a b").as_deref(), Some("\"C:\\a b\""));
    assert_eq!(batch_quoted_path("C:\\a\"b"), None);
    assert_eq!(
        winget_command_for("9P51CM0MTMK2", r"C:\w\winget.exe").map(|command| command
            .starts_with("\"C:\\w\\winget.exe\" upgrade --id 9P51CM0MTMK2")),
        Some(true)
    );
    let (task, lock) = Watchdog::absent().cancel();
    assert!(task.is_none() && lock.is_none());
}
