//! What holds of an install: which route is taken, what is waited for, and what is
//! reported.

use crate::appinstall::{
    first_error, is_moving, is_unresolved, leftovers, poll_of, start_outcome, still_working,
    tick_outcome, wait_verdict, worst_code, AppInstallState, InstallText, ItemStatus, Poll,
    QueuedItem, Start, Verdict, WaitPolicy,
};
use crate::helper::HelperText;
use crate::install::{
    appinstall_rung_text, bundle_report, check_next, gate_answer, gate_report, github_check_report,
    ladder_of, listed, override_of, route_choice, state_text, store_check_report, store_rung_text,
    winget_rung_text, AvailabilityText, BundleInstall, CheckNextText, CheckStart, InstallAnswer,
    OfferEffect, RungEffects, RungText, StoreAnswerText, WingetProgress,
};
use crate::options::Route;
use crate::report::ReportText;
use crate::settings_write::{SettingText, WriteText};
use crate::store::{
    is_label_newer, newest_entry, offer_of_entries, our_entries, probe_outcome, state_code,
    watch_outcome, OfferText, OperationStatus, StoreEntry, StoreProbe, StoreText,
};
use crate::text::{decimal, hex_upper, is_white, law_trimming_takes_the_ends};
use crate::update::{names_newer_package, package_version_of, OutcomeText, UpdateVerificationError};
use vstd::prelude::*;

verus! {

// ---------------------------------------------------------------------------
// Routes
// ---------------------------------------------------------------------------

/// The ladder: the Store where it can download silently, then winget where it is
/// there and the network is not metered, and the app installer last and always.
pub proof fn law_the_rungs_of_the_ladder(metered: bool)
    ensures
        ladder_of(false, false, metered) == seq![Route::AppInstall],
        ladder_of(true, false, metered) == seq![Route::Store, Route::AppInstall],
        ladder_of(false, true, false) == seq![Route::Winget, Route::AppInstall],
        ladder_of(true, true, false) == seq![Route::Store, Route::Winget, Route::AppInstall],
        ladder_of(false, true, true) == seq![Route::AppInstall],
        ladder_of(true, true, true) == seq![Route::Store, Route::AppInstall],
{
    assert(ladder_of(false, false, metered) =~= seq![Route::AppInstall]);
    assert(ladder_of(true, false, metered) =~= seq![Route::Store, Route::AppInstall]);
    assert(ladder_of(false, true, false) =~= seq![Route::Winget, Route::AppInstall]);
    assert(ladder_of(true, true, false) =~= seq![Route::Store, Route::Winget, Route::AppInstall]);
    assert(ladder_of(false, true, true) =~= seq![Route::AppInstall]);
    assert(ladder_of(true, true, true) =~= seq![Route::Store, Route::AppInstall]);
}

/// The route of one install: the one that was asked for, whatever is available;
/// else the app installer, the Store, winget on a network that is not metered, in
/// this order of preference, and a notice where there is none of them.
pub proof fn law_the_preferred_route(
    asked: Route,
    appinstall: bool,
    silent: bool,
    winget: bool,
    metered: bool,
)
    ensures
        route_choice(Some(asked), appinstall, silent, winget, metered) == asked,
        route_choice(None, true, silent, winget, metered) == Route::AppInstall,
        route_choice(None, false, true, winget, metered) == Route::Store,
        route_choice(None, false, false, true, false) == Route::Winget,
        route_choice(None, false, false, true, true) == Route::Notify,
        route_choice(None, false, false, false, metered) == Route::Notify,
{
}

/// A stored override is read by its name, with white space around it or without;
/// `auto`, an unknown name and an absent value are no override.
pub proof fn law_overrides_are_read_by_name(front: Seq<char>, route: Route, back: Seq<char>)
    requires
        forall|i: int| 0 <= i < front.len() ==> is_white(#[trigger] front[i]),
        forall|i: int| 0 <= i < back.len() ==> is_white(#[trigger] back[i]),
    ensures
        override_of(Some(front + route.name_text() + back)) == Some(route),
        override_of(Some(front + "auto"@ + back)) is None,
        override_of(Some(front)) is None,
        override_of(None) is None,
{
    reveal_strlit("auto");
    reveal_strlit("appinstall");
    reveal_strlit("store");
    reveal_strlit("winget");
    reveal_strlit("notify");
    let name = route.name_text();
    crate::options::law_names_read_back(
        crate::options::Verb::Check,
        route,
        crate::options::RelaunchMode::App,
    );
    law_trimming_takes_the_ends(front, name, back);
    law_trimming_takes_the_ends(front, "auto"@, back);
    assert("appinstall"@.len() > 0 && "store"@.len() > 0 && "winget"@.len() > 0 && "notify"@.len()
        > 0 && Seq::<char>::empty().len() == 0);
}

/// The reasons of the rungs that declined stand one behind the other, with `; `
/// between them.
pub proof fn law_one_more_reason(reasons: Seq<Seq<char>>, reason: Seq<char>)
    ensures
        listed(Seq::empty()) == Seq::<char>::empty(),
        listed(seq![reason]) == reason,
        reasons.len() > 0 ==> listed(reasons.push(reason)) == listed(reasons) + seq![';', ' ']
            + reason,
{
    reveal_strlit("; ");
    assert("; "@ =~= seq![';', ' ']);
    assert(reasons.push(reason).drop_last() =~= reasons);
}

// ---------------------------------------------------------------------------
// Whether to install, and what a check says
// ---------------------------------------------------------------------------

/// Whether an install goes ahead: only over an offer, and only at a good moment;
/// an offer without a name only where it may be tried again.
pub proof fn law_when_an_install_goes_ahead(
    label: Seq<char>,
    unnamed_actionable: bool,
    moment_ok: bool,
)
    ensures
        gate_answer(AvailabilityText::Nothing, unnamed_actionable, moment_ok)
            == InstallAnswer::Nothing,
        gate_answer(AvailabilityText::Unknown, unnamed_actionable, moment_ok)
            == InstallAnswer::Unknown,
        gate_answer(
            AvailabilityText::Offer(OfferText::Named(label)),
            unnamed_actionable,
            true,
        ) == InstallAnswer::Proceed,
        gate_answer(
            AvailabilityText::Offer(OfferText::Named(label)),
            unnamed_actionable,
            false,
        ) == InstallAnswer::Defer,
        gate_answer(AvailabilityText::Offer(OfferText::Unnamed), false, moment_ok)
            == InstallAnswer::BackedOff,
        gate_answer(AvailabilityText::Offer(OfferText::Unnamed), true, true)
            == InstallAnswer::Proceed,
        gate_answer(AvailabilityText::Offer(OfferText::Unnamed), true, false)
            == InstallAnswer::Defer,
{
}

/// How a check starts: an unpackaged build is told that checks are off; within a day
/// of the last check, unless it is forced, the earlier answer is told again; else
/// the Store is asked where this is its flavor, and GitHub where it is not.
pub proof fn law_how_a_check_starts(start: CheckStart, cached: Option<OfferText>)
    ensures
        ({
            let fresh = start.last_check is Some && start.last_check->Some_0 <= start.now
                && start.now < start.last_check->Some_0 + 86400;
            let plain = ReportText {
                state: "notDue"@,
                available: None,
                route: None,
                action: None,
                detail: None,
                code: 0,
            };
            let next = check_next(start, cached);
            &&& !start.packaged ==> next == CheckNextText::Report(
                ReportText { state: "disabled"@, ..plain },
            )
            &&& start.packaged && !start.force && fresh && cached is None ==> next
                == CheckNextText::ForgetAndReport(plain)
            &&& start.packaged && !start.force && fresh && cached is Some ==> next
                == CheckNextText::Report(
                ReportText {
                    state: "available"@,
                    available: cached->Some_0.label(),
                    code: 10,
                    ..plain
                },
            )
            &&& start.packaged && (start.force || !fresh) && start.store_flavor ==> next
                == CheckNextText::AskStore(
                WriteText {
                    name: "LastUpdateCheck"@,
                    value: Some(SettingText::Qword(start.now)),
                },
            )
            &&& start.packaged && (start.force || !fresh) && !start.store_flavor ==> next
                == CheckNextText::AskGithub
        }),
{
}

/// What the Store's answer comes to: an offer is told and recorded; no offer clears
/// the record, unless there is one and the last question was less than half an hour
/// ago; a failure leaves the record as it is.
pub proof fn law_what_the_stores_answer_comes_to(
    label: Seq<char>,
    code: Seq<char>,
    cached: OfferText,
    last: u64,
    now: u64,
)
    ensures
        ({
            let plain = ReportText {
                state: "upToDate"@,
                available: None,
                route: None,
                action: None,
                detail: None,
                code: 0,
            };
            let named = StoreAnswerText::Offers(OfferText::Named(label));
            let empty = StoreAnswerText::Empty;
            &&& store_check_report(named, Some(cached), Some(last), now) == (
                ReportText { state: "available"@, available: Some(label), code: 10, ..plain },
                OfferEffect::Record,
            )
            &&& store_check_report(empty, None, Some(last), now) == (plain, OfferEffect::Clear)
            &&& store_check_report(empty, Some(cached), None, now) == (plain, OfferEffect::Clear)
            &&& last + 1800 <= now ==> store_check_report(empty, Some(cached), Some(last), now) == (
                plain,
                OfferEffect::Clear,
            )
            &&& now < last + 1800 ==> store_check_report(empty, Some(cached), Some(last), now).1
                == OfferEffect::Keep
            &&& now < last + 1800 ==> store_check_report(
                empty,
                Some(cached),
                Some(last),
                now,
            ).0.available == cached.label()
            &&& store_check_report(
                StoreAnswerText::Failed(code),
                Some(cached),
                Some(last),
                now,
            ).1 == OfferEffect::Keep
            &&& store_check_report(
                StoreAnswerText::Failed(code),
                Some(cached),
                Some(last),
                now,
            ).0.state == "unavailable"@
        }),
{
}

/// What GitHub's answer comes to: its state, the release where one is ready, and the
/// reason where a release could not be trusted.
pub proof fn law_what_githubs_answer_comes_to(tag: Seq<char>, error: UpdateVerificationError)
    ensures
        github_check_report(OutcomeText::Ready(tag)) == (ReportText {
            state: "available"@,
            available: Some(tag),
            route: None,
            action: None,
            detail: None,
            code: 10,
        }),
        github_check_report(OutcomeText::VerificationFailed(error)) == (ReportText {
            state: "error"@,
            available: None,
            route: None,
            action: None,
            detail: Some(error.message_text()),
            code: 1,
        }),
        github_check_report(OutcomeText::UpToDate).state == "upToDate"@,
        github_check_report(OutcomeText::NotDue).state == "notDue"@,
        github_check_report(OutcomeText::Unavailable).state == "unavailable"@,
        github_check_report(OutcomeText::UpToDate).code == 0,
        github_check_report(OutcomeText::NotDue).code == 0,
        github_check_report(OutcomeText::Unavailable).code == 0,
{
}

/// What each exit code is called.
pub proof fn law_what_each_code_is_called(code: i32)
    ensures
        state_text(0) == "installed"@,
        state_text(10) == "deferred"@,
        state_text(11) == "needsUser"@,
        state_text(12) == "upToDate"@,
        code != 0 && code != 10 && code != 11 && code != 12 ==> state_text(code) == "error"@,
{
}

// ---------------------------------------------------------------------------
// The Store's entries
// ---------------------------------------------------------------------------

proof fn lemma_newer_through(a: Seq<char>, b: Seq<char>, c: Seq<char>)
    ensures
        names_newer_package(a, b) && names_newer_package(b, c) ==> names_newer_package(a, c),
        !(names_newer_package(a, b) && names_newer_package(b, a)),
{
    if names_newer_package(a, b) && names_newer_package(b, c) {
        crate::update_laws::law_newer_package_is_a_strict_order(
            package_version_of(a)->Some_0,
            package_version_of(b)->Some_0,
            package_version_of(c)->Some_0,
        );
    }
    if names_newer_package(a, b) && names_newer_package(b, a) {
        crate::update_laws::law_newer_package_is_a_strict_order(
            package_version_of(a)->Some_0,
            package_version_of(b)->Some_0,
            package_version_of(a)->Some_0,
        );
    }
}

/// Of the versions the Store lists, the newest one that is newer than the running
/// one is offered: what is offered is listed, nothing listed is newer than it, and
/// nothing is offered only where nothing listed is newer than the running version.
pub proof fn law_the_newest_listed_version_is_offered(
    current: Seq<char>,
    entries: Seq<Option<Seq<char>>>,
    k: int,
)
    requires
        0 <= k < entries.len(),
        entries[k] is Some,
        package_version_of(current) is Some,
    ensures
        ({
            let best = newest_entry(current, entries);
            &&& best is Some ==> entries.contains(best)
            &&& best is Some ==> !names_newer_package(best->Some_0, entries[k]->Some_0)
            &&& best is None ==> !names_newer_package(current, entries[k]->Some_0)
        }),
    decreases entries.len(),
{
    lemma_newest_is_listed(current, entries);
    crate::store::law_named_offers_are_newer(current, entries);
    let init = entries.drop_last();
    let last = entries[entries.len() - 1];
    let before = newest_entry(current, init);
    if k < init.len() {
        assert(init[k] == entries[k]);
        law_the_newest_listed_version_is_offered(current, init, k);
        crate::store::law_named_offers_are_newer(current, init);
        if last is Some {
            let against = if before is Some {
                before->Some_0
            } else {
                current
            };
            if names_newer_package(against, last->Some_0) {
                lemma_newer_through(against, last->Some_0, entries[k]->Some_0);
                if names_newer_package(last->Some_0, entries[k]->Some_0) {
                    assert(names_newer_package(against, entries[k]->Some_0));
                }
            }
        }
    } else if last is Some {
        lemma_newer_through(last->Some_0, last->Some_0, last->Some_0);
        crate::store::law_named_offers_are_newer(current, init);
    }
}

proof fn lemma_newest_is_listed(current: Seq<char>, entries: Seq<Option<Seq<char>>>)
    ensures
        newest_entry(current, entries) is Some ==> entries.contains(newest_entry(current, entries)),
    decreases entries.len(),
{
    if entries.len() > 0 {
        let init = entries.drop_last();
        lemma_newest_is_listed(current, init);
        let best = newest_entry(current, entries);
        if best is Some {
            if best == newest_entry(current, init) {
                let j = choose|j: int| 0 <= j < init.len() && init[j] == best;
                assert(entries[j] == best);
            } else {
                assert(entries[entries.len() - 1] == best);
            }
        }
    }
}

/// What is offered: nothing where nothing is listed, the newest version where one is
/// newer, and an update without a name where something is listed and none is.
pub proof fn law_what_the_store_offers(current: Seq<char>, entries: Seq<Option<Seq<char>>>)
    ensures
        offer_of_entries(current, Seq::empty()) is None,
        entries.len() > 0 ==> offer_of_entries(current, entries) == Some(
            if newest_entry(current, entries) is Some {
                OfferText::Named(newest_entry(current, entries)->Some_0)
            } else {
                OfferText::Unnamed
            },
        ),
{
}

/// Only this app's own entries count, in order, each by its four numbers where it
/// has them.
pub proof fn law_one_more_listed_entry(entries: Seq<StoreEntry>, entry: StoreEntry)
    ensures
        our_entries(Seq::empty()) == Seq::<Option<Seq<char>>>::empty(),
        our_entries(entries.push(entry)) == if entry.name is Some && entry.name->Some_0@
            == "32827MikeFara.fwdslash"@ {
            our_entries(entries).push(
                match entry.version {
                    Some(v) => Some(
                        decimal(v.0 as nat) + seq!['.'] + decimal(v.1 as nat) + seq!['.'] + decimal(
                            v.2 as nat,
                        ) + seq!['.'] + decimal(v.3 as nat),
                    ),
                    None => None,
                },
            )
        } else {
            our_entries(entries)
        },
{
    assert(entries.push(entry).drop_last() =~= entries);
    if entry.version is Some {
        let v = entry.version->Some_0;
        assert(crate::store::dotted(v) =~= decimal(v.0 as nat) + seq!['.'] + decimal(v.1 as nat)
            + seq!['.'] + decimal(v.2 as nat) + seq!['.'] + decimal(v.3 as nat));
    }
}

// ---------------------------------------------------------------------------
// Waiting
// ---------------------------------------------------------------------------

/// What the state of an install item means: pending to installing, and ready to
/// download, go on; completed is success; the paused states leave the update
/// available; cancelled, failed and anything unknown are errors.
pub proof fn law_what_item_states_mean(state: i32)
    ensures
        0 <= state <= 5 || state == 13 ==> poll_of(AppInstallState(state)) == Poll::Continue,
        state == 6 ==> poll_of(AppInstallState(state)) == Poll::Finished(0),
        state == 8 || 10 <= state <= 12 ==> poll_of(AppInstallState(state)) == Poll::Finished(10),
        state < 0 || state == 7 || state == 9 || state > 13 ==> poll_of(AppInstallState(state))
            == Poll::Finished(1),
{
}

/// How long is waited: in the foreground until something moves or the admission time
/// is over, and then the install is left to run; in the background until the ceiling,
/// and then it has timed out.
pub proof fn law_how_long_is_waited(limit: u128, elapsed: u128, progressed: bool)
    ensures
        progressed || elapsed >= limit ==> wait_verdict(
            WaitPolicy::Foreground { admission: limit },
            elapsed,
            progressed,
        ) == Verdict::HandOff,
        !progressed && elapsed < limit ==> wait_verdict(
            WaitPolicy::Foreground { admission: limit },
            elapsed,
            progressed,
        ) == Verdict::Continue,
        elapsed >= limit ==> wait_verdict(
            WaitPolicy::Background { ceiling: limit },
            elapsed,
            progressed,
        ) == Verdict::TimedOut,
        elapsed < limit ==> wait_verdict(
            WaitPolicy::Background { ceiling: limit },
            elapsed,
            progressed,
        ) == Verdict::Continue,
{
}

/// Whether an item ended, and how.
spec fn ended_with(item: Option<ItemStatus>, code: i32) -> bool {
    item is Some && poll_of(item->Some_0.state) == Poll::Finished(code)
}

proof fn lemma_worst(items: Seq<Option<ItemStatus>>)
    ensures
        ({
            let worst = worst_code(items);
            let failed = exists|i: int| 0 <= i < items.len() && ended_with(#[trigger] items[i], 1);
            let paused = exists|i: int| 0 <= i < items.len() && ended_with(#[trigger] items[i], 10);
            let done = exists|i: int| 0 <= i < items.len() && ended_with(#[trigger] items[i], 0);
            &&& failed ==> worst == Some(1i32)
            &&& !failed && paused ==> worst == Some(10i32)
            &&& !failed && !paused && done ==> worst == Some(0i32)
            &&& !failed && !paused && !done ==> worst is None
        }),
    decreases items.len(),
{
    if items.len() > 0 {
        let init = items.drop_last();
        let last = items[items.len() - 1];
        lemma_worst(init);
        lemma_one_more_ended(init, last, 0);
        lemma_one_more_ended(init, last, 1);
        lemma_one_more_ended(init, last, 10);
        assert(items =~= init.push(last));
    }
}

proof fn lemma_one_more_ended(
    items: Seq<Option<ItemStatus>>,
    item: Option<ItemStatus>,
    code: i32,
)
    ensures
        (exists|i: int|
            0 <= i < items.push(item).len() && ended_with(#[trigger] items.push(item)[i], code))
            == ((exists|i: int| 0 <= i < items.len() && ended_with(#[trigger] items[i], code))
            || ended_with(item, code)),
{
    let all = items.push(item);
    if exists|i: int| 0 <= i < items.len() && ended_with(#[trigger] items[i], code) {
        let i = choose|i: int| 0 <= i < items.len() && ended_with(#[trigger] items[i], code);
        assert(all[i] == items[i]);
    }
    if ended_with(item, code) {
        assert(all[items.len() as int] == item);
    }
    if exists|i: int| 0 <= i < all.len() && ended_with(#[trigger] all[i], code) {
        let i = choose|i: int| 0 <= i < all.len() && ended_with(#[trigger] all[i], code);
        if i < items.len() {
            assert(items[i] == all[i]);
        }
    }
}

/// What one look at the items comes to: a single failure is the outcome, with the
/// first error that is known; else a single pause is; success only where every item
/// has completed; and while an item is open, the wait goes on.
#[verifier::rlimit(40)]
pub proof fn law_what_one_look_comes_to(
    items: Seq<Option<ItemStatus>>,
    k: int,
    policy: WaitPolicy,
    elapsed: u128,
    progressed: bool,
)
    requires
        0 <= k < items.len(),
    ensures
        ({
            let outcome = tick_outcome(items, policy, elapsed, progressed);
            let failed = exists|i: int|
                0 <= i < items.len() && (#[trigger] items[i]) is Some && poll_of(
                    items[i]->Some_0.state,
                ) == Poll::Finished(1);
            let paused = exists|i: int|
                0 <= i < items.len() && (#[trigger] items[i]) is Some && poll_of(
                    items[i]->Some_0.state,
                ) == Poll::Finished(10);
            let open = items[k] is None || poll_of(items[k]->Some_0.state) == Poll::Continue;
            &&& failed ==> outcome == Some(
                InstallText::Finished {
                    code: 1,
                    result: HelperText::Error(
                        match first_error(items) {
                            Some(code) => "0x"@ + hex_upper(code as nat, 8),
                            None => "0x80004005"@,
                        },
                    ),
                },
            )
            &&& !failed && paused ==> outcome == Some(
                InstallText::Finished { code: 10, result: HelperText::Paused },
            )
            &&& !failed && !paused && open ==> match wait_verdict(policy, elapsed, progressed) {
                Verdict::Continue => outcome is None,
                Verdict::HandOff => outcome == Some(InstallText::Queued),
                Verdict::TimedOut => outcome == Some(
                    InstallText::Finished { code: 10, result: HelperText::Paused },
                ),
            }
            &&& (forall|i: int|
                0 <= i < items.len() ==> (#[trigger] items[i]) is Some && poll_of(
                    items[i]->Some_0.state,
                ) == Poll::Finished(0)) ==> outcome == Some(
                InstallText::Finished { code: 0, result: HelperText::Completed },
            )
        }),
{
    lemma_worst(items);
    let failed = exists|i: int|
        0 <= i < items.len() && (#[trigger] items[i]) is Some && poll_of(items[i]->Some_0.state)
            == Poll::Finished(1);
    let paused = exists|i: int|
        0 <= i < items.len() && (#[trigger] items[i]) is Some && poll_of(items[i]->Some_0.state)
            == Poll::Finished(10);
    if failed {
        let i = choose|i: int|
            0 <= i < items.len() && (#[trigger] items[i]) is Some && poll_of(items[i]->Some_0.state)
                == Poll::Finished(1);
        assert(ended_with(items[i], 1));
    } else {
        assert(!exists|i: int| 0 <= i < items.len() && ended_with(#[trigger] items[i], 1));
    }
    if paused {
        let i = choose|i: int|
            0 <= i < items.len() && (#[trigger] items[i]) is Some && poll_of(items[i]->Some_0.state)
                == Poll::Finished(10);
        assert(ended_with(items[i], 10));
    } else {
        assert(!exists|i: int| 0 <= i < items.len() && ended_with(#[trigger] items[i], 10));
    }
    if items[k] is None || poll_of(items[k]->Some_0.state) == Poll::Continue {
        assert(is_unresolved(items[k]));
        assert(still_working(items));
    }
    if forall|i: int|
        0 <= i < items.len() ==> (#[trigger] items[i]) is Some && poll_of(items[i]->Some_0.state)
            == Poll::Finished(0) {
        assert(items[k] is Some);
        assert(ended_with(items[k], 0));
        assert forall|i: int| 0 <= i < items.len() implies !is_unresolved(#[trigger] items[i]) by {
            assert(items[i] is Some);
        }
    }
}

/// The first error that is known is the one that is told.
pub proof fn law_the_first_known_error_is_told(
    items: Seq<Option<ItemStatus>>,
    item: Option<ItemStatus>,
)
    ensures
        first_error(Seq::empty()) is None,
        first_error(items) is Some ==> first_error(items.push(item)) == first_error(items),
        first_error(items) is None ==> first_error(items.push(item)) == if item is Some && poll_of(
            item->Some_0.state,
        ) == Poll::Finished(1) {
            item->Some_0.error
        } else {
            None
        },
{
    assert(items.push(item).drop_last() =~= items);
}

/// What is cleared from the queue before an install: this app's own items that have
/// ended, up to the first one that is still under way.
pub proof fn law_which_queue_items_are_leftovers(items: Seq<QueuedItem>, k: int)
    requires
        items.len() <= usize::MAX,
        0 <= k < items.len(),
    ensures
        leftovers(items).contains(k as usize) == ({
            &&& items[k].ours && items[k].state is Some && poll_of(items[k].state->Some_0)
                != Poll::Continue
            &&& forall|j: int|
                0 <= j < k ==> !((#[trigger] items[j]).ours && items[j].state is Some && poll_of(
                    items[j].state->Some_0,
                ) == Poll::Continue)
        }),
    decreases items.len(),
{
    let init = items.drop_last();
    let before = leftovers(init);
    let all = leftovers(items);
    let n: int = items.len() - 1;
    lemma_leftovers_below(init);
    if k < n {
        law_which_queue_items_are_leftovers(init, k);
        assert(init[k] == items[k]);
        assert(all.contains(k as usize) == before.contains(k as usize)) by {
            if before.contains(k as usize) {
                let j = choose|j: int| 0 <= j < before.len() && before[j] == k as usize;
                assert(all[j] == k as usize);
            }
            if all.contains(k as usize) {
                let j = choose|j: int| 0 <= j < all.len() && all[j] == k as usize;
                if j < before.len() {
                    assert(before[j] == k as usize);
                } else {
                    assert(all[j] == n as usize);
                }
            }
        }
        assert((forall|j: int|
            0 <= j < k ==> !((#[trigger] items[j]).ours && items[j].state is Some && poll_of(
                items[j].state->Some_0,
            ) == Poll::Continue)) == (forall|j: int|
            0 <= j < k ==> !((#[trigger] init[j]).ours && init[j].state is Some && poll_of(
                init[j].state->Some_0,
            ) == Poll::Continue))) by {
            assert forall|j: int| 0 <= j < k implies #[trigger] items[j] == init[j] by {}
            if forall|j: int|
                0 <= j < k ==> !((#[trigger] init[j]).ours && init[j].state is Some && poll_of(
                    init[j].state->Some_0,
                ) == Poll::Continue) {
                assert forall|j: int| 0 <= j < k implies !((#[trigger] items[j]).ours
                    && items[j].state is Some && poll_of(items[j].state->Some_0)
                    == Poll::Continue) by {
                    assert(init[j] == items[j]);
                }
            }
        }
    } else {
        assert(!before.contains(k as usize)) by {
            if before.contains(k as usize) {
                let j = choose|j: int| 0 <= j < before.len() && before[j] == k as usize;
                assert(before[j] < n);
            }
        }
        let held = crate::appinstall::holds_adoptable(init);
        assert(held == !(forall|j: int|
            0 <= j < k ==> !((#[trigger] items[j]).ours && items[j].state is Some && poll_of(
                items[j].state->Some_0,
            ) == Poll::Continue))) by {
            if held {
                let j = choose|j: int|
                    0 <= j < init.len() && crate::appinstall::is_adoptable(#[trigger] init[j]);
                assert(items[j] == init[j]);
            } else {
                assert forall|j: int| 0 <= j < k implies !((#[trigger] items[j]).ours
                    && items[j].state is Some && poll_of(items[j].state->Some_0)
                    == Poll::Continue) by {
                    assert(init[j] == items[j]);
                    assert(!crate::appinstall::is_adoptable(init[j]));
                }
            }
        }
        if !held && crate::appinstall::is_leftover(items[k]) {
            assert(all[all.len() - 1] == k as usize);
        } else {
            assert(all =~= before);
        }
    }
}

proof fn lemma_leftovers_below(items: Seq<QueuedItem>)
    requires
        items.len() <= usize::MAX,
    ensures
        forall|j: int| 0 <= j < leftovers(items).len() ==> #[trigger] leftovers(items)[j] < items.len(),
    decreases items.len(),
{
    if items.len() > 0 {
        let init = items.drop_last();
        let before = leftovers(init);
        let all = leftovers(items);
        lemma_leftovers_below(init);
        assert forall|j: int| 0 <= j < all.len() implies #[trigger] all[j] < items.len() by {
            if j < before.len() {
                assert(all[j] == before[j]);
            }
        }
    }
}

// ---------------------------------------------------------------------------
// The Store's operation
// ---------------------------------------------------------------------------

/// What the end of a Store operation means: the first four states are success, three
/// pauses leave the update available, anything else is an error.
pub proof fn law_what_store_states_mean(state: i32)
    ensures
        0 <= state <= 3 ==> state_code(state) == 0,
        6 <= state <= 8 ==> state_code(state) == 10,
        !(0 <= state <= 3) && !(6 <= state <= 8) ==> state_code(state) == 1,
{
}

/// What is told of a Store operation: a refusal started nothing, a failure is told
/// with its code, an end by its state; one that runs is waited for, left to run in
/// the foreground, and given up in the background.
pub proof fn law_what_a_store_operation_comes_to(
    code: u32,
    state: i32,
    limit: u128,
    elapsed: u128,
    policy: WaitPolicy,
)
    ensures
        watch_outcome(OperationStatus::Refused(code), policy, elapsed) == Some(
            StoreText::NotStarted("0x"@ + hex_upper(code as nat, 8)),
        ),
        watch_outcome(OperationStatus::Failed(code), policy, elapsed) == Some(
            StoreText::Finished { code: 1, detail: Some("0x"@ + hex_upper(code as nat, 8)) },
        ),
        watch_outcome(OperationStatus::Ended(state), policy, elapsed) == Some(
            StoreText::Finished { code: state_code(state), detail: None },
        ),
        watch_outcome(
            OperationStatus::Started,
            WaitPolicy::Foreground { admission: limit },
            elapsed,
        ) == if elapsed >= limit {
            Some(StoreText::Queued)
        } else {
            None
        },
        elapsed < limit ==> watch_outcome(
            OperationStatus::Started,
            WaitPolicy::Background { ceiling: limit },
            elapsed,
        ) is None,
        elapsed >= limit ==> watch_outcome(
            OperationStatus::Started,
            WaitPolicy::Background { ceiling: limit },
            elapsed,
        ) == Some(
            StoreText::Finished { code: 1, detail: Some("0x"@ + hex_upper(0x8000_4004, 8)) },
        ),
{
}

// ---------------------------------------------------------------------------
// Reports of an install
// ---------------------------------------------------------------------------

/// A report of a state and a code alone.
pub open spec fn told(state: Seq<char>, code: i32) -> ReportText {
    ReportText { state, available: None, route: None, action: None, detail: None, code }
}

/// What is told where an install does not go ahead: that there is nothing, that the
/// user has to act, or that it was put off, with the offer's name.
pub proof fn law_what_is_told_instead_of_an_install(label: Option<Seq<char>>)
    ensures
        gate_report(InstallAnswer::Proceed, label) is None,
        gate_report(InstallAnswer::Nothing, label) == Some(
            ReportText {
                state: "upToDate"@,
                available: None,
                route: None,
                action: None,
                detail: None,
                code: 12,
            },
        ),
        gate_report(InstallAnswer::Defer, label) == Some(
            ReportText {
                state: "deferred"@,
                available: label,
                route: None,
                action: None,
                detail: None,
                code: 10,
            },
        ),
        gate_report(InstallAnswer::BackedOff, label) is Some,
        gate_report(InstallAnswer::BackedOff, label)->Some_0.state == "deferred"@,
        gate_report(InstallAnswer::BackedOff, label)->Some_0.available == label,
        gate_report(InstallAnswer::BackedOff, label)->Some_0.code == 10,
        gate_report(InstallAnswer::Unknown, label) is Some,
        gate_report(InstallAnswer::Unknown, label)->Some_0.state == "needsUser"@,
        gate_report(InstallAnswer::Unknown, label)->Some_0.route == Some(Route::Notify),
        gate_report(InstallAnswer::Unknown, label)->Some_0.code == 11,
{
}

/// What is told of a downloaded bundle: that there is none, that this is no moment
/// for it, what failed, or that it is scheduled.
pub proof fn law_what_is_told_of_a_bundle(tag: Option<Seq<char>>)
    ensures
        bundle_report(BundleInstall::NoBundle, tag) == told("upToDate"@, 12),
        bundle_report(BundleInstall::BadMoment, tag) == (ReportText {
            available: tag,
            ..told("deferred"@, 10)
        }),
        bundle_report(BundleInstall::NotStaged, tag) == (ReportText {
            detail: Some("The update helper could not be staged."@),
            ..told("error"@, 1)
        }),
        bundle_report(BundleInstall::NotScheduled, tag) == (ReportText {
            detail: Some("The update task could not be registered."@),
            ..told("error"@, 1)
        }),
        bundle_report(BundleInstall::Scheduled, tag) == (ReportText {
            action: Some("scheduled"@),
            ..told("installing"@, 0)
        }),
{
}

/// What the app installer's rung comes to: a queued install is told as such and
/// keeps its watchdog; a finished one is told by its code, and where it succeeded the
/// offer is cleared; one that did not start is tried by the helper instead.
pub proof fn law_what_the_app_installers_rung_comes_to(
    code: i32,
    result: HelperText,
    detail: Seq<char>,
    available: Option<Seq<char>>,
)
    ensures
        ({
            let queued = appinstall_rung_text(InstallText::Queued, available);
            let ended = appinstall_rung_text(InstallText::Finished { code, result }, available);
            let failed = appinstall_rung_text(InstallText::NotStarted(detail), available);
            &&& queued == (
                RungText::Done(
                    ReportText {
                        state: "installing"@,
                        available,
                        route: Some(Route::AppInstall),
                        action: Some("queued"@),
                        detail: Some("The Store is installing the update in the background."@),
                        code: 0,
                    },
                ),
                RungEffects { cancel_watchdog: false, clear_offer: false },
            )
            &&& ended.0 == RungText::Done(
                ReportText {
                    state: state_text(code),
                    available,
                    route: Some(Route::AppInstall),
                    action: None,
                    detail: result.detail_text(),
                    code,
                },
            )
            &&& ended.1.clear_offer == (code == 0 || code == 12)
            &&& ended.1.cancel_watchdog == (code != 0 && code != 10)
            &&& failed == (
                RungText::TryHelper(detail),
                RungEffects { cancel_watchdog: true, clear_offer: false },
            )
        }),
{
}

/// What the Store's rung comes to: as the app installer's, but one that did not
/// start lets the next rung try.
pub proof fn law_what_the_stores_rung_comes_to(
    code: i32,
    detail: Seq<char>,
    available: Option<Seq<char>>,
)
    ensures
        store_rung_text(StoreText::NotStarted(detail), available) == (
            RungText::Declined(detail),
            true,
        ),
        store_rung_text(StoreText::Queued, available) == (
            RungText::Done(
                ReportText {
                    state: "installing"@,
                    available,
                    route: Some(Route::Store),
                    action: Some("queued"@),
                    detail: Some("The Store is installing the update in the background."@),
                    code: 0,
                },
            ),
            false,
        ),
        store_rung_text(StoreText::Finished { code, detail: None }, available) == (
            RungText::Done(
                ReportText {
                    state: state_text(code),
                    available,
                    route: Some(Route::Store),
                    action: None,
                    detail: None,
                    code,
                },
            ),
            code != 0 && code != 10,
        ),
        store_rung_text(StoreText::Finished { code, detail: Some(detail) }, available).0
            == RungText::Done(
            ReportText {
                state: state_text(code),
                available,
                route: Some(Route::Store),
                action: None,
                detail: Some("The Store install failed ("@ + detail + ")."@),
                code,
            },
        ),
{
}

/// What winget's rung comes to: scheduled is done, a metered network puts it off,
/// and without winget or without its task the next rung tries.
pub proof fn law_what_wingets_rung_comes_to(available: Option<Seq<char>>)
    ensures
        winget_rung_text(WingetProgress::Missing, available) is Declined,
        winget_rung_text(WingetProgress::NotScheduled, available) is Declined,
        winget_rung_text(WingetProgress::Metered, available) == RungText::Done(
            ReportText {
                state: "deferred"@,
                available,
                route: Some(Route::Winget),
                action: None,
                detail: Some("The network is metered."@),
                code: 10,
            },
        ),
        winget_rung_text(WingetProgress::Scheduled, available) == RungText::Done(
            ReportText {
                state: "installing"@,
                available,
                route: Some(Route::Winget),
                action: Some("scheduled"@),
                detail: None,
                code: 0,
            },
        ),
{
}

/// What the Store says before an install starts: a failed question, an unknown
/// version, unreadable entries and a refusal to download silently start nothing;
/// no update, and none for this app, are nothing to do.
pub proof fn law_what_the_store_says_first(probe: StoreProbe)
    ensures
        ({
            let got = probe_outcome(probe);
            let nothing = StoreText::Finished { code: 12, detail: None };
            &&& probe.updates is Err ==> got == Some(
                StoreText::NotStarted("0x"@ + hex_upper(probe.updates->Err_0 as nat, 8)),
            )
            &&& probe.updates == Ok::<u32, u32>(0) ==> got == Some(nothing)
            &&& probe.updates is Ok && probe.updates->Ok_0 > 0 && probe.current is None ==> got
                is Some && got->Some_0 is NotStarted
            &&& probe.updates is Ok && probe.updates->Ok_0 > 0 && probe.current is Some
                && probe.entries is None ==> got is Some && got->Some_0 is NotStarted
            &&& probe.updates is Ok && probe.updates->Ok_0 > 0 && probe.current is Some
                && probe.entries is Some && probe.entries->Some_0@.len() == 0 ==> got == Some(
                nothing,
            )
            &&& probe.updates is Ok && probe.updates->Ok_0 > 0 && probe.current is Some
                && probe.entries is Some && probe.entries->Some_0@.len() > 0 ==> {
                &&& probe.silent == Ok::<bool, u32>(true) ==> got is None
                &&& probe.silent == Ok::<bool, u32>(false) ==> got is Some && got->Some_0
                    is NotStarted
                &&& probe.silent is Err ==> got == Some(
                    StoreText::NotStarted("0x"@ + hex_upper(probe.silent->Err_0 as nat, 8)),
                )
            }
        }),
{
}

/// How an install starts: without an installer, or refused, nothing has started; an
/// item that is under way is left to run; an accepted start with nothing queued has
/// nothing to do, and with something queued is watched.
pub proof fn law_how_an_install_starts(code: u32, count: u32)
    ensures
        start_outcome(Start::Unavailable) is Some,
        start_outcome(Start::Unavailable)->Some_0 is NotStarted,
        start_outcome(Start::Adopted) == Some(InstallText::Queued),
        start_outcome(Start::Refused(code)) == Some(
            InstallText::NotStarted("0x"@ + hex_upper(code as nat, 8)),
        ),
        start_outcome(Start::Unread(code)) == Some(
            InstallText::Finished {
                code: 1,
                result: HelperText::Error("0x"@ + hex_upper(code as nat, 8)),
            },
        ),
        start_outcome(Start::Queued(0)) == Some(
            InstallText::Finished { code: 12, result: HelperText::Completed },
        ),
        count > 0 ==> start_outcome(Start::Queued(count)) is None,
{
}

/// Whether an item moves: from downloading to completed, or where its percentage or
/// its bytes say so.
pub proof fn law_when_an_item_moves(state: i32, percent: bool, bytes: u64)
    ensures
        3 <= state <= 6 ==> is_moving(AppInstallState(state), percent, bytes),
        percent ==> is_moving(AppInstallState(state), percent, bytes),
        bytes > 0 ==> is_moving(AppInstallState(state), percent, bytes),
        !(3 <= state <= 6) && !percent && bytes == 0 ==> !is_moving(
            AppInstallState(state),
            percent,
            bytes,
        ),
{
}

/// A recorded offer is compared as what it is: a release tag by its first three
/// numbers, a Store version by all four.
pub proof fn law_recorded_offers_are_compared(current: Seq<char>, rest: Seq<char>)
    ensures
        is_label_newer(current, seq!['v'] + rest) == crate::update::is_release_after(
            current,
            seq!['v'] + rest,
        ),
        rest.len() > 0 && rest[0] != 'v' ==> is_label_newer(current, rest) == names_newer_package(
            current,
            rest,
        ),
{
    assert((seq!['v'] + rest)[0] == 'v');
}

} // verus!
