//! The decisions of `fwdslash update`: when a check asks, when an install may
//! start, by which route, and what each outcome is reported as.

use crate::appinstall::{InstallText, Outcome as AppInstallOutcome};
use crate::helper::{helper_context_ok, helper_result_detail};
use crate::options::{
    options_of, parse_args, route_named, Options, Route, Verb, EXIT_AVAILABLE, EXIT_ERROR,
    EXIT_NEEDS_USER, EXIT_NOTHING, EXIT_OK, EXIT_USAGE, EXIT_WRONG_CONTEXT,
};
use crate::path::text_in;
use crate::report::{plain_report, Report, ReportText};
use crate::settings::strings_text;
use crate::settings_write::{
    note_check_attempt, write_of, SettingText, SettingWrite, WriteText,
};
use crate::store::{offer_in, Offer, OfferText, Outcome as StoreOutcome, StoreText};
use crate::text::{chars_of, string_in, string_of, trim, trimmed};
use crate::update::{check_is_due, is_due, OutcomeText, UpdateOutcome, LAST_UPDATE_CHECK_VALUE};
use vstd::prelude::*;

verus! {

// ---------------------------------------------------------------------------
// Routes
// ---------------------------------------------------------------------------

/// The one route for an override and some probes.
pub open spec fn route_choice(
    explicit: Option<Route>,
    appinstall: bool,
    silent: bool,
    winget: bool,
    metered: bool,
) -> Route {
    match explicit {
        Some(route) => route,
        None => if appinstall {
            Route::AppInstall
        } else if silent {
            Route::Store
        } else if winget && !metered {
            Route::Winget
        } else {
            Route::Notify
        },
    }
}

/// Picks one route. An override wins over every probe; otherwise the first rung
/// that is available. A metered network suppresses only winget, which downloads
/// regardless of the user's data settings.
#[must_use]
pub fn route_for(
    explicit: Option<Route>,
    appinstall_available: bool,
    can_silently_download: bool,
    winget_available: bool,
    metered: bool,
) -> (r: Route)
    ensures
        r == route_choice(
            explicit,
            appinstall_available,
            can_silently_download,
            winget_available,
            metered,
        ),
{
    match explicit {
        Some(route) => route,
        None => if appinstall_available {
            Route::AppInstall
        } else if can_silently_download {
            Route::Store
        } else if winget_available && !metered {
            Route::Winget
        } else {
            Route::Notify
        },
    }
}

/// The rungs an unforced install tries, in order: the Store's own install where it
/// may download silently, winget where it is there and the network is not metered,
/// and the app installer last.
pub open spec fn ladder_of(silent: bool, winget: bool, metered: bool) -> Seq<Route> {
    (if silent {
        seq![Route::Store]
    } else {
        Seq::empty()
    }) + (if winget && !metered {
        seq![Route::Winget]
    } else {
        Seq::empty()
    }) + seq![Route::AppInstall]
}

/// Every rung an unforced install may try, in the order it tries them. A rung that
/// declines before queueing anything falls through to the next; once a rung has
/// queued work the walk stops.
#[must_use]
pub fn auto_ladder(can_silently_download: bool, winget_available: bool, metered: bool) -> (r: Vec<
    Route,
>)
    ensures
        r@ == ladder_of(can_silently_download, winget_available, metered),
{
    let mut ladder: Vec<Route> = Vec::new();
    if can_silently_download {
        ladder.push(Route::Store);
    }
    if winget_available && !metered {
        ladder.push(Route::Winget);
    }
    ladder.push(Route::AppInstall);
    assert(ladder@ =~= ladder_of(can_silently_download, winget_available, metered));
    ladder
}

/// The override a stored value spells.
pub open spec fn override_of(value: Option<Seq<char>>) -> Option<Route> {
    match value {
        Some(text) => match route_named(trimmed(text)) {
            Some(route) => route,
            None => None,
        },
        None => None,
    }
}

/// The stored escape hatch: one rung of the ladder, pinned. An unknown name pins
/// nothing.
pub fn route_override(value: Option<&str>) -> (r: Option<Route>)
    ensures
        r == override_of(text_in(value)),
{
    match value {
        None => None,
        Some(text) => {
            let chars = chars_of(text);
            match Route::parse(string_of(trim(chars.as_slice())).as_str()) {
                Some(route) => route,
                None => None,
            }
        },
    }
}

/// The rungs to walk, and whether they were forced. A forced route is exactly one
/// rung and no failover: the point of the escape hatch is to see that rung succeed
/// or fail on its own.
pub fn resolve_route(
    explicit: Option<Route>,
    pinned: Option<Route>,
    can_silently_download: bool,
    winget_available: bool,
    metered: bool,
) -> (r: (Vec<Route>, bool))
    ensures
        r.1 == (explicit is Some || pinned is Some),
        r.0@ == if explicit is Some {
            seq![explicit->Some_0]
        } else if pinned is Some {
            seq![pinned->Some_0]
        } else {
            ladder_of(can_silently_download, winget_available, metered)
        },
{
    let forced = match explicit {
        Some(route) => Some(route),
        None => pinned,
    };
    match forced {
        Some(route) => {
            let mut ladder: Vec<Route> = Vec::new();
            ladder.push(route);
            assert(ladder@ =~= seq![route]);
            (ladder, true)
        },
        None => (auto_ladder(can_silently_download, winget_available, metered), false),
    }
}

// ---------------------------------------------------------------------------
// The gates
// ---------------------------------------------------------------------------

/// Whether now is a good moment to start an install that will force the package
/// closed. An explicit request always wins; otherwise an open settings window and a
/// busy Enter worker veto.
#[must_use]
pub fn install_moment_ok(forced: bool, settings_window_open: bool, worker_busy: bool) -> (r: bool)
    ensures
        r == (forced || (!settings_window_open && !worker_busy)),
{
    forced || (!settings_window_open && !worker_busy)
}

/// What `install` may act on. A failed Store query and a Store that answered
/// "nothing" are different facts, and only the second licenses "nothing to
/// install".
#[derive(Debug, Clone, PartialEq, Eq)]
pub enum Availability {
    /// A successful query, and nothing pending.
    Nothing,
    /// The query could not run. Whether an update exists is unknown.
    Unknown,
    /// Something is pending, named or not.
    Offer(Offer),
}

/// An availability as plain text.
pub enum AvailabilityText {
    Nothing,
    Unknown,
    Offer(OfferText),
}

impl View for Availability {
    type V = AvailabilityText;

    open spec fn view(&self) -> AvailabilityText {
        match self {
            Availability::Nothing => AvailabilityText::Nothing,
            Availability::Unknown => AvailabilityText::Unknown,
            Availability::Offer(offer) => AvailabilityText::Offer(offer@),
        }
    }
}

impl AvailabilityText {
    pub open spec fn label(self) -> Option<Seq<char>> {
        match self {
            AvailabilityText::Offer(offer) => offer.label(),
            _ => None,
        }
    }
}

impl Availability {
    /// The label for the `available` field: a version when there is one, `None` for
    /// an unnamed offer and for both non-offers.
    #[must_use]
    pub fn label(&self) -> (r: Option<String>)
        ensures
            string_in(r) == self@.label(),
    {
        match self {
            Availability::Offer(offer) => offer.label(),
            Availability::Nothing => None,
            Availability::Unknown => None,
        }
    }
}

/// What is available: what the last check recorded comes first, because the Store
/// answers a second query that soon from its cache; then what the Store answered,
/// where it was asked; and unknown where the running version is, or the query
/// failed.
pub fn available_update(
    current_known: bool,
    recorded: Option<Offer>,
    answer: Option<Option<Offer>>,
) -> (r: Availability)
    ensures
        r@ == if !current_known {
            AvailabilityText::Unknown
        } else if recorded is Some {
            AvailabilityText::Offer(recorded->Some_0@)
        } else {
            match answer {
                Some(Some(offer)) => AvailabilityText::Offer(offer@),
                Some(None) => AvailabilityText::Nothing,
                None => AvailabilityText::Unknown,
            }
        },
{
    if !current_known {
        return Availability::Unknown;
    }
    match recorded {
        Some(offer) => Availability::Offer(offer),
        None => match answer {
            Some(Some(offer)) => Availability::Offer(offer),
            Some(None) => Availability::Nothing,
            None => Availability::Unknown,
        },
    }
}

/// What `install` should answer, before any route is chosen.
#[derive(Debug, Clone, Copy, PartialEq, Eq, Structural)]
pub enum InstallAnswer {
    /// Nothing to install.
    Nothing,
    /// The Store could not be asked, so no installer may start.
    Unknown,
    /// An unnamed offer inside its retry backoff.
    BackedOff,
    /// Not now, but there is something.
    Defer,
    /// Run the ladder.
    Proceed,
}

/// The whole of `install`'s gate.
pub open spec fn gate_answer(
    availability: AvailabilityText,
    unnamed_actionable: bool,
    moment_ok: bool,
) -> InstallAnswer {
    match availability {
        AvailabilityText::Nothing => InstallAnswer::Nothing,
        AvailabilityText::Unknown => InstallAnswer::Unknown,
        AvailabilityText::Offer(offer) => if offer is Unnamed && !unnamed_actionable {
            InstallAnswer::BackedOff
        } else if moment_ok {
            InstallAnswer::Proceed
        } else {
            InstallAnswer::Defer
        },
    }
}

/// The whole of `install`'s gate, as one table. Availability outranks the moment,
/// and the moment outranks the route. An unnamed offer may be a repair that will
/// never advance the version, so it gets one attempt per backoff.
#[must_use]
pub fn install_answer(availability: &Availability, unnamed_actionable: bool, moment_ok: bool) -> (r:
    InstallAnswer)
    ensures
        r == gate_answer(availability@, unnamed_actionable, moment_ok),
{
    match availability {
        Availability::Nothing => InstallAnswer::Nothing,
        Availability::Unknown => InstallAnswer::Unknown,
        Availability::Offer(offer) => {
            if matches!(offer, Offer::Unnamed) && !unnamed_actionable {
                return InstallAnswer::BackedOff;
            }
            if moment_ok {
                InstallAnswer::Proceed
            } else {
                InstallAnswer::Defer
            }
        },
    }
}

/// What `install` decides before any route runs.
#[derive(Debug, Clone, Copy, PartialEq, Eq, Structural)]
pub enum Precheck {
    /// Nothing to install.
    Nothing,
    /// Something to install, but not now.
    Defer,
    /// Run the ladder.
    Proceed,
}

/// The order the two gates have to be asked in: availability outranks the moment.
/// The route is no argument at all: a forced route says *how* to install, never
/// *whether* there is anything to.
#[must_use]
pub fn install_precheck(update_available: bool, moment_ok: bool) -> (r: Precheck)
    ensures
        r == if !update_available {
            Precheck::Nothing
        } else if moment_ok {
            Precheck::Proceed
        } else {
            Precheck::Defer
        },
{
    if !update_available {
        return Precheck::Nothing;
    }
    if moment_ok {
        Precheck::Proceed
    } else {
        Precheck::Defer
    }
}

/// The state that goes with an exit code.
pub open spec fn state_text(code: i32) -> Seq<char> {
    if code == EXIT_OK {
        "installed"@
    } else if code == EXIT_AVAILABLE {
        "deferred"@
    } else if code == EXIT_NEEDS_USER {
        "needsUser"@
    } else if code == EXIT_NOTHING {
        "upToDate"@
    } else {
        "error"@
    }
}

/// The `state` string that goes with an exit code. A code no route produces is
/// still an error, never a success.
#[must_use]
pub fn state_for_code(code: i32) -> (r: &'static str)
    ensures
        r@ == state_text(code),
{
    if code == EXIT_OK {
        "installed"
    } else if code == EXIT_AVAILABLE {
        "deferred"
    } else if code == EXIT_NEEDS_USER {
        "needsUser"
    } else if code == EXIT_NOTHING {
        "upToDate"
    } else {
        "error"
    }
}

/// How long the Store answers from its cache after an online scan, in seconds.
pub const STORE_SCAN_COOLDOWN_SECS: u64 = 30 * 60;

/// Whether an empty Store answer leaves a cached offer standing.
pub open spec fn offer_stands(last_check: Option<u64>, now: u64) -> bool {
    last_check is Some && (last_check->Some_0 > now || now - last_check->Some_0
        < STORE_SCAN_COOLDOWN_SECS)
}

/// Whether an empty Store answer should leave a cached newer offer standing: yes
/// while the previous check was recent enough to be inside the cooldown.
#[must_use]
pub fn keep_cached_offer(last_check: Option<u64>, now: u64) -> (r: bool)
    ensures
        r == offer_stands(last_check, now),
{
    match last_check {
        Some(last) => now.saturating_sub(last) < STORE_SCAN_COOLDOWN_SECS,
        None => false,
    }
}

/// Whether the watchdog outlives an app-installer outcome.
#[must_use]
pub fn appinstall_keeps_watchdog(code: i32) -> (r: bool)
    ensures
        r == (code == EXIT_OK || code == EXIT_AVAILABLE),
{
    code == EXIT_OK || code == EXIT_AVAILABLE
}

/// Whether the watchdog outlives a Store outcome.
#[must_use]
pub fn store_keeps_watchdog(code: i32) -> (r: bool)
    ensures
        r == (code == EXIT_OK || code == EXIT_AVAILABLE),
{
    code == EXIT_OK || code == EXIT_AVAILABLE
}

/// Whether a verb's run sweeps the updater's leftovers.
pub fn collect_for(verb: Verb) -> (r: bool)
    ensures
        r == (verb == Verb::Check),
{
    verb.collects_garbage()
}

// ---------------------------------------------------------------------------
// `status` and `check`
// ---------------------------------------------------------------------------

fn label_of(offer: &Option<Offer>) -> (r: Option<String>)
    ensures
        string_in(r) == match offer_in(*offer) {
            Some(offer) => offer.label(),
            None => None,
        },
{
    match offer {
        Some(offer) => offer.label(),
        None => None,
    }
}

/// The report that something is available.
pub open spec fn available_report(label: Option<Seq<char>>) -> ReportText {
    ReportText { available: label, ..plain_report("available"@, EXIT_AVAILABLE) }
}

/// What `status` answers: everything that is already known, and no network at all.
/// Without package identity there is no package to replace.
pub fn cmd_status(packaged: bool, offer: &Option<Offer>) -> (r: Report)
    ensures
        r@ == if !packaged {
            plain_report("disabled"@, EXIT_OK)
        } else {
            match offer_in(*offer) {
                Some(offer) => ReportText {
                    available: offer.label(),
                    ..plain_report("available"@, EXIT_OK)
                },
                None => plain_report("upToDate"@, EXIT_OK),
            }
        },
{
    if !packaged {
        return Report::new("disabled", EXIT_OK);
    }
    match offer {
        Some(_) => Report::new("available", EXIT_OK).available(label_of(offer)),
        None => Report::new("upToDate", EXIT_OK).available(None),
    }
}

/// What `check` does next.
#[derive(Debug, Clone, PartialEq, Eq)]
pub enum CheckNext {
    /// Report this.
    Report(Report),
    /// Clear the recorded offer and report this.
    ForgetAndReport(Report),
    /// Run the GitHub check.
    AskGithub,
    /// Perform this write, which records the attempt, and then ask the Store.
    AskStore(SettingWrite),
}

/// The next step of a check as plain text.
pub enum CheckNextText {
    Report(ReportText),
    ForgetAndReport(ReportText),
    AskGithub,
    AskStore(WriteText),
}

impl View for CheckNext {
    type V = CheckNextText;

    open spec fn view(&self) -> CheckNextText {
        match self {
            CheckNext::Report(report) => CheckNextText::Report(report@),
            CheckNext::ForgetAndReport(report) => CheckNextText::ForgetAndReport(report@),
            CheckNext::AskGithub => CheckNextText::AskGithub,
            CheckNext::AskStore(attempt) => CheckNextText::AskStore(attempt@),
        }
    }
}

/// What is known when `check` starts.
#[derive(Debug, Clone, Copy, PartialEq, Eq)]
pub struct CheckStart {
    pub packaged: bool,
    pub store_flavor: bool,
    pub force: bool,
    pub last_check: Option<u64>,
    pub now: u64,
}

pub open spec fn check_next(start: CheckStart, cached: Option<OfferText>) -> CheckNextText {
    if !start.packaged {
        CheckNextText::Report(plain_report("disabled"@, EXIT_OK))
    } else if !start.force && !is_due(start.last_check, start.now) {
        match cached {
            Some(offer) => CheckNextText::Report(available_report(offer.label())),
            None => CheckNextText::ForgetAndReport(plain_report("notDue"@, EXIT_OK)),
        }
    } else if start.store_flavor {
        CheckNextText::AskStore(write_of(LAST_UPDATE_CHECK_VALUE@, SettingText::Qword(start.now)))
    } else {
        CheckNextText::AskGithub
    }
}

/// What `check` does first. No identity means no package to replace: it reports and
/// makes no network call at all. A check that is not due repeats what is recorded.
pub fn cmd_check(start: &CheckStart, cached: &Option<Offer>) -> (r: CheckNext)
    ensures
        r@ == check_next(*start, offer_in(*cached)),
{
    if !start.packaged {
        return CheckNext::Report(Report::new("disabled", EXIT_OK));
    }
    if !start.force && !check_is_due(start.last_check, start.now) {
        return match cached {
            Some(_) => CheckNext::Report(
                Report::new("available", EXIT_AVAILABLE).available(label_of(cached)),
            ),
            None => CheckNext::ForgetAndReport(Report::new("notDue", EXIT_OK)),
        };
    }
    if start.store_flavor {
        CheckNext::AskStore(note_check_attempt(start.now))
    } else {
        CheckNext::AskGithub
    }
}

/// What a GitHub check is reported as.
pub open spec fn github_check_report(outcome: OutcomeText) -> ReportText {
    match outcome {
        OutcomeText::NotDue => plain_report("notDue"@, EXIT_OK),
        OutcomeText::Unavailable => plain_report("unavailable"@, EXIT_OK),
        OutcomeText::VerificationFailed(error) => ReportText {
            detail: Some(error.message_text()),
            ..plain_report("error"@, EXIT_ERROR)
        },
        OutcomeText::UpToDate => plain_report("upToDate"@, EXIT_OK),
        OutcomeText::Ready(tag) => available_report(Some(tag)),
    }
}

/// What a GitHub check is reported as.
pub fn github_report(outcome: &UpdateOutcome) -> (r: Report)
    ensures
        r@ == github_check_report(outcome@),
{
    match outcome {
        UpdateOutcome::NotDue => Report::new("notDue", EXIT_OK),
        UpdateOutcome::Unavailable => Report::new("unavailable", EXIT_OK),
        UpdateOutcome::VerificationFailed(error) => Report::new("error", EXIT_ERROR).detail(
            error.message().to_owned(),
        ),
        UpdateOutcome::UpToDate => Report::new("upToDate", EXIT_OK),
        UpdateOutcome::Ready(tag) => Report::new("available", EXIT_AVAILABLE).available(
            Some(tag.clone()),
        ),
    }
}

/// What happens to the recorded offer.
#[derive(Debug, Clone, Copy, PartialEq, Eq, Structural)]
pub enum OfferEffect {
    /// It stays as it is.
    Keep,
    /// What the Store answered is recorded.
    Record,
    /// It is cleared.
    Clear,
}

/// What the Store answered.
#[derive(Debug, Clone, PartialEq, Eq)]
pub enum StoreAnswer {
    /// It offers an update.
    Offers(Offer),
    /// It has nothing.
    Empty,
    /// It could not be asked; the string is the code.
    Failed(String),
}

/// The Store's answer as plain text.
pub enum StoreAnswerText {
    Offers(OfferText),
    Empty,
    Failed(Seq<char>),
}

impl View for StoreAnswer {
    type V = StoreAnswerText;

    open spec fn view(&self) -> StoreAnswerText {
        match self {
            StoreAnswer::Offers(offer) => StoreAnswerText::Offers(offer@),
            StoreAnswer::Empty => StoreAnswerText::Empty,
            StoreAnswer::Failed(code) => StoreAnswerText::Failed(code@),
        }
    }
}

pub open spec fn store_check_report(
    answer: StoreAnswerText,
    cached: Option<OfferText>,
    previous_check: Option<u64>,
    now: u64,
) -> (ReportText, OfferEffect) {
    match answer {
        StoreAnswerText::Offers(offer) => (
            if offer is Unnamed {
                ReportText {
                    detail: Some("An update is available in the Microsoft Store."@),
                    ..available_report(None)
                }
            } else {
                available_report(offer.label())
            },
            OfferEffect::Record,
        ),
        StoreAnswerText::Empty => if cached is Some && offer_stands(previous_check, now) {
            (
                ReportText {
                    detail: Some(
                        "The Store answered from its cache; the earlier offer stands."@,
                    ),
                    ..available_report(cached->Some_0.label())
                },
                OfferEffect::Keep,
            )
        } else {
            (plain_report("upToDate"@, EXIT_OK), OfferEffect::Clear)
        },
        StoreAnswerText::Failed(code) => (
            ReportText {
                detail: Some("The Store could not be reached ("@ + code + ")."@),
                ..plain_report("unavailable"@, EXIT_OK)
            },
            OfferEffect::Keep,
        ),
    }
}

/// What a Store check is reported as, and what becomes of the recorded offer.
///
/// An empty answer minutes after a real one is the Store's scan cache, not a
/// withdrawal of the offer. A check that could not run is no failure the user
/// should be shown.
pub fn store_report(
    answer: &StoreAnswer,
    cached: &Option<Offer>,
    previous_check: Option<u64>,
    now: u64,
) -> (r: (Report, OfferEffect))
    ensures
        (r.0@, r.1) == store_check_report(answer@, offer_in(*cached), previous_check, now),
{
    match answer {
        StoreAnswer::Offers(offer) => {
            let report = Report::new("available", EXIT_AVAILABLE).available(offer.label());
            if matches!(offer, Offer::Unnamed) {
                (
                    report.detail("An update is available in the Microsoft Store.".to_owned()),
                    OfferEffect::Record,
                )
            } else {
                (report, OfferEffect::Record)
            }
        },
        StoreAnswer::Empty => {
            if cached.is_some() && keep_cached_offer(previous_check, now) {
                (
                    Report::new("available", EXIT_AVAILABLE).available(label_of(cached)).detail(
                        "The Store answered from its cache; the earlier offer stands.".to_owned(),
                    ),
                    OfferEffect::Keep,
                )
            } else {
                (Report::new("upToDate", EXIT_OK), OfferEffect::Clear)
            }
        },
        StoreAnswer::Failed(code) => {
            let mut text: String = "The Store could not be reached (".to_owned();
            text.push_str(code.as_str());
            text.push_str(").");
            (Report::new("unavailable", EXIT_OK).detail(text), OfferEffect::Keep)
        },
    }
}

// ---------------------------------------------------------------------------
// `install`
// ---------------------------------------------------------------------------

/// What `install` does first.
#[derive(Debug, Clone, Copy, PartialEq, Eq, Structural)]
pub enum InstallPath {
    /// There is no package to replace: report it.
    Disabled,
    /// Apply the downloaded bundle.
    Github,
    /// Ask the Store.
    Store,
}

/// Which of the paths an install takes.
pub fn install_path(packaged: bool, store_flavor: bool) -> (r: InstallPath)
    ensures
        r == if !packaged {
            InstallPath::Disabled
        } else if store_flavor {
            InstallPath::Store
        } else {
            InstallPath::Github
        },
{
    if !packaged {
        InstallPath::Disabled
    } else if store_flavor {
        InstallPath::Store
    } else {
        InstallPath::Github
    }
}

/// The report of a Store install that does not proceed; `None` where the ladder is
/// walked.
pub open spec fn gate_report(answer: InstallAnswer, label: Option<Seq<char>>) -> Option<
    ReportText,
> {
    match answer {
        InstallAnswer::Nothing => Some(plain_report("upToDate"@, EXIT_NOTHING)),
        InstallAnswer::Unknown => Some(
            ReportText {
                route: Some(Route::Notify),
                detail: Some("The Store could not be reached. Install the update from the Store."@),
                ..plain_report("needsUser"@, EXIT_NEEDS_USER)
            },
        ),
        InstallAnswer::BackedOff => Some(
            ReportText {
                available: label,
                detail: Some(
                    "The last attempt at this update did not advance the version; waiting before retrying."@,
                ),
                ..plain_report("deferred"@, EXIT_AVAILABLE)
            },
        ),
        InstallAnswer::Defer => Some(
            ReportText { available: label, ..plain_report("deferred"@, EXIT_AVAILABLE) },
        ),
        InstallAnswer::Proceed => None,
    }
}

/// What a Store install answers before any route is chosen: a report, or `None`
/// where the ladder is walked; and whether the attempt is stamped first, so that a
/// failure of an unnamed offer backs off instead of looping.
pub fn cmd_install(availability: &Availability, unnamed_actionable: bool, moment_ok: bool) -> (r: (
    Option<Report>,
    bool,
))
    ensures
        ({
            let answer = gate_answer(availability@, unnamed_actionable, moment_ok);
            &&& match r.0 {
                Some(report) => gate_report(answer, availability@.label()) == Some(report@),
                None => gate_report(answer, availability@.label()) is None,
            }
            &&& r.1 == (answer == InstallAnswer::Proceed && availability@ is Offer
                && availability@->Offer_0 is Unnamed)
        }),
{
    let label = availability.label();
    match install_answer(availability, unnamed_actionable, moment_ok) {
        InstallAnswer::Nothing => (Some(Report::new("upToDate", EXIT_NOTHING)), false),
        InstallAnswer::Unknown => (
            Some(
                Report::new("needsUser", EXIT_NEEDS_USER).route(Route::Notify).detail(
                    "The Store could not be reached. Install the update from the Store.".to_owned(),
                ),
            ),
            false,
        ),
        InstallAnswer::BackedOff => (
            Some(
                Report::new("deferred", EXIT_AVAILABLE).available(label).detail(
                    "The last attempt at this update did not advance the version; waiting before retrying.".to_owned(),
                ),
            ),
            false,
        ),
        InstallAnswer::Defer => (
            Some(Report::new("deferred", EXIT_AVAILABLE).available(label)),
            false,
        ),
        InstallAnswer::Proceed => (
            None,
            matches!(availability, Availability::Offer(Offer::Unnamed)),
        ),
    }
}

/// How far the install of a downloaded bundle came.
#[derive(Debug, Clone, Copy, PartialEq, Eq, Structural)]
pub enum BundleInstall {
    /// No bundle is pending.
    NoBundle,
    /// One is, but this is no moment.
    BadMoment,
    /// The helper could not be staged.
    NotStaged,
    /// The task could not be registered.
    NotScheduled,
    /// The task is registered.
    Scheduled,
}

/// The report of a bundle install.
pub open spec fn bundle_report(progress: BundleInstall, tag: Option<Seq<char>>) -> ReportText {
    match progress {
        BundleInstall::NoBundle => plain_report("upToDate"@, EXIT_NOTHING),
        BundleInstall::BadMoment => ReportText {
            available: tag,
            ..plain_report("deferred"@, EXIT_AVAILABLE)
        },
        BundleInstall::NotStaged => ReportText {
            detail: Some("The update helper could not be staged."@),
            ..plain_report("error"@, EXIT_ERROR)
        },
        BundleInstall::NotScheduled => ReportText {
            detail: Some("The update task could not be registered."@),
            ..plain_report("error"@, EXIT_ERROR)
        },
        BundleInstall::Scheduled => ReportText {
            action: Some("scheduled"@),
            ..plain_report("installing"@, EXIT_OK)
        },
    }
}

/// Whether the bundle install goes on to stage its helper: `None` where it does. No
/// bundle comes before the moment, because a deferral is a promise that there is
/// something to defer.
pub fn bundle_gate(bundle_pending: bool, moment_ok: bool) -> (r: Option<BundleInstall>)
    ensures
        r == if !bundle_pending {
            Some(BundleInstall::NoBundle)
        } else if !moment_ok {
            Some(BundleInstall::BadMoment)
        } else {
            None
        },
{
    match install_precheck(bundle_pending, moment_ok) {
        Precheck::Nothing => Some(BundleInstall::NoBundle),
        Precheck::Defer => Some(BundleInstall::BadMoment),
        Precheck::Proceed => None,
    }
}

/// The report of a bundle install.
pub fn install_github_bundle(progress: BundleInstall, cached_tag: Option<String>) -> (r: Report)
    ensures
        r@ == bundle_report(progress, string_in(cached_tag)),
{
    match progress {
        BundleInstall::NoBundle => Report::new("upToDate", EXIT_NOTHING),
        BundleInstall::BadMoment => Report::new("deferred", EXIT_AVAILABLE).available(cached_tag),
        BundleInstall::NotStaged => Report::new("error", EXIT_ERROR).detail(
            "The update helper could not be staged.".to_owned(),
        ),
        BundleInstall::NotScheduled => Report::new("error", EXIT_ERROR).detail(
            "The update task could not be registered.".to_owned(),
        ),
        BundleInstall::Scheduled => Report::new("installing", EXIT_OK).action("scheduled"),
    }
}

// ---------------------------------------------------------------------------
// Rungs
// ---------------------------------------------------------------------------

/// What one rung of the ladder did. A declined rung is the **only** outcome that
/// licenses trying another: once a rung has queued work, a second installer would
/// race it.
#[derive(Debug, Clone, PartialEq, Eq)]
pub enum Rung {
    /// Nothing was queued; it is safe to fall through.
    Declined(String),
    /// Terminal. Report this and stop walking.
    Done(Report),
    /// Nothing was queued in this process: try the identity-less helper.
    TryHelper(String),
}

/// A rung as plain text.
pub enum RungText {
    Declined(Seq<char>),
    Done(ReportText),
    TryHelper(Seq<char>),
}

impl View for Rung {
    type V = RungText;

    open spec fn view(&self) -> RungText {
        match self {
            Rung::Declined(detail) => RungText::Declined(detail@),
            Rung::Done(report) => RungText::Done(report@),
            Rung::TryHelper(detail) => RungText::TryHelper(detail@),
        }
    }
}

/// What a rung leaves to do besides its report.
#[derive(Debug, Clone, Copy, PartialEq, Eq, Structural)]
pub struct RungEffects {
    pub cancel_watchdog: bool,
    pub clear_offer: bool,
}

fn copied(text: Option<&str>) -> (r: Option<String>)
    ensures
        string_in(r) == text_in(text),
{
    match text {
        Some(value) => Some(value.to_owned()),
        None => None,
    }
}

/// The report of a rung whose watchdog could not be registered.
pub open spec fn no_watchdog_text(route: Route, available: Option<Seq<char>>) -> ReportText {
    ReportText {
        route: Some(route),
        available,
        detail: Some("The relaunch watchdog could not be registered."@),
        ..plain_report("error"@, EXIT_ERROR)
    }
}

/// The report of a rung whose watchdog could not be registered: every route that
/// can close the package registers its watchdog first.
pub fn no_watchdog_report(route: Route, available: Option<&str>) -> (r: Report)
    ensures
        r@ == no_watchdog_text(route, text_in(available)),
{
    Report::new("error", EXIT_ERROR).route(route).available(copied(available)).detail(
        "The relaunch watchdog could not be registered.".to_owned(),
    )
}

/// The report of an install the Store has queued.
pub open spec fn queued_report(route: Route, available: Option<Seq<char>>) -> ReportText {
    ReportText {
        route: Some(route),
        available,
        action: Some("queued"@),
        detail: Some("The Store is installing the update in the background."@),
        ..plain_report("installing"@, EXIT_OK)
    }
}

fn queued(route: Route, available: Option<&str>) -> (r: Report)
    ensures
        r@ == queued_report(route, text_in(available)),
{
    Report::new("installing", EXIT_OK).route(route).action("queued").available(
        copied(available),
    ).detail("The Store is installing the update in the background.".to_owned())
}

/// The report of an exit code.
pub open spec fn code_report(code: i32, route: Route, available: Option<Seq<char>>) -> ReportText {
    ReportText { route: Some(route), available, ..plain_report(state_text(code), code) }
}

/// The report of an exit code on a route.
pub fn report_for_code(code: i32, route: Route) -> (r: Report)
    ensures
        r@ == code_report(code, route, None),
{
    Report::new(state_for_code(code), code).route(route)
}

pub open spec fn appinstall_rung_text(outcome: InstallText, available: Option<Seq<char>>) -> (
    RungText,
    RungEffects,
) {
    match outcome {
        InstallText::Queued => (
            RungText::Done(queued_report(Route::AppInstall, available)),
            RungEffects { cancel_watchdog: false, clear_offer: false },
        ),
        InstallText::Finished { code, result } => (
            RungText::Done(
                ReportText {
                    detail: result.detail_text(),
                    ..code_report(code, Route::AppInstall, available)
                },
            ),
            RungEffects {
                cancel_watchdog: !(code == EXIT_OK || code == EXIT_AVAILABLE),
                clear_offer: code == EXIT_OK || code == EXIT_NOTHING,
            },
        ),
        InstallText::NotStarted(detail) => (
            RungText::TryHelper(detail),
            RungEffects { cancel_watchdog: true, clear_offer: false },
        ),
    }
}

/// What the app-installer rung did, for what the installer did in this process. A
/// refusal before anything was queued goes on to the identity-less helper. Where
/// the Store had nothing to install, the recorded offer is spent too: a standing
/// notice would repeat forever.
pub fn try_appinstall(outcome: &AppInstallOutcome, available: Option<&str>) -> (r: (
    Rung,
    RungEffects,
))
    ensures
        (r.0@, r.1) == appinstall_rung_text(outcome@, text_in(available)),
{
    match outcome {
        AppInstallOutcome::Queued => (
            Rung::Done(queued(Route::AppInstall, available)),
            RungEffects { cancel_watchdog: false, clear_offer: false },
        ),
        AppInstallOutcome::Finished { code, result } => {
            let report = report_for_code(*code, Route::AppInstall).available(copied(available));
            let report = match helper_result_detail(result) {
                Some(detail) => report.detail(detail),
                None => report,
            };
            (
                Rung::Done(report),
                RungEffects {
                    cancel_watchdog: !appinstall_keeps_watchdog(*code),
                    clear_offer: *code == EXIT_OK || *code == EXIT_NOTHING,
                },
            )
        },
        AppInstallOutcome::NotStarted(detail) => (
            Rung::TryHelper(detail.clone()),
            RungEffects { cancel_watchdog: true, clear_offer: false },
        ),
    }
}

/// What the app-installer rung did, for whether its helper was staged and
/// scheduled.
pub fn try_appinstall_helper(scheduled: bool, detail: &str, available: Option<&str>) -> (r: Rung)
    ensures
        r@ == if scheduled {
            RungText::Done(
                ReportText {
                    route: Some(Route::AppInstall),
                    available: text_in(available),
                    action: Some("scheduled"@),
                    detail: Some("In-process install unavailable ("@ + detail@ + ")."@),
                    ..plain_report("installing"@, EXIT_OK)
                },
            )
        } else {
            RungText::Declined(detail@)
        },
{
    if scheduled {
        let mut text: String = "In-process install unavailable (".to_owned();
        text.push_str(detail);
        text.push_str(").");
        Rung::Done(
            Report::new("installing", EXIT_OK).route(Route::AppInstall).action(
                "scheduled",
            ).available(copied(available)).detail(text),
        )
    } else {
        Rung::Declined(detail.to_owned())
    }
}

pub open spec fn store_rung_text(outcome: StoreText, available: Option<Seq<char>>) -> (
    RungText,
    bool,
) {
    match outcome {
        StoreText::Queued => (RungText::Done(queued_report(Route::Store, available)), false),
        StoreText::Finished { code, detail } => (
            RungText::Done(
                ReportText {
                    detail: match detail {
                        Some(text) => Some("The Store install failed ("@ + text + ")."@),
                        None => None,
                    },
                    ..code_report(code, Route::Store, available)
                },
            ),
            !(code == EXIT_OK || code == EXIT_AVAILABLE),
        ),
        StoreText::NotStarted(detail) => (RungText::Declined(detail), true),
    }
}

/// What the Store rung did, and whether its watchdog is cancelled.
pub fn try_store(outcome: &StoreOutcome, available: Option<&str>) -> (r: (Rung, bool))
    ensures
        (r.0@, r.1) == store_rung_text(outcome@, text_in(available)),
{
    match outcome {
        StoreOutcome::Queued => (Rung::Done(queued(Route::Store, available)), false),
        StoreOutcome::Finished { code, detail } => {
            let report = report_for_code(*code, Route::Store).available(copied(available));
            let report = match detail {
                Some(shown) => {
                    let mut text: String = "The Store install failed (".to_owned();
                    text.push_str(shown.as_str());
                    text.push_str(").");
                    report.detail(text)
                },
                None => report,
            };
            (Rung::Done(report), !store_keeps_watchdog(*code))
        },
        StoreOutcome::NotStarted(detail) => (Rung::Declined(detail.clone()), true),
    }
}

/// How far the winget rung came.
#[derive(Debug, Clone, Copy, PartialEq, Eq, Structural)]
pub enum WingetProgress {
    /// There is no winget.
    Missing,
    /// There is, but the network is metered.
    Metered,
    /// The task could not be registered.
    NotScheduled,
    /// The task is registered.
    Scheduled,
}

pub open spec fn winget_rung_text(progress: WingetProgress, available: Option<Seq<char>>) -> RungText {
    match progress {
        WingetProgress::Missing => RungText::Declined(
            "the Windows App Installer alias is unavailable"@,
        ),
        WingetProgress::Metered => RungText::Done(
            ReportText {
                route: Some(Route::Winget),
                available,
                detail: Some("The network is metered."@),
                ..plain_report("deferred"@, EXIT_AVAILABLE)
            },
        ),
        WingetProgress::NotScheduled => RungText::Declined(
            "the update task could not be registered"@,
        ),
        WingetProgress::Scheduled => RungText::Done(
            ReportText {
                route: Some(Route::Winget),
                available,
                action: Some("scheduled"@),
                ..plain_report("installing"@, EXIT_OK)
            },
        ),
    }
}

/// What the winget rung did. A metered network is a deliberate stop rather than a
/// rung that could not run: winget downloads regardless of the user's data
/// settings.
pub fn try_winget(progress: WingetProgress, available: Option<&str>) -> (r: Rung)
    ensures
        r@ == winget_rung_text(progress, text_in(available)),
{
    match progress {
        WingetProgress::Missing => Rung::Declined(
            "the Windows App Installer alias is unavailable".to_owned(),
        ),
        WingetProgress::Metered => Rung::Done(
            Report::new("deferred", EXIT_AVAILABLE).route(Route::Winget).available(
                copied(available),
            ).detail("The network is metered.".to_owned()),
        ),
        WingetProgress::NotScheduled => Rung::Declined(
            "the update task could not be registered".to_owned(),
        ),
        WingetProgress::Scheduled => Rung::Done(
            Report::new("installing", EXIT_OK).route(Route::Winget).action("scheduled").available(
                copied(available),
            ),
        ),
    }
}

/// What the notify rung does: tell the user and change nothing.
pub fn try_notify(available: Option<&str>) -> (r: Rung)
    ensures
        r@ == RungText::Done(
            ReportText {
                route: Some(Route::Notify),
                available: text_in(available),
                ..plain_report("needsUser"@, EXIT_NEEDS_USER)
            },
        ),
{
    Rung::Done(
        Report::new("needsUser", EXIT_NEEDS_USER).route(Route::Notify).available(copied(available)),
    )
}

// ---------------------------------------------------------------------------
// The walk
// ---------------------------------------------------------------------------

/// Some texts with `; ` between each two.
pub open spec fn listed(texts: Seq<Seq<char>>) -> Seq<char>
    decreases texts.len(),
{
    if texts.len() == 0 {
        Seq::empty()
    } else if texts.len() == 1 {
        texts[0]
    } else {
        listed(texts.drop_last()) + "; "@ + texts.last()
    }
}

/// A walk of the ladder: the rungs, and what each declined rung said.
pub struct LadderWalk {
    ladder: Vec<Route>,
    declined: Vec<String>,
}

impl LadderWalk {
    pub closed spec fn ladder(&self) -> Seq<Route> {
        self.ladder@
    }

    /// What each declined rung said, behind its name.
    pub closed spec fn declined(&self) -> Seq<Seq<char>> {
        crate::settings::strings_text(self.declined@)
    }

    pub fn new(ladder: Vec<Route>) -> (r: Self)
        ensures
            r.ladder() == ladder@,
            r.declined() == Seq::<Seq<char>>::empty(),
    {
        let declined: Vec<String> = Vec::new();
        assert(crate::settings::strings_text(declined@) =~= Seq::empty());
        LadderWalk { ladder, declined }
    }

    /// The rung to try next: the first that has not declined.
    pub fn current(&self) -> (r: Option<Route>)
        ensures
            r == if self.declined().len() < self.ladder().len() {
                Some(self.ladder()[self.declined().len() as int])
            } else {
                None
            },
    {
        let at: usize = self.declined.len();
        if at < self.ladder.len() {
            Some(self.ladder[at])
        } else {
            None
        }
    }

    /// Goes on to the next rung: the current one declined before it queued
    /// anything.
    pub fn decline(&mut self, detail: &str)
        requires
            old(self).declined().len() < old(self).ladder().len(),
        ensures
            final(self).ladder() == old(self).ladder(),
            final(self).declined() == old(self).declined().push(
                old(self).ladder()[old(self).declined().len() as int].name_text() + ": "@
                    + detail@,
            ),
    {
        let at: usize = self.declined.len();
        let mut text: String = self.ladder[at].name().to_owned();
        text.push_str(": ");
        text.push_str(detail);
        let ghost before = crate::settings::strings_text(self.declined@);
        self.declined.push(text);
        assert(crate::settings::strings_text(self.declined@) =~= before.push(text@));
    }

    /// The report where every rung declined without queueing anything: the user can
    /// still press Update in the Store.
    pub fn give_up(&self, available: Option<&str>) -> (r: Report)
        ensures
            r@ == (ReportText {
                route: Some(Route::Notify),
                available: text_in(available),
                detail: Some(
                    "No install route was available ("@ + listed(self.declined()) + ")."@,
                ),
                ..plain_report("needsUser"@, EXIT_NEEDS_USER)
            }),
    {
        let mut text: String = "No install route was available (".to_owned();
        let ghost lead = text@;
        let ghost all = self.declined();
        assert(text@ =~= lead + listed(all.take(0)));
        for i in 0..self.declined.len()
            invariant
                all == self.declined(),
                text@ == lead + listed(all.take(i as int)),
        {
            proof {
                assert(all.take(i + 1).drop_last() =~= all.take(i as int));
                assert(all.take(i + 1).last() == all[i as int]);
            }
            if i > 0 {
                text.push_str("; ");
            }
            text.push_str(self.declined[i].as_str());
            assert(text@ =~= lead + listed(all.take(i + 1)));
        }
        assert(all.take(all.len() as int) =~= all);
        text.push_str(").");
        Report::new("needsUser", EXIT_NEEDS_USER).route(Route::Notify).available(
            copied(available),
        ).detail(text)
    }
}

// ---------------------------------------------------------------------------
// Laws
// ---------------------------------------------------------------------------

/// Availability outranks the moment: with nothing to install the answer is that,
/// whatever the moment, and a deferral always has something behind it.
pub proof fn law_availability_outranks_the_moment(
    availability: AvailabilityText,
    unnamed_actionable: bool,
    moment_ok: bool,
)
    ensures
        availability is Nothing ==> gate_answer(availability, unnamed_actionable, moment_ok)
            == InstallAnswer::Nothing,
        gate_answer(availability, unnamed_actionable, moment_ok) == InstallAnswer::Nothing
            ==> availability is Nothing,
        gate_answer(availability, unnamed_actionable, moment_ok) == InstallAnswer::Defer
            ==> availability is Offer && !moment_ok,
        gate_answer(availability, unnamed_actionable, moment_ok) == InstallAnswer::Proceed
            ==> availability is Offer && moment_ok,
{
}

/// A ladder never holds winget on a metered network, and the app installer is
/// always its last rung.
pub proof fn law_ladder_respects_the_network(silent: bool, winget: bool, metered: bool)
    ensures
        metered ==> !ladder_of(silent, winget, metered).contains(Route::Winget),
        ladder_of(silent, winget, metered).last() == Route::AppInstall,
        !ladder_of(silent, winget, metered).contains(Route::Notify),
{
}

/// Only a rung that queued nothing lets the walk go on: an outcome that may have
/// queued work is terminal on every route.
pub proof fn law_queued_work_stops_the_walk(
    installed: InstallText,
    stored: StoreText,
    available: Option<Seq<char>>,
)
    ensures
        !(installed is NotStarted) ==> appinstall_rung_text(installed, available).0 is Done,
        !(stored is NotStarted) ==> store_rung_text(stored, available).0 is Done,
{
}

/// The watchdog is cancelled only where nothing can land any more.
pub proof fn law_pending_installs_keep_their_watchdog(
    installed: InstallText,
    stored: StoreText,
    available: Option<Seq<char>>,
)
    ensures
        installed is Queued ==> !appinstall_rung_text(installed, available).1.cancel_watchdog,
        installed is Finished && (installed->code == EXIT_OK || installed->code
            == EXIT_AVAILABLE) ==> !appinstall_rung_text(installed, available).1.cancel_watchdog,
        stored is Queued ==> !store_rung_text(stored, available).1,
{
}

// ---------------------------------------------------------------------------
// Dispatch
// ---------------------------------------------------------------------------

pub const USAGE: &'static str = "usage: fwdslash update check|install|status [--json] [--force] [--relaunch app|broker|none] [--route <name>]";

/// What `fwdslash update …` does with its arguments.
#[derive(Debug, Clone, PartialEq, Eq)]
pub enum Dispatch {
    /// Print this and exit with this code.
    Refuse { message: String, code: i32 },
    /// Perform the verb.
    Perform(Options),
}

/// Whether only the helper, outside the package, performs a verb.
pub open spec fn is_for_the_helper(verb: Verb) -> bool {
    verb == Verb::ApplyStore || verb == Verb::ApplyBundle
}

/// Reads everything behind `update`. The two apply verbs exist only because the
/// packaged process cannot do their work, so a packaged process refuses them.
pub fn run(arguments: &[String], packaged: bool) -> (r: Dispatch)
    ensures
        match r {
            Dispatch::Refuse { message, code } => match options_of(strings_text(arguments@)) {
                None => message@ == USAGE@ && code == EXIT_USAGE,
                Some(options) => {
                    &&& packaged && is_for_the_helper(options.verb)
                    &&& message@ == "fwdslash update "@ + options.verb.name_text()
                        + " runs only from the update helper."@
                    &&& code == EXIT_WRONG_CONTEXT
                },
            },
            Dispatch::Perform(options) => {
                &&& options_of(strings_text(arguments@)) == Some(options@)
                &&& !(packaged && is_for_the_helper(options.verb))
            },
        },
{
    let options = match parse_args(arguments) {
        Some(options) => options,
        None => {
            return Dispatch::Refuse { message: USAGE.to_owned(), code: EXIT_USAGE };
        },
    };
    if options.verb.is_helper_only() && !helper_context_ok(packaged) {
        let mut message: String = "fwdslash update ".to_owned();
        message.push_str(options.verb.name());
        message.push_str(" runs only from the update helper.");
        return Dispatch::Refuse { message, code: EXIT_WRONG_CONTEXT };
    }
    Dispatch::Perform(options)
}

}
