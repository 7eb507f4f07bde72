//! The Store's app installer: what the states of its queue mean, and when a wait
//! on them ends.

use crate::helper::{HelperResult, HelperText};
use crate::options::{EXIT_AVAILABLE, EXIT_ERROR, EXIT_NOTHING, EXIT_OK};
use crate::path::text_in;
use crate::text::{hex_upper, push_hex_upper};
use vstd::prelude::*;

verus! {

// ---------------------------------------------------------------------------
// How long an install may be watched
// ---------------------------------------------------------------------------

/// How long the **foreground** program watches a queued install before handing it
/// off, in nanoseconds: three minutes.
pub const ADMISSION_WINDOW: u128 = 3 * 60 * 1_000_000_000;

/// How long the **background** helper waits, in nanoseconds: forty-five minutes.
pub const INSTALL_CEILING: u128 = 45 * 60 * 1_000_000_000;

/// Who is waiting on an install, and therefore how long the wait may run, in
/// nanoseconds.
#[derive(Debug, Clone, Copy, PartialEq, Eq, Structural)]
pub enum WaitPolicy {
    /// The packaged program, with a caller blocked on its exit code.
    Foreground { admission: u128 },
    /// The identity-less helper, with nobody waiting.
    Background { ceiling: u128 },
}

/// What a poll loop does next while work is still in flight.
#[derive(Debug, Clone, Copy, PartialEq, Eq, Structural)]
pub enum Verdict {
    /// Read the status again next tick.
    Continue,
    /// Stop waiting and report the install as queued: the Store owns it now.
    HandOff,
    /// Stop waiting and report a pause: the ceiling passed with no conclusion.
    TimedOut,
}

/// The wait rule.
pub open spec fn wait_verdict(policy: WaitPolicy, elapsed: u128, progressed: bool) -> Verdict {
    match policy {
        WaitPolicy::Foreground { admission } => if progressed || elapsed >= admission {
            Verdict::HandOff
        } else {
            Verdict::Continue
        },
        WaitPolicy::Background { ceiling } => if elapsed >= ceiling {
            Verdict::TimedOut
        } else {
            Verdict::Continue
        },
    }
}

/// The wait rule. `progressed` is whether the install has ever shown the Store
/// actually working rather than holding it in a queue. A foreground caller leaves
/// as soon as that is true, because from that moment the Store may force-close the
/// package.
#[must_use]
pub fn verdict(policy: WaitPolicy, elapsed: u128, progressed: bool) -> (r: Verdict)
    ensures
        r == wait_verdict(policy, elapsed, progressed),
{
    match policy {
        WaitPolicy::Foreground { admission } => if progressed || elapsed >= admission {
            Verdict::HandOff
        } else {
            Verdict::Continue
        },
        WaitPolicy::Background { ceiling } => if elapsed >= ceiling {
            Verdict::TimedOut
        } else {
            Verdict::Continue
        },
    }
}

// ---------------------------------------------------------------------------
// States
// ---------------------------------------------------------------------------

/// The state of an item in the Store's queue, by its number.
#[derive(Debug, Clone, Copy, PartialEq, Eq, Structural)]
pub struct AppInstallState(pub i32);

pub const STATE_PENDING: i32 = 0;

pub const STATE_STARTING: i32 = 1;

pub const STATE_ACQUIRING_LICENSE: i32 = 2;

pub const STATE_DOWNLOADING: i32 = 3;

pub const STATE_RESTORING_DATA: i32 = 4;

pub const STATE_INSTALLING: i32 = 5;

pub const STATE_COMPLETED: i32 = 6;

pub const STATE_CANCELED: i32 = 7;

pub const STATE_PAUSED: i32 = 8;

pub const STATE_FAILED: i32 = 9;

pub const STATE_PAUSED_LOW_BATTERY: i32 = 10;

pub const STATE_PAUSED_WIFI_RECOMMENDED: i32 = 11;

pub const STATE_PAUSED_WIFI_REQUIRED: i32 = 12;

pub const STATE_READY_TO_DOWNLOAD: i32 = 13;

/// Where one state leaves the poll loop.
#[derive(Debug, Clone, Copy, PartialEq, Eq, Structural)]
pub enum Poll {
    /// Still working; read it again next tick.
    Continue,
    /// Terminal, with this exit code.
    Finished(i32),
}

/// Where one state leaves the poll loop.
pub open spec fn poll_of(state: AppInstallState) -> Poll {
    if STATE_PENDING <= state.0 <= STATE_INSTALLING || state.0 == STATE_READY_TO_DOWNLOAD {
        Poll::Continue
    } else if state.0 == STATE_COMPLETED {
        Poll::Finished(EXIT_OK)
    } else if state.0 == STATE_PAUSED || STATE_PAUSED_LOW_BATTERY <= state.0
        <= STATE_PAUSED_WIFI_REQUIRED {
        Poll::Finished(EXIT_AVAILABLE)
    } else {
        Poll::Finished(EXIT_ERROR)
    }
}

/// The state-to-exit-code table. The paused states are **not** errors: the Store
/// paused the download for battery or for a metered Wi-Fi and will resume it. An
/// unrecognised state is terminal rather than a long poll.
#[must_use]
pub fn code_for(state: AppInstallState) -> (r: Poll)
    ensures
        r == poll_of(state),
{
    let number = state.0;
    if number == STATE_PENDING || number == STATE_STARTING || number == STATE_ACQUIRING_LICENSE
        || number == STATE_DOWNLOADING || number == STATE_RESTORING_DATA || number
        == STATE_INSTALLING || number == STATE_READY_TO_DOWNLOAD {
        Poll::Continue
    } else if number == STATE_COMPLETED {
        Poll::Finished(EXIT_OK)
    } else if number == STATE_PAUSED || number == STATE_PAUSED_LOW_BATTERY || number
        == STATE_PAUSED_WIFI_RECOMMENDED || number == STATE_PAUSED_WIFI_REQUIRED {
        Poll::Finished(EXIT_AVAILABLE)
    } else {
        Poll::Finished(EXIT_ERROR)
    }
}

/// Whether one status proves the Store is working on the item.
pub open spec fn is_moving(state: AppInstallState, percent_moved: bool, bytes: u64) -> bool {
    STATE_DOWNLOADING <= state.0 <= STATE_COMPLETED || percent_moved || bytes > 0
}

/// Whether one status proves the Store is working on the item rather than holding
/// it in its queue: a byte downloaded, a percentage above zero, or a state past
/// the download's start.
#[must_use]
pub fn shows_progress(state: AppInstallState, percent_moved: bool, bytes_downloaded: u64) -> (r:
    bool)
    ensures
        r == is_moving(state, percent_moved, bytes_downloaded),
{
    (STATE_DOWNLOADING <= state.0 && state.0 <= STATE_COMPLETED) || percent_moved
        || bytes_downloaded > 0
}

/// What to do with an item the Store's queue already holds for this product.
#[derive(Debug, Clone, Copy, PartialEq, Eq, Structural)]
pub enum Existing {
    /// The Store is still working on it: adopt it rather than queue a twin.
    Adopt,
    /// A leftover of an earlier attempt. Cancel it so that it cannot shadow the
    /// new request.
    Clear,
}

#[must_use]
pub fn existing_item(state: AppInstallState) -> (r: Existing)
    ensures
        r == if poll_of(state) == Poll::Continue {
            Existing::Adopt
        } else {
            Existing::Clear
        },
{
    match code_for(state) {
        Poll::Continue => Existing::Adopt,
        Poll::Finished(_) => Existing::Clear,
    }
}

/// What the helper records for an exit code.
pub open spec fn recorded_result(code: i32, error: Option<Seq<char>>) -> HelperText {
    if code == EXIT_OK || code == EXIT_NOTHING {
        HelperText::Completed
    } else if code == EXIT_AVAILABLE {
        HelperText::Paused
    } else {
        HelperText::Error(
            match error {
                Some(text) => text,
                None => "0x80004005"@,
            },
        )
    }
}

/// What the helper records for an exit code, so that a later packaged run can fold
/// it in.
#[must_use]
pub fn result_for(code: i32, error: Option<&str>) -> (r: HelperResult)
    ensures
        r@ == recorded_result(code, text_in(error)),
{
    if code == EXIT_OK || code == EXIT_NOTHING {
        HelperResult::Completed
    } else if code == EXIT_AVAILABLE {
        HelperResult::Paused
    } else {
        HelperResult::Error(
            match error {
                Some(text) => text.to_owned(),
                None => "0x80004005".to_owned(),
            },
        )
    }
}

/// How bad an exit code is.
pub open spec fn badness(code: i32) -> u8 {
    if code == EXIT_OK || code == EXIT_NOTHING {
        0
    } else if code == EXIT_AVAILABLE {
        1
    } else {
        2
    }
}

/// Error beats pause beats completion.
#[must_use]
pub fn severity(code: i32) -> (r: u8)
    ensures
        r == badness(code),
{
    if code == EXIT_OK || code == EXIT_NOTHING {
        0
    } else if code == EXIT_AVAILABLE {
        1
    } else {
        2
    }
}

// ---------------------------------------------------------------------------
// One attempt
// ---------------------------------------------------------------------------

/// What one attempt at the app-installer route did.
#[derive(Debug, Clone, PartialEq, Eq)]
pub enum Outcome {
    /// An install was queued and polled to a conclusion.
    Finished { code: i32, result: HelperResult },
    /// An install is queued with the Store and still in flight. The caller must
    /// not start another installer, and must not wait any longer.
    Queued,
    /// Nothing was ever queued; the string is the code. This is a route change,
    /// not a failure to report.
    NotStarted(String),
}

/// An outcome as plain text.
pub enum InstallText {
    Finished { code: i32, result: HelperText },
    Queued,
    NotStarted(Seq<char>),
}

impl View for Outcome {
    type V = InstallText;

    open spec fn view(&self) -> InstallText {
        match self {
            Outcome::Finished { code, result } => InstallText::Finished {
                code: *code,
                result: result@,
            },
            Outcome::Queued => InstallText::Queued,
            Outcome::NotStarted(code) => InstallText::NotStarted(code@),
        }
    }
}

/// A Windows error code as text.
pub open spec fn code_text(code: u32) -> Seq<char> {
    "0x"@ + hex_upper(code as nat, 8)
}

/// A Windows error code as text.
pub fn hex(code: u32) -> (r: String)
    ensures
        r@ == code_text(code),
{
    let mut text: String = "0x".to_owned();
    push_hex_upper(&mut text, code as u64, 8);
    text
}

/// What one tick reads of a queued item.
#[derive(Debug, Clone, Copy, PartialEq, Eq)]
pub struct ItemStatus {
    pub state: AppInstallState,
    /// Whether the percentage is above zero.
    pub percent_moved: bool,
    pub bytes_downloaded: u64,
    /// The item's error code, where it could be read.
    pub error: Option<u32>,
}

/// The worse of two codes, the earlier one on a tie.
pub open spec fn worse(previous: Option<i32>, code: i32) -> i32 {
    match previous {
        Some(before) => if badness(before) >= badness(code) {
            before
        } else {
            code
        },
        None => code,
    }
}

/// The worst exit code among the items that ended.
pub open spec fn worst_code(items: Seq<Option<ItemStatus>>) -> Option<i32>
    decreases items.len(),
{
    if items.len() == 0 {
        None
    } else {
        let before = worst_code(items.drop_last());
        match items.last() {
            Some(status) => match poll_of(status.state) {
                Poll::Finished(code) => Some(worse(before, code)),
                Poll::Continue => before,
            },
            None => before,
        }
    }
}

/// Whether an item's error is reported: the item failed and the code could be
/// read.
pub open spec fn has_error(item: Option<ItemStatus>) -> bool {
    item is Some && poll_of(item->Some_0.state) == Poll::Finished(EXIT_ERROR)
        && item->Some_0.error is Some
}

/// The error code of the first item that failed with one.
pub open spec fn first_error(items: Seq<Option<ItemStatus>>) -> Option<u32>
    decreases items.len(),
{
    if items.len() == 0 {
        None
    } else if first_error(items.drop_last()) is Some {
        first_error(items.drop_last())
    } else if has_error(items.last()) {
        items.last()->Some_0.error
    } else {
        None
    }
}

/// Whether an item is unresolved: unreadable, or still being worked on.
pub open spec fn is_unresolved(item: Option<ItemStatus>) -> bool {
    item is None || poll_of(item->Some_0.state) == Poll::Continue
}

/// Whether any item is unresolved.
pub open spec fn still_working(items: Seq<Option<ItemStatus>>) -> bool {
    exists|i: int| 0 <= i < items.len() && is_unresolved(#[trigger] items[i])
}

/// Whether any item has shown the Store working.
pub open spec fn any_moving(items: Seq<Option<ItemStatus>>) -> bool {
    exists|i: int|
        0 <= i < items.len() && (#[trigger] items[i]) is Some && is_moving(
            items[i]->Some_0.state,
            items[i]->Some_0.percent_moved,
            items[i]->Some_0.bytes_downloaded,
        )
}

pub open spec fn error_in(items: Seq<Option<ItemStatus>>) -> Option<Seq<char>> {
    match first_error(items) {
        Some(code) => Some(code_text(code)),
        None => None,
    }
}

/// What one tick concludes; `None` where the items are read again.
///
/// A failure or a pause ends the wait even while another item downloads: that item
/// is installing something that will not be had. Completion needs a terminal
/// observation of every item.
pub open spec fn tick_outcome(
    items: Seq<Option<ItemStatus>>,
    policy: WaitPolicy,
    elapsed: u128,
    progressed: bool,
) -> Option<InstallText> {
    let worst = worst_code(items);
    let working = still_working(items);
    if worst is Some && (worst->Some_0 != EXIT_OK || !working) {
        Some(
            InstallText::Finished {
                code: worst->Some_0,
                result: recorded_result(worst->Some_0, error_in(items)),
            },
        )
    } else if !working {
        Some(InstallText::Finished { code: EXIT_OK, result: HelperText::Completed })
    } else {
        match wait_verdict(policy, elapsed, progressed) {
            Verdict::Continue => None,
            Verdict::HandOff => Some(InstallText::Queued),
            Verdict::TimedOut => Some(
                InstallText::Finished { code: EXIT_AVAILABLE, result: HelperText::Paused },
            ),
        }
    }
}

/// A wait on the items of one install.
pub struct ItemPoll {
    policy: WaitPolicy,
    progressed: bool,
}

impl ItemPoll {
    pub closed spec fn policy(&self) -> WaitPolicy {
        self.policy
    }

    /// Whether the Store was ever seen working.
    pub closed spec fn progressed(&self) -> bool {
        self.progressed
    }

    pub fn new(policy: WaitPolicy) -> (r: Self)
        ensures
            r.policy() == policy,
            !r.progressed(),
    {
        ItemPoll { policy, progressed: false }
    }

    /// Takes one reading of every item (`None` for one that could not be read) and
    /// says how the wait ends, or that it goes on.
    pub fn poll_items(&mut self, items: &[Option<ItemStatus>], elapsed: u128) -> (r: Option<
        Outcome,
    >)
        ensures
            final(self).policy() == old(self).policy(),
            final(self).progressed() == (old(self).progressed() || any_moving(items@)),
            match r {
                Some(outcome) => tick_outcome(
                    items@,
                    final(self).policy(),
                    elapsed,
                    final(self).progressed(),
                ) == Some(outcome@),
                None => tick_outcome(
                    items@,
                    final(self).policy(),
                    elapsed,
                    final(self).progressed(),
                ) is None,
            },
    {
        let mut worst: Option<i32> = None;
        let mut error: Option<u32> = None;
        let mut working = false;
        let ghost start = self.progressed;
        for i in 0..items.len()
            invariant
                self.policy == old(self).policy,
                start == old(self).progressed,
                self.progressed == (start || any_moving(items@.take(i as int))),
                worst == worst_code(items@.take(i as int)),
                error == first_error(items@.take(i as int)),
                working == still_working(items@.take(i as int)),
        {
            let ghost before = items@.take(i as int);
            let ghost now = items@.take(i + 1);
            proof {
                assert(now.drop_last() =~= before);
                assert(now.last() == items@[i as int]);
                assert(still_working(now) == (still_working(before) || is_unresolved(
                    items@[i as int],
                ))) by {
                    if still_working(before) {
                        let k = choose|k: int|
                            0 <= k < before.len() && is_unresolved(#[trigger] before[k]);
                        assert(is_unresolved(now[k]));
                    }
                    if is_unresolved(items@[i as int]) {
                        assert(is_unresolved(now[i as int]));
                    }
                    if still_working(now) {
                        let k = choose|k: int|
                            0 <= k < now.len() && is_unresolved(#[trigger] now[k]);
                        if k < i {
                            assert(is_unresolved(before[k]));
                        }
                    }
                }
                let here = items@[i as int] is Some && is_moving(
                    items@[i as int]->Some_0.state,
                    items@[i as int]->Some_0.percent_moved,
                    items@[i as int]->Some_0.bytes_downloaded,
                );
                assert(any_moving(now) == (any_moving(before) || here)) by {
                    if any_moving(before) {
                        let k = choose|k: int|
                            0 <= k < before.len() && (#[trigger] before[k]) is Some && is_moving(
                                before[k]->Some_0.state,
                                before[k]->Some_0.percent_moved,
                                before[k]->Some_0.bytes_downloaded,
                            );
                        assert(now[k] == before[k]);
                    }
                    if here {
                        assert(now[i as int] is Some);
                    }
                    if any_moving(now) {
                        let k = choose|k: int|
                            0 <= k < now.len() && (#[trigger] now[k]) is Some && is_moving(
                                now[k]->Some_0.state,
                                now[k]->Some_0.percent_moved,
                                now[k]->Some_0.bytes_downloaded,
                            );
                        if k < i {
                            assert(before[k] == now[k]);
                        }
                    }
                }
            }
            match items[i] {
                None => {
                    working = true;
                },
                Some(status) => {
                    if shows_progress(status.state, status.percent_moved, status.bytes_downloaded) {
                        self.progressed = true;
                    }
                    match code_for(status.state) {
                        Poll::Continue => {
                            working = true;
                        },
                        Poll::Finished(code) => {
                            if code == EXIT_ERROR && error.is_none() {
                                error = status.error;
                            }
                            worst = Some(
                                match worst {
                                    Some(previous) => if severity(previous) >= severity(code) {
                                        previous
                                    } else {
                                        code
                                    },
                                    None => code,
                                },
                            );
                        },
                    }
                },
            }
        }
        assert(items@.take(items@.len() as int) =~= items@);
        if let Some(code) = worst {
            if code != EXIT_OK || !working {
                let text = match error {
                    Some(number) => Some(hex(number)),
                    None => None,
                };
                let result = match &text {
                    Some(shown) => result_for(code, Some(shown.as_str())),
                    None => result_for(code, None),
                };
                return Some(Outcome::Finished { code, result });
            }
        }
        if !working {
            return Some(Outcome::Finished { code: EXIT_OK, result: HelperResult::Completed });
        }
        match verdict(self.policy, elapsed, self.progressed) {
            Verdict::Continue => None,
            Verdict::HandOff => Some(Outcome::Queued),
            Verdict::TimedOut => Some(
                Outcome::Finished { code: EXIT_AVAILABLE, result: HelperResult::Paused },
            ),
        }
    }
}

// ---------------------------------------------------------------------------
// Starting
// ---------------------------------------------------------------------------

/// An item of the Store's queue: whether it is of this product, and its state
/// where it could be read.
#[derive(Debug, Clone, Copy, PartialEq, Eq)]
pub struct QueuedItem {
    pub ours: bool,
    pub state: Option<AppInstallState>,
}

pub open spec fn is_adoptable(item: QueuedItem) -> bool {
    item.ours && item.state is Some && poll_of(item.state->Some_0) == Poll::Continue
}

pub open spec fn is_leftover(item: QueuedItem) -> bool {
    item.ours && item.state is Some && poll_of(item.state->Some_0) != Poll::Continue
}

/// Whether the queue holds an item to adopt.
pub open spec fn holds_adoptable(items: Seq<QueuedItem>) -> bool {
    exists|i: int| 0 <= i < items.len() && is_adoptable(#[trigger] items[i])
}

/// The leftovers to cancel: those before the first item to adopt.
pub open spec fn leftovers(items: Seq<QueuedItem>) -> Seq<usize>
    decreases items.len(),
{
    if items.len() == 0 {
        Seq::empty()
    } else {
        let before = leftovers(items.drop_last());
        if !holds_adoptable(items.drop_last()) && is_leftover(items.last()) {
            before.push((items.len() - 1) as usize)
        } else {
            before
        }
    }
}

/// Looks for this product in the Store's queue before queueing it again. Returns
/// the leftovers to cancel, and whether an item the Store is still working on is
/// adopted instead of queueing afresh.
pub fn reconcile_queue(items: &[QueuedItem]) -> (r: (Vec<usize>, bool))
    ensures
        r.0@ == leftovers(items@),
        r.1 == holds_adoptable(items@),
{
    let mut cancelled: Vec<usize> = Vec::new();
    for i in 0..items.len()
        invariant
            !holds_adoptable(items@.take(i as int)),
            cancelled@ == leftovers(items@.take(i as int)),
    {
        let ghost before = items@.take(i as int);
        let ghost now = items@.take(i + 1);
        proof {
            assert(now.drop_last() =~= before);
            assert(now.last() == items@[i as int]);
        }
        let item = items[i];
        if item.ours {
            if let Some(state) = item.state {
                match existing_item(state) {
                    Existing::Adopt => {
                        proof {
                            assert(is_adoptable(items@[i as int]));
                            lemma_leftovers_stop(items@, i as int);
                        }
                        return (cancelled, true);
                    },
                    Existing::Clear => {
                        cancelled.push(i);
                    },
                }
            }
        }
        proof {
            assert(!holds_adoptable(now)) by {
                if holds_adoptable(now) {
                    let k = choose|k: int| 0 <= k < now.len() && is_adoptable(#[trigger] now[k]);
                    if k < i {
                        assert(is_adoptable(before[k]));
                    }
                }
            }
        }
    }
    assert(items@.take(items@.len() as int) =~= items@);
    (cancelled, false)
}

/// Nothing behind the first item to adopt is cancelled.
proof fn lemma_leftovers_stop(items: Seq<QueuedItem>, at: int)
    requires
        0 <= at < items.len(),
        is_adoptable(items[at]),
    ensures
        leftovers(items) == leftovers(items.take(at)),
    decreases items.len(),
{
    let init = items.drop_last();
    if at == items.len() - 1 {
        assert(items.take(at) =~= init);
    } else {
        lemma_leftovers_stop(init, at);
        assert(init.take(at) =~= items.take(at));
        assert(is_adoptable(init[at]));
    }
}

/// How far the start of an install came.
#[derive(Debug, Clone, Copy, PartialEq, Eq)]
pub enum Start {
    /// The installer, or its options, could not be made.
    Unavailable,
    /// The queue already holds an item the Store is working on.
    Adopted,
    /// The start call was refused with this code.
    Refused(u32),
    /// The start call was accepted, but what it queued could not be read.
    Unread(u32),
    /// This many items were queued.
    Queued(u32),
}

/// What a start concludes; `None` where the queued items are polled.
pub open spec fn start_outcome(start: Start) -> Option<InstallText> {
    match start {
        Start::Unavailable => Some(InstallText::NotStarted("0x80040154"@)),
        Start::Adopted => Some(InstallText::Queued),
        Start::Refused(code) => Some(InstallText::NotStarted(code_text(code))),
        Start::Unread(code) => Some(
            InstallText::Finished { code: EXIT_ERROR, result: HelperText::Error(code_text(code)) },
        ),
        Start::Queued(count) => if count == 0 {
            Some(InstallText::Finished { code: EXIT_NOTHING, result: HelperText::Completed })
        } else {
            None
        },
    }
}

/// What a start concludes, or `None` where the queued items are to be polled.
///
/// Once an operation exists, a failure to read it does not prove that Windows
/// declined the install, so it is terminal rather than a license to try another
/// route in parallel. An empty queue means there was nothing newer to install.
pub fn apply_store_update(start: Start) -> (r: Option<Outcome>)
    ensures
        match r {
            Some(outcome) => start_outcome(start) == Some(outcome@),
            None => start_outcome(start) is None,
        },
{
    match start {
        Start::Unavailable => Some(Outcome::NotStarted("0x80040154".to_owned())),
        Start::Adopted => Some(Outcome::Queued),
        Start::Refused(code) => Some(Outcome::NotStarted(hex(code))),
        Start::Unread(code) => Some(
            Outcome::Finished { code: EXIT_ERROR, result: HelperResult::Error(hex(code)) },
        ),
        Start::Queued(count) => if count == 0 {
            Some(Outcome::Finished { code: EXIT_NOTHING, result: HelperResult::Completed })
        } else {
            None
        },
    }
}

/// What the helper records, and exits with, after one attempt.
pub fn apply_store_result(outcome: &Outcome) -> (r: (HelperResult, i32))
    ensures
        match outcome@ {
            InstallText::Finished { code, result } => r.0@ == result && r.1 == code,
            InstallText::Queued => r.0@ is Paused && r.1 == EXIT_AVAILABLE,
            InstallText::NotStarted(code) => r.0@ == HelperText::Error(code) && r.1 == EXIT_ERROR,
        },
{
    match outcome {
        Outcome::Finished { code, result } => {
            let copy = match result {
                HelperResult::Completed => HelperResult::Completed,
                HelperResult::Paused => HelperResult::Paused,
                HelperResult::Error(text) => HelperResult::Error(text.clone()),
            };
            (copy, *code)
        },
        Outcome::Queued => (HelperResult::Paused, EXIT_AVAILABLE),
        Outcome::NotStarted(code) => (HelperResult::Error(code.clone()), EXIT_ERROR),
    }
}

// ---------------------------------------------------------------------------
// Laws
// ---------------------------------------------------------------------------

/// A foreground wait never outlasts its admission window, and a background wait
/// never its ceiling: past it, every tick ends the wait.
pub proof fn law_waits_are_bounded(
    items: Seq<Option<ItemStatus>>,
    policy: WaitPolicy,
    elapsed: u128,
    progressed: bool,
)
    requires
        match policy {
            WaitPolicy::Foreground { admission } => elapsed >= admission,
            WaitPolicy::Background { ceiling } => elapsed >= ceiling,
        },
    ensures
        tick_outcome(items, policy, elapsed, progressed) is Some,
{
}

/// A foreground wait leaves as soon as the Store is seen working.
pub proof fn law_foreground_leaves_on_progress(
    items: Seq<Option<ItemStatus>>,
    admission: u128,
    elapsed: u128,
)
    ensures
        tick_outcome(items, WaitPolicy::Foreground { admission }, elapsed, true) is Some,
{
}

/// An install is reported as completed only when every item was seen completed.
pub proof fn law_completion_needs_every_item(
    items: Seq<Option<ItemStatus>>,
    policy: WaitPolicy,
    elapsed: u128,
    progressed: bool,
)
    requires
        ({
            let outcome = tick_outcome(items, policy, elapsed, progressed);
            outcome is Some && outcome->Some_0 is Finished && outcome->Some_0->code == EXIT_OK
        }),
    ensures
        forall|i: int|
            0 <= i < items.len() ==> (#[trigger] items[i]) is Some && poll_of(
                items[i]->Some_0.state,
            ) == Poll::Finished(EXIT_OK),
{
    assert(!still_working(items));
    lemma_worst_bounds(items);
    assert forall|i: int| 0 <= i < items.len() implies (#[trigger] items[i]) is Some && poll_of(
        items[i]->Some_0.state,
    ) == Poll::Finished(EXIT_OK) by {
        assert(!is_unresolved(items[i]));
    }
}

/// The worst code is at least as bad as the code of every item that ended.
proof fn lemma_worst_bounds(items: Seq<Option<ItemStatus>>)
    ensures
        forall|i: int|
            0 <= i < items.len() && !is_unresolved(#[trigger] items[i]) ==> worst_code(
                items,
            ) is Some && badness(worst_code(items)->Some_0) >= badness(
                poll_of(items[i]->Some_0.state)->Finished_0,
            ),
    decreases items.len(),
{
    if items.len() > 0 {
        let init = items.drop_last();
        lemma_worst_bounds(init);
        assert forall|i: int|
            0 <= i < items.len() && !is_unresolved(#[trigger] items[i]) implies worst_code(
            items,
        ) is Some && badness(worst_code(items)->Some_0) >= badness(
            poll_of(items[i]->Some_0.state)->Finished_0,
        ) by {
            if i < init.len() {
                assert(init[i] == items[i]);
                assert(!is_unresolved(init[i]));
            }
        }
    }
}

}
