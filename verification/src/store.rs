//! The Store's own silent install, and what the Store offers.

use crate::appinstall::{code_text, hex, wait_verdict, verdict, Verdict, WaitPolicy};
use crate::options::{EXIT_AVAILABLE, EXIT_ERROR, EXIT_NOTHING, EXIT_OK};
use crate::package::STORE_IDENTITY_NAME;
use crate::text::{decimal, push_decimal, same, string_in};
use crate::update::{
    is_newer_available_version, is_newer_package_version, is_release_after, names_newer_package,
};
use vstd::prelude::*;

verus! {

/// How long a query to the Store may take, in nanoseconds: one minute.
pub const QUERY_TIMEOUT: u128 = 60 * 1_000_000_000;

/// The code of this module's own timeouts.
pub const E_ABORT: u32 = 0x8000_4004;

// ---------------------------------------------------------------------------
// Offers
// ---------------------------------------------------------------------------

/// A pending update: by its version or tag, or one that could not be named.
#[derive(Debug, Clone, PartialEq, Eq)]
pub enum Offer {
    Named(String),
    Unnamed,
}

/// An offer as plain text.
pub enum OfferText {
    Named(Seq<char>),
    Unnamed,
}

impl View for Offer {
    type V = OfferText;

    open spec fn view(&self) -> OfferText {
        match self {
            Offer::Named(label) => OfferText::Named(label@),
            Offer::Unnamed => OfferText::Unnamed,
        }
    }
}

impl OfferText {
    pub open spec fn label(self) -> Option<Seq<char>> {
        match self {
            OfferText::Named(label) => Some(label),
            OfferText::Unnamed => None,
        }
    }
}

impl Offer {
    /// The version or tag, where there is one.
    pub fn label(&self) -> (r: Option<String>)
        ensures
            string_in(r) == self@.label(),
    {
        match self {
            Offer::Named(label) => Some(label.clone()),
            Offer::Unnamed => None,
        }
    }
}

/// An optional offer as plain text.
pub open spec fn offer_in(offer: Option<Offer>) -> Option<OfferText> {
    match offer {
        Some(offer) => Some(offer@),
        None => None,
    }
}

/// Whether a cached label is still newer than what runs.
pub open spec fn is_label_newer(current: Seq<char>, label: Seq<char>) -> bool {
    if label.len() > 0 && label[0] == 'v' {
        is_release_after(current, label)
    } else {
        names_newer_package(current, label)
    }
}

/// What was recorded, filtered for newness: a label that is no longer newer than
/// what runs is no offer. A pending update without a usable label is an unnamed
/// one.
pub fn offer_from_state(current: &str, cached: Option<&str>, pending: bool) -> (r: Option<Offer>)
    ensures
        offer_in(r) == if cached is Some && is_label_newer(current@, cached->Some_0@) {
            Some(OfferText::Named(cached->Some_0@))
        } else if pending {
            Some(OfferText::Unnamed)
        } else {
            None
        },
{
    match cached {
        Some(label) => {
            if is_newer_available_version(current, label) {
                return Some(Offer::Named(label.to_owned()));
            }
        },
        None => {},
    }
    if pending {
        Some(Offer::Unnamed)
    } else {
        None
    }
}

/// The newest version among the entries that is newer than what runs.
pub open spec fn newest_entry(current: Seq<char>, entries: Seq<Option<Seq<char>>>) -> Option<
    Seq<char>,
>
    decreases entries.len(),
{
    if entries.len() == 0 {
        None
    } else {
        let before = newest_entry(current, entries.drop_last());
        match entries.last() {
            Some(version) => {
                let against = match before {
                    Some(best) => best,
                    None => current,
                };
                if names_newer_package(against, version) {
                    Some(version)
                } else {
                    before
                }
            },
            None => before,
        }
    }
}

/// Entries as plain text.
pub open spec fn entries_text(entries: Seq<Option<String>>) -> Seq<Option<Seq<char>>> {
    entries.map_values(|entry: Option<String>| string_in(entry))
}

/// What the entries for this package offer: the newest version that is newer than
/// what runs; an unnamed update where there are entries but no such version; and
/// nothing only where there is no entry.
pub open spec fn offer_of_entries(current: Seq<char>, entries: Seq<Option<Seq<char>>>) -> Option<
    OfferText,
> {
    if entries.len() == 0 {
        None
    } else {
        match newest_entry(current, entries) {
            Some(version) => Some(OfferText::Named(version)),
            None => Some(OfferText::Unnamed),
        }
    }
}

/// What the Store's entries for this package offer, each with its version where
/// that could be read. An entry that cannot be named is still a pending update.
pub fn store_offer_from_entries(current: &str, entries: &[Option<String>]) -> (r: Option<Offer>)
    ensures
        offer_in(r) == offer_of_entries(current@, entries_text(entries@)),
{
    let ghost all = entries_text(entries@);
    let mut best: Option<String> = None;
    for i in 0..entries.len()
        invariant
            all == entries_text(entries@),
            string_in(best) == newest_entry(current@, all.take(i as int)),
    {
        proof {
            assert(all.take(i + 1).drop_last() =~= all.take(i as int));
            assert(all.take(i + 1).last() == all[i as int]);
        }
        if let Some(version) = &entries[i] {
            let newer = match &best {
                Some(text) => is_newer_package_version(text.as_str(), version.as_str()),
                None => is_newer_package_version(current, version.as_str()),
            };
            if newer {
                best = Some(version.clone());
            }
        }
    }
    assert(all.take(all.len() as int) =~= all);
    if entries.len() == 0 {
        return None;
    }
    match best {
        Some(version) => Some(Offer::Named(version)),
        None => Some(Offer::Unnamed),
    }
}

// ---------------------------------------------------------------------------
// The silent install
// ---------------------------------------------------------------------------

/// Where the silent Store route stopped.
#[derive(Debug, Clone, PartialEq, Eq)]
pub enum Outcome {
    /// The Store refused before an install operation existed. It is safe to fall
    /// through to the next route.
    NotStarted(String),
    /// An operation was created, or an up-to-date answer was returned. This route
    /// is terminal because deployment may already be in progress.
    Finished { code: i32, detail: Option<String> },
    /// The Store accepted the install and it is still in flight.
    Queued,
}

/// An outcome as plain text.
pub enum StoreText {
    NotStarted(Seq<char>),
    Finished { code: i32, detail: Option<Seq<char>> },
    Queued,
}

impl View for Outcome {
    type V = StoreText;

    open spec fn view(&self) -> StoreText {
        match self {
            Outcome::NotStarted(code) => StoreText::NotStarted(code@),
            Outcome::Finished { code, detail } => StoreText::Finished {
                code: *code,
                detail: string_in(*detail),
            },
            Outcome::Queued => StoreText::Queued,
        }
    }
}

/// What the Store said before an install was started; an error is its code.
#[derive(Debug, PartialEq, Eq)]
pub struct StoreProbe {
    /// How many updates are pending.
    pub updates: Result<u32, u32>,
    /// The running package version.
    pub current: Option<String>,
    /// The entries for this package, with their versions.
    pub entries: Option<Vec<Option<String>>>,
    /// Whether the Store would download without asking.
    pub silent: Result<bool, u32>,
}

/// How the route ends before an install is started; `None` where it is started.
pub open spec fn probe_outcome(probe: StoreProbe) -> Option<StoreText> {
    match probe.updates {
        Err(code) => Some(StoreText::NotStarted(code_text(code))),
        Ok(count) => if count == 0 {
            Some(StoreText::Finished { code: EXIT_NOTHING, detail: None })
        } else if probe.current is None {
            Some(StoreText::NotStarted("package-version-unavailable"@))
        } else if probe.entries is None {
            Some(StoreText::NotStarted("0x80004005"@))
        } else if probe.entries->Some_0@.len() == 0 {
            Some(StoreText::Finished { code: EXIT_NOTHING, detail: None })
        } else {
            match probe.silent {
                Err(code) => Some(StoreText::NotStarted(code_text(code))),
                Ok(false) => Some(StoreText::NotStarted("0x80070005"@)),
                Ok(true) => None,
            }
        },
    }
}

/// How the route ends before an install is started, or `None` where it is started.
/// A named offer and an unnamed one are both installable; only a list with no entry
/// for this package is "nothing to do".
pub fn before_install(probe: &StoreProbe) -> (r: Option<Outcome>)
    ensures
        match r {
            Some(outcome) => probe_outcome(*probe) == Some(outcome@),
            None => probe_outcome(*probe) is None,
        },
{
    let count = match probe.updates {
        Err(code) => {
            return Some(Outcome::NotStarted(hex(code)));
        },
        Ok(count) => count,
    };
    if count == 0 {
        return Some(Outcome::Finished { code: EXIT_NOTHING, detail: None });
    }
    let current = match &probe.current {
        Some(current) => current,
        None => {
            return Some(Outcome::NotStarted("package-version-unavailable".to_owned()));
        },
    };
    let entries = match &probe.entries {
        Some(entries) => entries,
        None => {
            return Some(Outcome::NotStarted("0x80004005".to_owned()));
        },
    };
    if store_offer_from_entries(current.as_str(), entries.as_slice()).is_none() {
        return Some(Outcome::Finished { code: EXIT_NOTHING, detail: None });
    }
    match probe.silent {
        Err(code) => Some(Outcome::NotStarted(hex(code))),
        Ok(false) => Some(Outcome::NotStarted("0x80070005".to_owned())),
        Ok(true) => None,
    }
}

/// The state of an install operation, as one tick reads it.
#[derive(Debug, Clone, Copy, PartialEq, Eq, Structural)]
pub enum OperationStatus {
    /// Still running.
    Started,
    /// It ended, and its overall state is this number.
    Ended(i32),
    /// The start was refused with this code.
    Refused(u32),
    /// It could not be watched, or its result could not be read.
    Failed(u32),
}

/// The exit code of an overall state.
pub open spec fn state_code(state: i32) -> i32 {
    if 0 <= state <= 3 {
        EXIT_OK
    } else if 6 <= state <= 8 {
        EXIT_AVAILABLE
    } else {
        EXIT_ERROR
    }
}

/// The overall state of a Store install as an exit code. Completed, and the states
/// still in flight, are "started"; the three that name a *condition* (battery,
/// Wi-Fi) are retry-later; the others are failures.
#[must_use]
pub fn code_for_state(state: i32) -> (r: i32)
    ensures
        r == state_code(state),
{
    if 0 <= state && state <= 3 {
        EXIT_OK
    } else if 6 <= state && state <= 8 {
        EXIT_AVAILABLE
    } else {
        EXIT_ERROR
    }
}

/// What one tick concludes; `None` where the operation is read again.
pub open spec fn watch_outcome(status: OperationStatus, policy: WaitPolicy, elapsed: u128) -> Option<
    StoreText,
> {
    match status {
        OperationStatus::Refused(code) => Some(StoreText::NotStarted(code_text(code))),
        OperationStatus::Failed(code) => Some(
            StoreText::Finished { code: EXIT_ERROR, detail: Some(code_text(code)) },
        ),
        OperationStatus::Ended(state) => Some(
            StoreText::Finished { code: state_code(state), detail: None },
        ),
        OperationStatus::Started => match wait_verdict(policy, elapsed, false) {
            Verdict::Continue => None,
            Verdict::HandOff => Some(StoreText::Queued),
            Verdict::TimedOut => Some(
                StoreText::Finished { code: EXIT_ERROR, detail: Some(code_text(E_ABORT)) },
            ),
        },
    }
}

/// Waits on the install operation. There is no progress to read on this route, so
/// the admission window alone bounds the foreground wait.
pub fn silent_download_and_install(status: OperationStatus, policy: WaitPolicy, elapsed: u128) -> (r:
    Option<Outcome>)
    ensures
        match r {
            Some(outcome) => watch_outcome(status, policy, elapsed) == Some(outcome@),
            None => watch_outcome(status, policy, elapsed) is None,
        },
{
    match status {
        OperationStatus::Refused(code) => Some(Outcome::NotStarted(hex(code))),
        OperationStatus::Failed(code) => Some(
            Outcome::Finished { code: EXIT_ERROR, detail: Some(hex(code)) },
        ),
        OperationStatus::Ended(state) => Some(
            Outcome::Finished { code: code_for_state(state), detail: None },
        ),
        OperationStatus::Started => match verdict(policy, elapsed, false) {
            Verdict::Continue => None,
            Verdict::HandOff => Some(Outcome::Queued),
            Verdict::TimedOut => Some(
                Outcome::Finished { code: EXIT_ERROR, detail: Some(hex(E_ABORT)) },
            ),
        },
    }
}

/// Whether the internet connection charges for data, for the kind of cost that was
/// read. A capped plan and a pay-per-byte plan both count, and so does every
/// failure: an unknown network is treated as metered.
#[must_use]
pub fn network_is_metered(kind: Option<i32>) -> (r: bool)
    ensures
        r == (kind != Some(1i32)),
{
    match kind {
        Some(number) => number != 1,
        None => true,
    }
}

// ---------------------------------------------------------------------------
// Laws
// ---------------------------------------------------------------------------

/// An offer with a name is always newer than what runs.
pub proof fn law_named_offers_are_newer(current: Seq<char>, entries: Seq<Option<Seq<char>>>)
    ensures
        newest_entry(current, entries) is Some ==> names_newer_package(
            current,
            newest_entry(current, entries)->Some_0,
        ),
    decreases entries.len(),
{
    if entries.len() > 0 {
        let init = entries.drop_last();
        law_named_offers_are_newer(current, init);
        if newest_entry(current, init) is Some && entries.last() is Some {
            let best = newest_entry(current, init)->Some_0;
            let version = entries.last()->Some_0;
            if names_newer_package(best, version) {
                crate::update_laws::law_newer_package_is_a_strict_order(
                    crate::update::package_version_of(current)->Some_0,
                    crate::update::package_version_of(best)->Some_0,
                    crate::update::package_version_of(version)->Some_0,
                );
            }
        }
    }
}

/// Only an answer before an operation existed licenses another route: once one was
/// started, no tick says that nothing was started, but for a refused start.
pub proof fn law_started_operations_are_terminal(
    status: OperationStatus,
    policy: WaitPolicy,
    elapsed: u128,
)
    requires
        !(status is Refused),
    ensures
        watch_outcome(status, policy, elapsed) is Some ==> !(watch_outcome(
            status,
            policy,
            elapsed,
        )->Some_0 is NotStarted),
{
}

// ---------------------------------------------------------------------------
// The Store's answer
// ---------------------------------------------------------------------------

/// One update the Store returned: the package's identity name and its version, as
/// far as each could be read.
#[derive(Debug, Clone, PartialEq, Eq)]
pub struct StoreEntry {
    pub name: Option<String>,
    pub version: Option<(u16, u16, u16, u16)>,
}

/// A four-part version as text.
pub open spec fn dotted(version: (u16, u16, u16, u16)) -> Seq<char> {
    decimal(version.0 as nat).push('.') + decimal(version.1 as nat).push('.') + decimal(
        version.2 as nat,
    ).push('.') + decimal(version.3 as nat)
}

/// The entries for this package, each with its version where that could be read. An
/// entry whose name is another one, or unknown, is not ours at all.
pub open spec fn our_entries(entries: Seq<StoreEntry>) -> Seq<Option<Seq<char>>>
    decreases entries.len(),
{
    if entries.len() == 0 {
        Seq::empty()
    } else {
        let before = our_entries(entries.drop_last());
        let last = entries.last();
        if string_in(last.name) == Some(STORE_IDENTITY_NAME@) {
            before.push(
                match last.version {
                    Some(version) => Some(dotted(version)),
                    None => None,
                },
            )
        } else {
            before
        }
    }
}

fn dotted_version(version: (u16, u16, u16, u16)) -> (r: String)
    ensures
        r@ == dotted(version),
{
    let mut text: String = String::new();
    push_decimal(&mut text, version.0 as u64);
    text.push('.');
    push_decimal(&mut text, version.1 as u64);
    text.push('.');
    push_decimal(&mut text, version.2 as u64);
    text.push('.');
    push_decimal(&mut text, version.3 as u64);
    proof {
        let (a, b, c, d) = (
            decimal(version.0 as nat).push('.'),
            decimal(version.1 as nat).push('.'),
            decimal(version.2 as nat).push('.'),
            decimal(version.3 as nat),
        );
        assert(text@ =~= a + b + c + d);
    }
    text
}

/// The entries for this package. An entry that cannot be named is kept: it is still
/// a pending update.
pub fn offer_entries(entries: &[StoreEntry]) -> (r: Vec<Option<String>>)
    ensures
        entries_text(r@) == our_entries(entries@),
{
    let n: usize = entries.len();
    let mut ours: Vec<Option<String>> = Vec::new();
    assert(entries_text(ours@) =~= our_entries(entries@.take(0)));
    for i in 0..n
        invariant
            n == entries@.len(),
            entries_text(ours@) == our_entries(entries@.take(i as int)),
    {
        let ghost next = entries@.take(i + 1);
        assert(next.drop_last() =~= entries@.take(i as int));
        assert(next.last() == entries@[i as int]);
        let is_ours = match &entries[i].name {
            Some(name) => same(name.as_str(), STORE_IDENTITY_NAME),
            None => false,
        };
        if is_ours {
            let version: Option<String> = match entries[i].version {
                Some(version) => Some(dotted_version(version)),
                None => None,
            };
            let ghost before = ours@;
            ours.push(version);
            assert(entries_text(ours@) =~= entries_text(before).push(string_in(version)));
        }
    }
    assert(entries@.take(n as int) =~= entries@);
    ours
}

/// What the Store is offering for this package. A failed query is a different fact
/// from an empty answer and stays distinguishable from it.
pub fn check_store_offer(query: Result<&[StoreEntry], u32>, current: Option<&str>) -> (r: Result<
    Option<Offer>,
    String,
>)
    ensures
        match (query, current) {
            (Err(code), _) => r is Err && r->Err_0@ == code_text(code),
            (Ok(_), None) => r is Err && r->Err_0@ == "package-version-unavailable"@,
            (Ok(entries), Some(version)) => r is Ok && offer_in(r->Ok_0) == offer_of_entries(
                version@,
                our_entries(entries@),
            ),
        },
{
    let entries = match query {
        Ok(entries) => entries,
        Err(code) => {
            return Err(hex(code));
        },
    };
    match current {
        None => Err("package-version-unavailable".to_owned()),
        Some(version) => Ok(store_offer_from_entries(version, offer_entries(entries).as_slice())),
    }
}

}
