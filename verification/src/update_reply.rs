//! What the settings window makes of the update program's answers: the exit code
//! carries the decision and the JSON line carries the version.

use crate::options::{EXIT_AVAILABLE, EXIT_NEEDS_USER, EXIT_NOTHING, EXIT_OK};
use crate::package::{FSW_VERSION, STORE_PRODUCT_ID};
use crate::text::{
    chars_of, find, first_occurrence, lines, lines_of, part, push_chars, same, string_in,
    string_of, trim, trimmed,
};
use crate::update::{OutcomeText, UpdateOutcome};
use vstd::prelude::*;

verus! {

// ---------------------------------------------------------------------------
// The JSON line
// ---------------------------------------------------------------------------

/// The value of a JSON string from behind its opening quote. A backslash escapes a
/// quote or a backslash; `None` where it stands before anything else, and where the
/// string does not end.
pub open spec fn string_value(rest: Seq<char>) -> Option<Seq<char>>
    decreases rest.len(),
{
    if rest.len() == 0 {
        None
    } else if rest[0] == '"' {
        Some(Seq::empty())
    } else if rest[0] == '\\' {
        if rest.len() < 2 || (rest[1] != '"' && rest[1] != '\\') {
            None
        } else {
            match string_value(rest.skip(2)) {
                Some(value) => Some(seq![rest[1]] + value),
                None => None,
            }
        }
    } else {
        match string_value(rest.skip(1)) {
            Some(value) => Some(seq![rest[0]] + value),
            None => None,
        }
    }
}

/// A key as it stands in the JSON line.
pub open spec fn key_text(key: Seq<char>) -> Seq<char> {
    "\""@ + key + "\":"@
}

/// The value of a string field; `None` where it is absent, `null` or a number, or
/// the string does not end or holds an escape of another kind.
pub open spec fn string_field(line: Seq<char>, key: Seq<char>) -> Option<Seq<char>> {
    match first_occurrence(line, key_text(key)) {
        None => None,
        Some(at) => {
            let rest = line.skip(at + key_text(key).len());
            if rest.len() == 0 || rest[0] != '"' {
                None
            } else {
                string_value(rest.skip(1))
            }
        },
    }
}

fn read_string(rest: &[char]) -> (r: Option<String>)
    ensures
        string_in(r) == string_value(rest@),
{
    let n: usize = rest.len();
    let mut value: String = String::new();
    let mut i: usize = 0;
    assert(rest@.skip(0) =~= rest@);
    proof {
        if string_value(rest@) is Some {
            assert(value@ + string_value(rest@)->Some_0 =~= string_value(rest@)->Some_0);
        }
    }
    while i < n
        invariant
            n == rest@.len(),
            i <= n,
            match string_value(rest@.skip(i as int)) {
                Some(tail) => string_value(rest@) == Some(value@ + tail),
                None => string_value(rest@) is None,
            },
        decreases n - i,
    {
        let ghost here = rest@.skip(i as int);
        let ghost before = value@;
        let c = rest[i];
        assert(here[0] == c);
        if c == '"' {
            assert(value@ + Seq::<char>::empty() =~= value@);
            return Some(value);
        }
        if c == '\\' {
            if n - i < 2 {
                return None;
            }
            assert(here[1] == rest@[i + 1]);
            if rest[i + 1] != '"' && rest[i + 1] != '\\' {
                return None;
            }
            value.push(rest[i + 1]);
            proof {
                assert(here[1] == rest@[i + 1]);
                assert(here.skip(2) =~= rest@.skip(i + 2));
                let later = string_value(rest@.skip(i + 2));
                if later is Some {
                    assert(before + (seq![here[1]] + later->Some_0) =~= value@ + later->Some_0);
                }
            }
            i += 2;
        } else {
            value.push(c);
            proof {
                assert(here.skip(1) =~= rest@.skip(i + 1));
                let later = string_value(rest@.skip(i + 1));
                if later is Some {
                    assert(before + (seq![c] + later->Some_0) =~= value@ + later->Some_0);
                }
            }
            i += 1;
        }
    }
    assert(rest@.skip(n as int) =~= Seq::<char>::empty());
    None
}

/// The value of one string field of the one-line update JSON, or `None` when the
/// field is absent or `null`. It understands the shape that the line has, and
/// answers `None` for anything else rather than guessing.
#[must_use]
pub fn json_string_field(line: &str, key: &str) -> (r: Option<String>)
    ensures
        string_in(r) == string_field(line@, key@),
{
    let chars = chars_of(line);
    let v = chars.as_slice();
    let mut needle: String = "\"".to_owned();
    needle.push_str(key);
    needle.push_str("\":");
    let pattern = chars_of(needle.as_str());
    match find(v, pattern.as_slice()) {
        None => None,
        Some(at) => {
            let rest = part(v, at + pattern.len(), v.len());
            assert(rest@ =~= line@.skip(at + pattern@.len()));
            if rest.len() == 0 || rest[0] != '"' {
                return None;
            }
            let inside = part(rest, 1, rest.len());
            assert(inside@ =~= rest@.skip(1));
            read_string(inside)
        },
    }
}

// ---------------------------------------------------------------------------
// Checks
// ---------------------------------------------------------------------------

/// The last line of a text, empty where there is none.
pub open spec fn last_line(text: Seq<char>) -> Seq<char> {
    if lines_of(text).len() > 0 {
        lines_of(text).last()
    } else {
        Seq::empty()
    }
}

/// What a check's answer means.
pub open spec fn check_meaning(code: i32, stdout: Seq<char>) -> OutcomeText {
    let line = last_line(stdout);
    if code == EXIT_AVAILABLE {
        match string_field(line, "available"@) {
            Some(tag) => if tag.len() > 0 {
                OutcomeText::Ready(tag)
            } else {
                OutcomeText::Unavailable
            },
            None => OutcomeText::Unavailable,
        }
    } else if string_field(line, "state"@) == Some("upToDate"@) {
        OutcomeText::UpToDate
    } else if string_field(line, "state"@) == Some("notDue"@) {
        OutcomeText::NotDue
    } else {
        OutcomeText::Unavailable
    }
}

/// Maps one answer of `update check --json` onto an outcome. An update that cannot
/// be named is not something to announce, and every state that is not recognised
/// means the same: no answer worth acting on.
#[must_use]
pub fn check_outcome(code: i32, stdout: &str) -> (r: UpdateOutcome)
    ensures
        r@ == check_meaning(code, stdout@),
{
    let all = lines(chars_of(stdout).as_slice());
    let line = if all.len() > 0 {
        string_of(all[all.len() - 1].as_slice())
    } else {
        String::new()
    };
    assert(line@ == last_line(stdout@)) by {
        if all@.len() == 0 {
            assert(line@ =~= Seq::<char>::empty());
        }
    }
    if code == EXIT_AVAILABLE {
        return match json_string_field(line.as_str(), "available") {
            Some(tag) => if !tag.as_str().is_empty() {
                UpdateOutcome::Ready(tag)
            } else {
                UpdateOutcome::Unavailable
            },
            None => UpdateOutcome::Unavailable,
        };
    }
    match json_string_field(line.as_str(), "state") {
        Some(state) => if same(state.as_str(), "upToDate") {
            UpdateOutcome::UpToDate
        } else if same(state.as_str(), "notDue") {
            UpdateOutcome::NotDue
        } else {
            UpdateOutcome::Unavailable
        },
        None => UpdateOutcome::Unavailable,
    }
}

// ---------------------------------------------------------------------------
// Notices
// ---------------------------------------------------------------------------

/// How serious a notice is.
#[derive(Debug, Clone, Copy, PartialEq, Eq, Structural)]
pub enum InfoBarSeverity {
    Informational,
    Success,
    Warning,
    Error,
}

/// An action a notice offers beyond dismissal.
#[derive(Debug, Clone, Copy, PartialEq, Eq, Structural)]
pub enum NoticeAction {
    /// The only thing left is for the user to press Update in the Store.
    OpenStore,
}

impl NoticeAction {
    pub fn label(self) -> (r: &'static str)
        ensures
            r@ == "Open Microsoft Store"@,
    {
        match self {
            NoticeAction::OpenStore => "Open Microsoft Store",
        }
    }
}

/// The single dismissible bar at the top of the window.
#[derive(Debug, Clone, PartialEq, Eq)]
pub struct Notice {
    pub severity: InfoBarSeverity,
    pub title: &'static str,
    pub message: String,
    pub action: Option<NoticeAction>,
}

/// A notice as plain text.
pub struct NoticeText {
    pub severity: InfoBarSeverity,
    pub title: Seq<char>,
    pub message: Seq<char>,
    pub action: Option<NoticeAction>,
}

impl View for Notice {
    type V = NoticeText;

    open spec fn view(&self) -> NoticeText {
        NoticeText {
            severity: self.severity,
            title: self.title@,
            message: self.message@,
            action: self.action,
        }
    }
}

/// A notice without an action.
pub open spec fn notice_of(severity: InfoBarSeverity, title: Seq<char>, message: Seq<char>) -> NoticeText {
    NoticeText { severity, title, message, action: None }
}

impl Notice {
    pub fn new(severity: InfoBarSeverity, title: &'static str, message: String) -> (r: Self)
        ensures
            r@ == notice_of(severity, title@, message@),
    {
        Notice { severity, title, message, action: None }
    }

    pub fn with_action(self, action: NoticeAction) -> (r: Self)
        ensures
            r@ == (NoticeText { action: Some(action), ..self@ }),
    {
        Notice { action: Some(action), ..self }
    }
}

/// "Forward Slash Windows … is the latest version."
pub open spec fn latest_version_text() -> Seq<char> {
    "Forward Slash Windows "@ + FSW_VERSION@ + " is the latest version."@
}

pub fn latest_version_message() -> (r: String)
    ensures
        r@ == latest_version_text(),
{
    let mut text: String = "Forward Slash Windows ".to_owned();
    text.push_str(FSW_VERSION);
    text.push_str(" is the latest version.");
    text
}

/// What an exit code of `update install` means on screen.
pub open spec fn install_meaning(code: i32, stderr: Seq<char>) -> Option<NoticeText> {
    if code == EXIT_OK {
        None
    } else if code == EXIT_AVAILABLE {
        Some(
            notice_of(
                InfoBarSeverity::Informational,
                "Update downloaded"@,
                "It installs the next time fwdslash restarts."@,
            ),
        )
    } else if code == EXIT_NEEDS_USER {
        Some(
            NoticeText {
                action: Some(NoticeAction::OpenStore),
                ..notice_of(
                    InfoBarSeverity::Informational,
                    "Finish the update in the Microsoft Store"@,
                    "This update has to be installed from the Store on this computer."@,
                )
            },
        )
    } else if code == EXIT_NOTHING {
        Some(notice_of(InfoBarSeverity::Success, "Already up to date"@, latest_version_text()))
    } else {
        Some(
            notice_of(
                InfoBarSeverity::Error,
                "Could not start the update"@,
                if trimmed(stderr).len() == 0 {
                    "The update could not be started."@
                } else {
                    "The update could not be started. "@ + trimmed(stderr)
                },
            ),
        )
    }
}

/// A computed notice and what it must be.
pub open spec fn notice_in(notice: Option<Notice>) -> Option<NoticeText> {
    match notice {
        Some(notice) => Some(notice@),
        None => None,
    }
}

/// What one exit code of `update install` means on screen. `None` is the one
/// outcome with nothing to show: the install started, and the window closes
/// instead. Everything else leaves the user a sentence.
#[must_use]
pub fn install_notice(code: i32, stderr: &str) -> (r: Option<Notice>)
    ensures
        notice_in(r) == install_meaning(code, stderr@),
{
    if code == EXIT_OK {
        return None;
    }
    if code == EXIT_AVAILABLE {
        return Some(
            Notice::new(
                InfoBarSeverity::Informational,
                "Update downloaded",
                "It installs the next time fwdslash restarts.".to_owned(),
            ),
        );
    }
    if code == EXIT_NEEDS_USER {
        return Some(
            Notice::new(
                InfoBarSeverity::Informational,
                "Finish the update in the Microsoft Store",
                "This update has to be installed from the Store on this computer.".to_owned(),
            ).with_action(NoticeAction::OpenStore),
        );
    }
    if code == EXIT_NOTHING {
        return Some(
            Notice::new(
                InfoBarSeverity::Success,
                "Already up to date",
                latest_version_message(),
            ),
        );
    }
    let chars = chars_of(stderr);
    let detail = trim(chars.as_slice());
    let message = if detail.len() == 0 {
        "The update could not be started.".to_owned()
    } else {
        let mut text: String = "The update could not be started. ".to_owned();
        push_chars(&mut text, detail);
        text
    };
    Some(Notice::new(InfoBarSeverity::Error, "Could not start the update", message))
}

/// A successful install takes ownership of shutdown and restart. Every other exit
/// returns to this still-running window, so only a broker that was running before
/// should be brought back.
#[must_use]
pub fn should_restore_broker_after_install(code: i32, broker_window_before_install: bool) -> (r:
    bool)
    ensures
        r == (code != EXIT_OK && broker_window_before_install),
{
    code != EXIT_OK && broker_window_before_install
}

/// The install banner's label.
pub open spec fn banner_text(
    packaged: bool,
    store_flavor: bool,
    bundle_ready: bool,
    update_available: bool,
) -> Option<Seq<char>> {
    if !packaged || !(bundle_ready || update_available) {
        None
    } else if store_flavor {
        Some("Install now"@)
    } else {
        Some("Restart to update"@)
    }
}

/// The install banner's button label, or `None` when no banner belongs on screen.
/// An unpackaged build never shows it: there is nothing it could install.
#[must_use]
pub fn install_banner_label(
    packaged: bool,
    store_flavor: bool,
    bundle_ready: bool,
    update_available: bool,
) -> (r: Option<&'static str>)
    ensures
        crate::path::text_in(r) == banner_text(
            packaged,
            store_flavor,
            bundle_ready,
            update_available,
        ),
{
    if !packaged || !(bundle_ready || update_available) {
        return None;
    }
    Some(
        if store_flavor {
            "Install now"
        } else {
            "Restart to update"
        },
    )
}

/// The Store product page for this app.
pub fn store_product_uri() -> (r: String)
    ensures
        r@ == "ms-windows-store://pdp/?productid="@ + STORE_PRODUCT_ID@,
{
    let mut uri: String = "ms-windows-store://pdp/?productid=".to_owned();
    uri.push_str(STORE_PRODUCT_ID);
    uri
}

// ---------------------------------------------------------------------------
// Laws
// ---------------------------------------------------------------------------

/// Only the Store hand-off carries an action, and only a failure is an error: every
/// exit code but success leaves the user a sentence.
pub proof fn law_every_failure_leaves_a_sentence(code: i32, stderr: Seq<char>)
    ensures
        install_meaning(code, stderr) is None <==> code == EXIT_OK,
        install_meaning(code, stderr) is Some ==> {
            let notice = install_meaning(code, stderr)->Some_0;
            &&& notice.action is Some <==> code == EXIT_NEEDS_USER
            &&& notice.severity == InfoBarSeverity::Error <==> !(code == EXIT_AVAILABLE || code
                == EXIT_NEEDS_USER || code == EXIT_NOTHING)
        },
{
}

}
