//! What holds of what is told: reports, notices, and the small tables around the
//! windows.

use crate::exit_watchdog::{after_tick, TickAction, WatchdogText};
use crate::instance::base_name;
use crate::options::Route;
use crate::report::{
    escaped, flavor_text, human_text, json_line, printed_text, Installation, ReportText,
};
use crate::system::{answered_state, is_installed, recorded_version, AdapterMarker, BrokerState};
use crate::text::{decimal, last_index_of, lemma_last_index_of};
use crate::tray::{message_action, TrayAction};
use crate::update::OutcomeText;
use crate::update_reply::{banner_text, check_meaning, last_line, string_field, string_value};
use vstd::prelude::*;

verus! {

// ---------------------------------------------------------------------------
// Reports
// ---------------------------------------------------------------------------

/// How one character is written inside quotes: the quote and the backslash behind a
/// backslash, the line feed, the carriage return and the tab by their letters, any
/// other control character by its code in four digits, and the rest as themselves.
pub proof fn law_one_escaped_character(text: Seq<char>, c: char)
    ensures
        escaped(Seq::empty()) == Seq::<char>::empty(),
        escaped(text.push('"')) == escaped(text) + seq!['\\', '"'],
        escaped(text.push('\\')) == escaped(text) + seq!['\\', '\\'],
        escaped(text.push('\n')) == escaped(text) + seq!['\\', 'n'],
        escaped(text.push('\r')) == escaped(text) + seq!['\\', 'r'],
        escaped(text.push('\t')) == escaped(text) + seq!['\\', 't'],
        c < ' ' && c != '\n' && c != '\r' && c != '\t' ==> escaped(text.push(c)) == escaped(text)
            + seq![
            '\\',
            'u',
            '0',
            '0',
            "0123456789abcdef"@[c as int / 16],
            "0123456789abcdef"@[c as int % 16],
        ],
        c >= ' ' && c != '"' && c != '\\' ==> escaped(text.push(c)) == escaped(text) + seq![c],
{
    assert(text.push('"').drop_last() =~= text);
    assert(text.push('\\').drop_last() =~= text);
    assert(text.push('\n').drop_last() =~= text);
    assert(text.push('\r').drop_last() =~= text);
    assert(text.push('\t').drop_last() =~= text);
    assert(text.push(c).drop_last() =~= text);
    if c < ' ' && c != '\n' && c != '\r' && c != '\t' {
        let value = c as u32 as nat;
        reveal_with_fuel(crate::text::hex_lower, 5);
        assert(value / 16 / 16 == 0);
        assert(value / 16 < 16);
        crate::text::law_hex_digits_are_the_sixteen(value % 16);
        crate::text::law_hex_digits_are_the_sixteen(value / 16);
        crate::text::law_hex_digits_are_the_sixteen(0);
        reveal_strlit("0123456789abcdef");
        assert(crate::text::hex_lower(value, 4) =~= seq![
            '0',
            '0',
            "0123456789abcdef"@[c as int / 16],
            "0123456789abcdef"@[c as int % 16],
        ]);
        assert(escaped(text.push(c)) =~= escaped(text) + seq![
            '\\',
            'u',
            '0',
            '0',
            "0123456789abcdef"@[c as int / 16],
            "0123456789abcdef"@[c as int % 16],
        ]);
    }
}

/// What the machine-readable line holds: eight fields under their names, in order,
/// the first two always as text, the optional ones as text or `null`.
#[verifier::rlimit(40)]
pub proof fn law_the_eight_fields(
    flavor: Seq<char>,
    state: Seq<char>,
    text: Seq<char>,
    number: u64,
)
    ensures
        json_line(flavor, state, None, false, None, None, None, None) == "{\"flavor\":\""@ + escaped(
            flavor,
        ) + "\",\"state\":\""@ + escaped(state)
            + "\",\"available\":null,\"autoUpdate\":false,\"lastUpdateCheck\":null,\"route\":null,\"action\":null,\"detail\":null}"@,
        json_line(flavor, state, Some(text), true, Some(number), Some(text), Some(text), Some(text))
            == "{\"flavor\":\""@ + escaped(flavor) + "\",\"state\":\""@ + escaped(state)
            + "\",\"available\":\""@ + escaped(text)
            + "\",\"autoUpdate\":true,\"lastUpdateCheck\":"@ + decimal(number as nat)
            + ",\"route\":\""@ + escaped(text) + "\",\"action\":\""@ + escaped(text)
            + "\",\"detail\":\""@ + escaped(text) + "\"}"@,
{
    reveal_strlit("{\"flavor\":\"");
    reveal_strlit("{\"flavor\":");
    reveal_strlit("\",\"state\":\"");
    reveal_strlit(",\"state\":");
    reveal_strlit("\"");
    reveal_strlit(
        "\",\"available\":null,\"autoUpdate\":false,\"lastUpdateCheck\":null,\"route\":null,\"action\":null,\"detail\":null}",
    );
    reveal_strlit(",\"available\":");
    reveal_strlit("null");
    reveal_strlit(",\"autoUpdate\":");
    reveal_strlit("false");
    reveal_strlit("true");
    reveal_strlit(",\"lastUpdateCheck\":");
    reveal_strlit(",\"route\":");
    reveal_strlit(",\"action\":");
    reveal_strlit(",\"detail\":");
    reveal_strlit("}");
    reveal_strlit("\",\"available\":\"");
    reveal_strlit("\",\"autoUpdate\":true,\"lastUpdateCheck\":");
    reveal_strlit(",\"route\":\"");
    reveal_strlit("\",\"action\":\"");
    reveal_strlit("\",\"detail\":\"");
    reveal_strlit("\"}");
    assert(json_line(flavor, state, None, false, None, None, None, None) =~= "{\"flavor\":\""@
        + escaped(flavor) + "\",\"state\":\""@ + escaped(state)
        + "\",\"available\":null,\"autoUpdate\":false,\"lastUpdateCheck\":null,\"route\":null,\"action\":null,\"detail\":null}"@);
    assert(json_line(
        flavor,
        state,
        Some(text),
        true,
        Some(number),
        Some(text),
        Some(text),
        Some(text),
    ) =~= "{\"flavor\":\""@ + escaped(flavor) + "\",\"state\":\""@ + escaped(state)
        + "\",\"available\":\""@ + escaped(text) + "\",\"autoUpdate\":true,\"lastUpdateCheck\":"@
        + decimal(number as nat) + ",\"route\":\""@ + escaped(text) + "\",\"action\":\""@ + escaped(
        text,
    ) + "\",\"detail\":\""@ + escaped(text) + "\"}"@);
}

/// What is printed: in JSON one line with the report's own fields and those of the
/// installation, else the state and each thing there is to tell, a line each. A
/// report's own detail outranks that of the result file.
pub proof fn law_what_is_printed(
    state: Seq<char>,
    label: Seq<char>,
    detail: Seq<char>,
    folded: Seq<char>,
    installation: Installation,
)
    ensures
        ({
            let flavor = if !installation.packaged {
                "unpackaged"@
            } else if installation.store_flavor {
                "store"@
            } else {
                "github"@
            };
            let bare = ReportText {
                state,
                available: None,
                route: None,
                action: None,
                detail: None,
                code: 0,
            };
            let full = ReportText {
                state,
                available: Some(label),
                route: Some(Route::Winget),
                action: Some("scheduled"@),
                detail: Some(detail),
                code: 0,
            };
            &&& printed_text(bare, true, None, installation) == json_line(
                flavor,
                state,
                None,
                installation.auto_update,
                installation.last_check,
                None,
                None,
                None,
            ) + seq!['\n']
            &&& printed_text(full, true, Some(folded), installation) == json_line(
                flavor,
                state,
                Some(label),
                installation.auto_update,
                installation.last_check,
                Some("winget"@),
                Some("scheduled"@),
                Some(detail),
            ) + seq!['\n']
            &&& printed_text(bare, true, Some(folded), installation) == json_line(
                flavor,
                state,
                None,
                installation.auto_update,
                installation.last_check,
                None,
                None,
                Some(folded),
            ) + seq!['\n']
            &&& printed_text(bare, false, None, installation) == "state: "@ + state + seq!['\n']
            &&& printed_text(bare, false, Some(folded), installation) == "state: "@ + state + seq![
                '\n',
            ] + folded + seq!['\n']
            &&& printed_text(full, false, Some(folded), installation) == "state: "@ + state + seq![
                '\n',
            ] + "available: "@ + label + seq!['\n'] + "route: winget"@ + seq!['\n'] + detail + seq![
                '\n',
            ]
        }),
{
    reveal_strlit("\n");
    reveal_strlit("");
    reveal_strlit("route: ");
    reveal_strlit("winget");
    reveal_strlit("route: winget");
    assert("\n"@ =~= seq!['\n']);
    assert(""@ =~= Seq::<char>::empty());
    assert("route: "@ + "winget"@ =~= "route: winget"@);
    let bare = ReportText {
        state,
        available: None,
        route: None,
        action: None,
        detail: None,
        code: 0,
    };
    let full = ReportText {
        state,
        available: Some(label),
        route: Some(Route::Winget),
        action: Some("scheduled"@),
        detail: Some(detail),
        code: 0,
    };
    assert(human_text(bare, None) =~= "state: "@ + state + seq!['\n']);
    assert(human_text(bare, Some(folded)) =~= "state: "@ + state + seq!['\n'] + folded + seq![
        '\n',
    ]);
    assert(human_text(full, Some(folded)) =~= "state: "@ + state + seq!['\n'] + "available: "@
        + label + seq!['\n'] + ("route: "@ + "winget"@) + seq!['\n'] + detail + seq!['\n']);
}

/// How a quoted value is read: up to the first quote that no backslash stands
/// before; a backslash stands before a quote or a backslash only.
pub proof fn law_how_a_quoted_value_is_read(rest: Seq<char>, c: char)
    ensures
        string_value(Seq::empty()) is None,
        string_value(seq!['"'] + rest) == Some(Seq::<char>::empty()),
        c != '"' && c != '\\' ==> string_value(seq![c] + rest) == match string_value(rest) {
            Some(value) => Some(seq![c] + value),
            None => None,
        },
        string_value(seq!['\\', '"'] + rest) == match string_value(rest) {
            Some(value) => Some(seq!['"'] + value),
            None => None,
        },
        string_value(seq!['\\', '\\'] + rest) == match string_value(rest) {
            Some(value) => Some(seq!['\\'] + value),
            None => None,
        },
        c != '"' && c != '\\' ==> string_value(seq!['\\', c] + rest) is None,
{
    assert((seq![c] + rest).skip(1) =~= rest);
    assert((seq!['\\', '"'] + rest).skip(2) =~= rest);
    assert((seq!['\\', '\\'] + rest).skip(2) =~= rest);
    assert((seq!['\\', c] + rest)[1] == c);
    assert((seq!['\\', '"'] + rest)[1] == '"');
    assert((seq!['\\', '\\'] + rest)[1] == '\\');
}

/// What an answer to a check means: a ready release only with the code that says so
/// and with a name; of the other codes the state decides.
pub proof fn law_what_an_answer_means(code: i32, stdout: Seq<char>)
    ensures
        ({
            let line = last_line(stdout);
            let tag = string_field(line, "available"@);
            let state = string_field(line, "state"@);
            &&& code == 10 && tag is Some && tag->Some_0.len() > 0 ==> check_meaning(code, stdout)
                == OutcomeText::Ready(tag->Some_0)
            &&& code == 10 && (tag is None || tag->Some_0.len() == 0) ==> check_meaning(code, stdout)
                == OutcomeText::Unavailable
            &&& code != 10 && state == Some("upToDate"@) ==> check_meaning(code, stdout)
                == OutcomeText::UpToDate
            &&& code != 10 && state == Some("notDue"@) ==> check_meaning(code, stdout)
                == OutcomeText::NotDue
            &&& code != 10 && state != Some("upToDate"@) && state != Some("notDue"@)
                ==> check_meaning(code, stdout) == OutcomeText::Unavailable
        }),
{
    reveal_strlit("upToDate");
    reveal_strlit("notDue");
    assert("upToDate"@.len() != "notDue"@.len());
}

/// When the update banner shows, and what its button says.
pub proof fn law_when_the_banner_shows(store_flavor: bool, ready: bool, available: bool)
    ensures
        banner_text(false, store_flavor, ready, available) is None,
        banner_text(true, store_flavor, false, false) is None,
        ready || available ==> banner_text(true, true, ready, available) == Some("Install now"@),
        ready || available ==> banner_text(true, false, ready, available) == Some(
            "Restart to update"@,
        ),
{
}

// ---------------------------------------------------------------------------
// Around the windows
// ---------------------------------------------------------------------------

/// The last component of a path, whichever separators it is spelled with.
pub proof fn law_the_last_component(folder: Seq<char>, name: Seq<char>)
    requires
        forall|i: int| 0 <= i < name.len() ==> #[trigger] name[i] != '\\' && name[i] != '/',
    ensures
        base_name(folder + seq!['\\'] + name) == name,
        base_name(folder + seq!['/'] + name) == name,
        base_name(name) == name,
{
    lemma_last_component(folder + seq!['\\'], name);
    lemma_last_component(folder + seq!['/'], name);
    lemma_last_component(Seq::empty(), name);
    assert(Seq::<char>::empty() + name =~= name);
}

proof fn lemma_last_component(front: Seq<char>, name: Seq<char>)
    requires
        front.len() == 0 || front.last() == '\\' || front.last() == '/',
        forall|i: int| 0 <= i < name.len() ==> #[trigger] name[i] != '\\' && name[i] != '/',
    ensures
        base_name(front + name) == name,
{
    let path = front + name;
    lemma_last_index_of(path, '\\');
    let at = last_index_of(path, '\\');
    let back = path.skip(at + 1);
    let n: int = front.len() as int;
    assert(at < n) by {
        if at >= n {
            assert(path[at] == name[at - n]);
        }
    }
    if n > 0 {
        assert(path[n - 1] == front.last());
    }
    lemma_last_index_of(back, '/');
    let slash = last_index_of(back, '/');
    if slash >= 0 {
        assert(back[slash] == path[at + 1 + slash]);
    }
    assert(at + 1 + slash < n) by {
        if at + 1 + slash >= n {
            assert(path[at + 1 + slash] == name[at + 1 + slash - n]);
        }
    }
    if n > 0 && at < n - 1 {
        assert(front.last() == '/');
        assert(back[n - 1 - at - 1] == path[n - 1]);
        assert(slash >= n - 1 - at - 1);
    }
    assert(at + 1 + slash + 1 == n);
    assert(back.skip(slash + 1) =~= name);
}

/// What the broker's answer means.
pub proof fn law_what_the_broker_answers(answer: isize)
    ensures
        answered_state(1) == BrokerState::Active,
        answered_state(2) == BrokerState::Paused,
        answer != 1 && answer != 2 ==> answered_state(answer) == BrokerState::Unavailable,
{
}

/// What the window does with a message: closing and minimizing hide it, a forced
/// close takes the icon away and goes on, a click on the icon brings it back or
/// shows the menu, and the menu's two items restore and exit.
pub proof fn law_what_window_messages_do(
    wparam: u32,
    lparam: u32,
    force_close: bool,
    taskbar_created: u32,
)
    ensures
        message_action(0x10, wparam, lparam, false, taskbar_created) == (TrayAction::Hide, true),
        message_action(0x10, wparam, lparam, true, taskbar_created) == (
            TrayAction::RemoveIcon,
            false,
        ),
        message_action(0x05, 1, lparam, force_close, taskbar_created) == (TrayAction::Hide, true),
        wparam != 1 ==> message_action(0x05, wparam, lparam, force_close, taskbar_created) == (
            TrayAction::Nothing,
            false,
        ),
        wparam % 0x1_0000 == 1 ==> message_action(
            0x111,
            wparam,
            lparam,
            force_close,
            taskbar_created,
        ) == (TrayAction::Restore, true),
        wparam % 0x1_0000 == 2 ==> message_action(
            0x111,
            wparam,
            lparam,
            force_close,
            taskbar_created,
        ) == (TrayAction::Exit, true),
        wparam % 0x1_0000 != 1 && wparam % 0x1_0000 != 2 ==> message_action(
            0x111,
            wparam,
            lparam,
            force_close,
            taskbar_created,
        ) == (TrayAction::Nothing, true),
        message_action(0x02, wparam, lparam, force_close, taskbar_created) == (
            TrayAction::Quit,
            false,
        ),
        message_action(0x82, wparam, lparam, force_close, taskbar_created) == (
            TrayAction::Detach,
            false,
        ),
        wparam != 0 ==> message_action(0x16, wparam, lparam, force_close, taskbar_created) == (
            TrayAction::RemoveIcon,
            false,
        ),
        taskbar_created >= 0xc000 ==> message_action(
            taskbar_created,
            wparam,
            lparam,
            force_close,
            taskbar_created,
        ) == (TrayAction::ReaddIcon, false),
        taskbar_created >= 0xc000 ==> message_action(
            0x8001,
            wparam,
            0x202,
            force_close,
            taskbar_created,
        ) == (TrayAction::Restore, true),
        taskbar_created >= 0xc000 ==> message_action(
            0x8001,
            wparam,
            0x205,
            force_close,
            taskbar_created,
        ) == (TrayAction::ShowMenu, true),
        taskbar_created >= 0xc000 && lparam != 0x202 && lparam != 0x205 ==> message_action(
            0x8001,
            wparam,
            lparam,
            force_close,
            taskbar_created,
        ) == (TrayAction::Nothing, true),
{
}

/// What a tick of the exit watchdog does: nothing in the first twenty ticks, before
/// a window is known, or once an exit was asked for; with the window alive the count
/// starts over; without it the first tick asks to quit and the third ends the
/// process.
pub proof fn law_what_a_tick_does(before: WatchdogText, alive: bool)
    ensures
        ({
            let (after, action) = after_tick(before, alive);
            let watching = before.ticks >= 20 && !before.exit_requested && before.window is Some;
            let gone = before.window->Some_0 == 0 || !alive;
            &&& before.ticks < u32::MAX ==> after.ticks == before.ticks + 1
            &&& after.window == before.window && after.exit_requested == before.exit_requested
            &&& !watching ==> action == TickAction::Nothing && after.dead_ticks == before.dead_ticks
            &&& watching && !gone ==> action == TickAction::Nothing && after.dead_ticks == 0
            &&& watching && gone && before.dead_ticks < u32::MAX ==> after.dead_ticks
                == before.dead_ticks + 1
            &&& watching && gone && before.dead_ticks == 0 ==> action == TickAction::Quit
            &&& watching && gone && before.dead_ticks == 1 ==> action == TickAction::Nothing
            &&& watching && gone && before.dead_ticks >= 2 ==> action == TickAction::Exit
        }),
{
}

/// Which flavor an installation is.
pub proof fn law_which_flavor_it_is(store_flavor: bool)
    ensures
        flavor_text(false, store_flavor) == "unpackaged"@,
        flavor_text(true, true) == "store"@,
        flavor_text(true, false) == "github"@,
{
}

/// The value of a field is what stands in quotes behind the first `"key":` of a line;
/// a value that is not quoted is none.
pub proof fn law_the_value_behind_a_key(before: Seq<char>, key: Seq<char>, rest: Seq<char>)
    requires
        ({
            let line = before + seq!['"'] + key + seq!['"', ':'] + rest;
            forall|j: int|
                0 <= j < before.len() ==> #[trigger] line.subrange(j, j + key.len() + 3) != seq!['"']
                    + key + seq!['"', ':']
        }),
    ensures
        ({
            let line = before + seq!['"'] + key + seq!['"', ':'] + rest;
            &&& rest.len() > 0 && rest[0] == '"' ==> string_field(line, key) == string_value(
                rest.skip(1),
            )
            &&& rest.len() == 0 || rest[0] != '"' ==> string_field(line, key) is None
        }),
{
    reveal_strlit("\"");
    reveal_strlit("\":");
    let line = before + seq!['"'] + key + seq!['"', ':'] + rest;
    let pattern = seq!['"'] + key + seq!['"', ':'];
    assert(crate::update_reply::key_text(key) =~= pattern);
    let n: int = before.len() as int;
    crate::text::lemma_first_occurrence(line, pattern, 0);
    assert(line.subrange(n, n + pattern.len()) =~= pattern);
    assert(crate::text::occurs_at(line, pattern, n));
    assert forall|j: int| 0 <= j < n implies !crate::text::occurs_at(line, pattern, j) by {
        assert(line.subrange(j, j + key.len() + 3) != pattern);
        assert(pattern.len() == key.len() + 3);
    }
    assert(line.skip(n + pattern.len()) =~= rest);
}

/// An adapter is installed exactly where its marker says so.
pub proof fn law_what_a_marker_says(marker: AdapterMarker)
    ensures
        is_installed(Some(&marker)) == (marker.state is Some && marker.state->Some_0@
            == "installed"@),
        !is_installed(None),
        recorded_version(Some(&marker)) == match marker.version {
            Some(version) => Some(version@),
            None => None,
        },
        recorded_version(None) is None,
{
}

} // verus!
