//! What holds of the command line, of the result file, of navigation and of the
//! policy probe.

use crate::helper::{helper_result_of, quotes_doubled, HelperText};
use crate::navigation::{action_for, ActionText, NavigationError};
use crate::options::{options_of, options_with, OptionsText, RelaunchMode, Route, Verb};
use crate::powershell_policy::{answer_lines, policy_of, ExecutionPolicy};
use crate::text::{
    is_white, law_lines_end_at_line_feeds, law_trimming_takes_the_ends, lemma_nonempty_push,
    lines_of, nonempty, trimmed,
};
use vstd::prelude::*;

verus! {

// ---------------------------------------------------------------------------
// The command line
// ---------------------------------------------------------------------------

/// Options are read one behind the other: what the first arguments mean is where
/// the rest go on from.
proof fn lemma_options_go_on(options: OptionsText, rest: Seq<Seq<char>>, more: Seq<Seq<char>>)
    requires
        options_with(options, rest) is Some,
    ensures
        options_with(options, rest + more) == options_with(
            options_with(options, rest)->Some_0,
            more,
        ),
    decreases rest.len(),
{
    let all = rest + more;
    if rest.len() == 0 {
        assert(all =~= more);
    } else {
        assert(all[0] == rest[0]);
        assert(all.skip(1) =~= rest.skip(1) + more);
        if rest.len() >= 2 {
            assert(all[1] == rest[1]);
            assert(all.skip(2) =~= rest.skip(2) + more);
        }
        if rest[0] == "--json"@ {
            lemma_options_go_on(OptionsText { json: true, ..options }, rest.skip(1), more);
        } else if rest[0] == "--force"@ {
            lemma_options_go_on(OptionsText { force: true, ..options }, rest.skip(1), more);
        } else if rest[0] == "--relaunch"@ {
            let mode = crate::options::relaunch_named(rest[1])->Some_0;
            lemma_options_go_on(OptionsText { relaunch: mode, ..options }, rest.skip(2), more);
        } else if rest[0] == "--route"@ {
            let route = crate::options::route_named(rest[1])->Some_0;
            lemma_options_go_on(OptionsText { route, ..options }, rest.skip(2), more);
        } else if rest[0] == "--product"@ {
            lemma_options_go_on(
                OptionsText { product: Some(rest[1]), ..options },
                rest.skip(2),
                more,
            );
        } else if rest[0] == "--bundle"@ {
            lemma_options_go_on(
                OptionsText { bundle: Some(rest[1]), ..options },
                rest.skip(2),
                more,
            );
        } else if rest[0] == "--previous"@ {
            lemma_options_go_on(
                OptionsText { previous: Some(rest[1]), ..options },
                rest.skip(2),
                more,
            );
        }
    }
}

proof fn lemma_option_words()
    ensures
        "--json"@ != "--force"@,
        "--relaunch"@ != "--json"@,
        "--relaunch"@ != "--force"@,
        "--route"@ != "--json"@,
        "--route"@ != "--force"@,
        "--route"@ != "--relaunch"@,
        "--product"@ != "--json"@,
        "--product"@ != "--force"@,
        "--product"@ != "--relaunch"@,
        "--product"@ != "--route"@,
        "--bundle"@ != "--json"@,
        "--bundle"@ != "--force"@,
        "--bundle"@ != "--relaunch"@,
        "--bundle"@ != "--route"@,
        "--bundle"@ != "--product"@,
        "--previous"@ != "--json"@,
        "--previous"@ != "--force"@,
        "--previous"@ != "--relaunch"@,
        "--previous"@ != "--route"@,
        "--previous"@ != "--product"@,
        "--previous"@ != "--bundle"@,
{
    reveal_strlit("--json");
    reveal_strlit("--force");
    reveal_strlit("--relaunch");
    reveal_strlit("--route");
    reveal_strlit("--product");
    reveal_strlit("--bundle");
    reveal_strlit("--previous");
    assert("--json"@[2] == 'j');
    assert("--force"@[2] == 'f');
    assert("--relaunch"@[3] == 'e' && "--relaunch"@[2] == 'r');
    assert("--route"@[3] == 'o' && "--route"@[2] == 'r');
    assert("--product"@[3] == 'r' && "--product"@[2] == 'p' && "--product"@[4] == 'o');
    assert("--bundle"@[2] == 'b');
    assert("--previous"@[2] == 'p' && "--previous"@[4] == 'e');
}

/// One more option behind arguments that can be read sets its own field and changes
/// no other; the last one of a kind wins.
pub proof fn law_one_more_option(arguments: Seq<Seq<char>>, value: Seq<char>)
    requires
        options_of(arguments) is Some,
    ensures
        ({
            let o = options_of(arguments)->Some_0;
            &&& options_of(arguments.push("--json"@)) == Some(OptionsText { json: true, ..o })
            &&& options_of(arguments.push("--force"@)) == Some(OptionsText { force: true, ..o })
            &&& options_of(arguments + seq!["--product"@, value]) == Some(
                OptionsText { product: Some(value), ..o },
            )
            &&& options_of(arguments + seq!["--bundle"@, value]) == Some(
                OptionsText { bundle: Some(value), ..o },
            )
            &&& options_of(arguments + seq!["--previous"@, value]) == Some(
                OptionsText { previous: Some(value), ..o },
            )
        }),
{
    lemma_option_words();
    let o = options_of(arguments)->Some_0;
    assert(arguments.push("--json"@) =~= arguments + seq!["--json"@]);
    assert(arguments.push("--force"@) =~= arguments + seq!["--force"@]);
    lemma_more(arguments, seq!["--json"@]);
    lemma_more(arguments, seq!["--force"@]);
    lemma_more(arguments, seq!["--product"@, value]);
    lemma_more(arguments, seq!["--bundle"@, value]);
    lemma_more(arguments, seq!["--previous"@, value]);
    assert(seq!["--json"@].skip(1) =~= Seq::<Seq<char>>::empty());
    assert(seq!["--force"@].skip(1) =~= Seq::<Seq<char>>::empty());
    assert(seq!["--product"@, value].skip(2) =~= Seq::<Seq<char>>::empty());
    assert(seq!["--bundle"@, value].skip(2) =~= Seq::<Seq<char>>::empty());
    assert(seq!["--previous"@, value].skip(2) =~= Seq::<Seq<char>>::empty());
    reveal_with_fuel(options_with, 2);
}

proof fn lemma_more(arguments: Seq<Seq<char>>, more: Seq<Seq<char>>)
    requires
        options_of(arguments) is Some,
    ensures
        options_of(arguments + more) == options_with(options_of(arguments)->Some_0, more),
{
    assert((arguments + more)[0] == arguments[0]);
    assert((arguments + more).skip(1) =~= arguments.skip(1) + more);
    let verb = crate::options::verb_named(arguments[0])->Some_0;
    lemma_options_go_on(crate::options::bare_options(verb), arguments.skip(1), more);
}

/// The two options with a choice: each name sets its own value, `auto` takes a route
/// away again, and any other name is an error.
pub proof fn law_one_more_choice(arguments: Seq<Seq<char>>, name: Seq<char>)
    requires
        options_of(arguments) is Some,
    ensures
        ({
            let o = options_of(arguments)->Some_0;
            let routed = options_of(arguments + seq!["--route"@, name]);
            let launched = options_of(arguments + seq!["--relaunch"@, name]);
            &&& name == "auto"@ ==> routed == Some(OptionsText { route: None, ..o })
            &&& name == "appinstall"@ ==> routed == Some(
                OptionsText { route: Some(Route::AppInstall), ..o },
            )
            &&& name == "store"@ ==> routed == Some(OptionsText { route: Some(Route::Store), ..o })
            &&& name == "winget"@ ==> routed == Some(
                OptionsText { route: Some(Route::Winget), ..o },
            )
            &&& name == "notify"@ ==> routed == Some(
                OptionsText { route: Some(Route::Notify), ..o },
            )
            &&& name != "auto"@ && name != "appinstall"@ && name != "store"@ && name != "winget"@
                && name != "notify"@ ==> routed is None
            &&& name == "app"@ ==> launched == Some(
                OptionsText { relaunch: RelaunchMode::App, ..o },
            )
            &&& name == "broker"@ ==> launched == Some(
                OptionsText { relaunch: RelaunchMode::Broker, ..o },
            )
            &&& name == "none"@ ==> launched == Some(
                OptionsText { relaunch: RelaunchMode::Nothing, ..o },
            )
            &&& name != "app"@ && name != "broker"@ && name != "none"@ ==> launched is None
        }),
{
    lemma_option_words();
    crate::options::law_names_read_back(Verb::Check, Route::AppInstall, RelaunchMode::App);
    crate::options::law_names_read_back(Verb::Check, Route::Store, RelaunchMode::Broker);
    crate::options::law_names_read_back(Verb::Check, Route::Winget, RelaunchMode::Nothing);
    crate::options::law_names_read_back(Verb::Check, Route::Notify, RelaunchMode::App);
    lemma_more(arguments, seq!["--route"@, name]);
    lemma_more(arguments, seq!["--relaunch"@, name]);
    assert(seq!["--route"@, name].skip(2) =~= Seq::<Seq<char>>::empty());
    assert(seq!["--relaunch"@, name].skip(2) =~= Seq::<Seq<char>>::empty());
    reveal_with_fuel(options_with, 2);
}

/// What a verb alone means, and that nothing else can stand first: no verb is no
/// command, and a word behind the verb that is no option spoils the whole.
pub proof fn law_what_a_verb_alone_means(name: Seq<char>, word: Seq<char>)
    ensures
        ({
            let plain = OptionsText {
                verb: Verb::Check,
                json: false,
                force: false,
                relaunch: RelaunchMode::Broker,
                route: None,
                product: None,
                bundle: None,
                previous: None,
            };
            &&& options_of(seq!["check"@]) == Some(plain)
            &&& options_of(seq!["install"@]) == Some(OptionsText { verb: Verb::Install, ..plain })
            &&& options_of(seq!["status"@]) == Some(OptionsText { verb: Verb::Status, ..plain })
            &&& options_of(seq!["apply-store"@]) == Some(
                OptionsText { verb: Verb::ApplyStore, ..plain },
            )
            &&& options_of(seq!["apply-bundle"@]) == Some(
                OptionsText { verb: Verb::ApplyBundle, ..plain },
            )
            &&& name != "check"@ && name != "install"@ && name != "status"@ && name
                != "apply-store"@ && name != "apply-bundle"@ ==> options_of(seq![name]) is None
            &&& options_of(Seq::empty()) is None
            &&& word != "--json"@ && word != "--force"@ ==> options_of(seq!["check"@, word]) is None
        }),
{
    crate::options::law_names_read_back(Verb::Check, Route::AppInstall, RelaunchMode::App);
    crate::options::law_names_read_back(Verb::Install, Route::AppInstall, RelaunchMode::App);
    crate::options::law_names_read_back(Verb::Status, Route::AppInstall, RelaunchMode::App);
    crate::options::law_names_read_back(Verb::ApplyStore, Route::AppInstall, RelaunchMode::App);
    crate::options::law_names_read_back(Verb::ApplyBundle, Route::AppInstall, RelaunchMode::App);
    assert(seq!["check"@].skip(1) =~= Seq::<Seq<char>>::empty());
    assert(seq!["install"@].skip(1) =~= Seq::<Seq<char>>::empty());
    assert(seq!["status"@].skip(1) =~= Seq::<Seq<char>>::empty());
    assert(seq!["apply-store"@].skip(1) =~= Seq::<Seq<char>>::empty());
    assert(seq!["apply-bundle"@].skip(1) =~= Seq::<Seq<char>>::empty());
    assert(seq!["check"@, word].skip(1) =~= seq![word]);
    reveal_with_fuel(options_with, 2);
}

// ---------------------------------------------------------------------------
// The result file
// ---------------------------------------------------------------------------

/// Quotes are doubled one by one, and nothing else changes.
pub proof fn law_quotes_are_doubled(text: Seq<char>, next: char)
    ensures
        quotes_doubled(Seq::empty()) == Seq::<char>::empty(),
        quotes_doubled(text.push('\'')) == quotes_doubled(text) + seq!['\'', '\''],
        next != '\'' ==> quotes_doubled(text.push(next)) == quotes_doubled(text) + seq![next],
{
    assert(text.push(next).drop_last() =~= text);
    assert(text.push('\'').drop_last() =~= text);
    assert(quotes_doubled(text).push('\'').push('\'') =~= quotes_doubled(text) + seq!['\'', '\'']);
    assert(quotes_doubled(text).push(next) =~= quotes_doubled(text) + seq![next]);
}

/// White space around a result changes nothing, and neither does white space
/// between `error:` and its code; an error without a code is no result.
pub proof fn law_results_are_read_between_white_space(
    front: Seq<char>,
    gap: Seq<char>,
    code: Seq<char>,
    back: Seq<char>,
)
    requires
        forall|i: int| 0 <= i < front.len() ==> is_white(#[trigger] front[i]),
        forall|i: int| 0 <= i < gap.len() ==> is_white(#[trigger] gap[i]),
        forall|i: int| 0 <= i < back.len() ==> is_white(#[trigger] back[i]),
        code.len() > 0,
        !is_white(code[0]),
        !is_white(code.last()),
    ensures
        helper_result_of(front + "completed"@ + back) == Some(HelperText::Completed),
        helper_result_of(front + "paused"@ + back) == Some(HelperText::Paused),
        helper_result_of(front + ("error:"@ + gap + code) + back) == Some(HelperText::Error(code)),
        helper_result_of(front + "error:"@ + back) is None,
        helper_result_of(front) is None,
{
    reveal_strlit("completed");
    reveal_strlit("paused");
    reveal_strlit("error:");
    let nothing = Seq::<char>::empty();
    law_trimming_takes_the_ends(front, "completed"@, back);
    law_trimming_takes_the_ends(front, "paused"@, back);
    law_trimming_takes_the_ends(front, "error:"@, back);
    let full = "error:"@ + gap + code;
    assert(full[0] == 'e');
    assert(full.last() == code.last());
    law_trimming_takes_the_ends(front, full, back);
    assert(full.take(6) =~= "error:"@);
    assert(full.skip(6) =~= gap + code + nothing);
    law_trimming_takes_the_ends(gap, code, nothing);
    assert(full[4] == 'r' && full[5] == ':');
    if crate::text::same_ignoring_case(full, "completed"@) {
        assert(crate::text::lower(full[0]) == crate::text::lower("completed"@[0]));
    }
    if crate::text::same_ignoring_case(full, "paused"@) {
        assert(crate::text::lower(full[0]) == crate::text::lower("paused"@[0]));
    }
    assert(crate::text::same_ignoring_case("error:"@, "error:"@));
    assert("error:"@.take(6) =~= "error:"@);
    assert("error:"@.skip(6) =~= nothing);
    law_trimming_takes_the_ends(nothing, nothing, nothing);
}

// ---------------------------------------------------------------------------
// Navigation
// ---------------------------------------------------------------------------

/// What is done with a path that holds no NUL: a folder is opened and a file is
/// selected, each under its own path; a path that is not absolute is refused unless
/// it is the root of the provider; one that could not be read is reported.
pub proof fn law_folders_open_and_files_are_selected(path: Seq<char>)
    requires
        !path.contains('\0'),
        path.len() != 15,
        path.len() != 6,
    ensures
        action_for(path, true, Some(true)) == Ok::<ActionText, NavigationError>(
            ActionText::OpenDirectory(path),
        ),
        action_for(path, true, Some(false)) == Ok::<ActionText, NavigationError>(
            ActionText::SelectFile(path),
        ),
        action_for(path, true, None) == Err::<ActionText, NavigationError>(
            NavigationError::Unreadable,
        ),
        forall|directory: Option<bool>|
            #[trigger] action_for(path, false, directory) == Err::<ActionText, NavigationError>(
                NavigationError::NotAbsolute,
            ),
        forall|absolute: bool, directory: Option<bool>|
            #[trigger] action_for(r"\\wsl.localhost"@, absolute, directory) == Ok::<
                ActionText,
                NavigationError,
            >(ActionText::OpenDirectory(r"\\wsl.localhost"@)),
        forall|absolute: bool, directory: Option<bool>|
            #[trigger] action_for(r"\\wsl$"@, absolute, directory) == Ok::<
                ActionText,
                NavigationError,
            >(ActionText::OpenDirectory(r"\\wsl$"@)),
{
    reveal_strlit(r"\\wsl.localhost");
    reveal_strlit(r"\\wsl$");
    assert(crate::text::same_ignoring_case(r"\\wsl.localhost"@, r"\\wsl.localhost"@));
    assert(crate::text::same_ignoring_case(r"\\wsl$"@, r"\\wsl$"@));
    assert(!r"\\wsl.localhost"@.contains('\0'));
    assert(!r"\\wsl$"@.contains('\0'));
}

/// A path with a NUL in it is refused, whatever it names.
pub proof fn law_a_path_with_a_nul_is_refused(path: Seq<char>, i: int)
    requires
        0 <= i < path.len(),
        path[i] == '\0',
    ensures
        forall|absolute: bool, directory: Option<bool>|
            #[trigger] action_for(path, absolute, directory) == Err::<ActionText, NavigationError>(
                NavigationError::NotAbsolute,
            ),
{
    assert(path.contains('\0'));
}

// ---------------------------------------------------------------------------
// The policy probe
// ---------------------------------------------------------------------------

/// The probe's answer is its one line that is not blank: white space around it and
/// the end of its line change nothing, a second such line leaves no answer, and
/// neither does a line that names no policy.
pub proof fn law_the_answer_is_the_one_line(
    front: Seq<char>,
    back: Seq<char>,
    policy: ExecutionPolicy,
    other: Seq<char>,
)
    requires
        forall|i: int|
            0 <= i < front.len() ==> is_white(#[trigger] front[i]) && front[i] != '\n' && front[i]
                != '\r',
        forall|i: int|
            0 <= i < back.len() ==> is_white(#[trigger] back[i]) && back[i] != '\n' && back[i]
                != '\r',
        other.len() > 0,
        !other.contains('\n'),
        !is_white(other[0]),
        !is_white(other.last()),
    ensures
        ({
            let line = front + policy.name_text() + back;
            &&& policy_of(line) == Some(policy)
            &&& policy_of(line + seq!['\r', '\n']) == Some(policy)
            &&& policy_of(line.push('\n')) == Some(policy)
            &&& policy_of(line.push('\n') + other) is None
        }),
{
    let name = policy.name_text();
    let line = front + name + back;
    lemma_policy_name(policy);
    assert forall|j: int| 0 <= j < line.len() implies line[j] != '\n' && line[j] != '\r' by {
        if j < front.len() {
            assert(line[j] == front[j]);
        } else if j < front.len() + name.len() {
            assert(line[j] == name[j - front.len()]);
        } else {
            assert(line[j] == back[j - front.len() - name.len()]);
        }
    }
    assert(!line.contains('\n'));
    let nothing = Seq::<char>::empty();
    law_lines_end_at_line_feeds(nothing, line);
    law_trimming_takes_the_ends(front, name, back);
    law_trimming_takes_the_ends(nothing, other, nothing);
    assert(nothing + other + nothing =~= other);
    crate::powershell_policy::law_policy_names_read_back(policy);
    lemma_one_answer(line, line, name);
    lemma_one_answer(line + seq!['\r', '\n'], line, name);
    lemma_one_answer(line.push('\n'), line, name);
    lemma_one_answer(name, name, name);
    law_lines_end_at_line_feeds(line, other);
    let both = line.push('\n') + other;
    let read = lines_of(both);
    assert(lines_of(line.push('\n')) == seq![line]);
    assert(read == seq![line].push(other));
    let cut = read.map_values(|l: Seq<char>| trimmed(l));
    assert(cut =~= seq![name].push(other));
    lemma_nonempty_push(Seq::empty(), name);
    lemma_nonempty_push(seq![name], other);
    assert(Seq::<Seq<char>>::empty().push(name) =~= seq![name]);
    assert(answer_lines(both).len() == 2);
}

proof fn lemma_policy_name(policy: ExecutionPolicy)
    ensures
        policy.name_text().len() > 0,
        forall|i: int|
            0 <= i < policy.name_text().len() ==> 'A' <= #[trigger] policy.name_text()[i] <= 'z',
        trimmed(policy.name_text()) == policy.name_text(),
        lines_of(policy.name_text()) == seq![policy.name_text()],
{
    reveal_strlit("Restricted");
    reveal_strlit("AllSigned");
    reveal_strlit("RemoteSigned");
    reveal_strlit("Unrestricted");
    reveal_strlit("Bypass");
    reveal_strlit("Undefined");
    let name = policy.name_text();
    let nothing = Seq::<char>::empty();
    assert(name.len() > 0);
    assert(forall|i: int| 0 <= i < name.len() ==> 'A' <= #[trigger] name[i] <= 'z');
    assert(!is_white(name[0]) && !is_white(name[name.len() - 1]));
    assert(!name.contains('\n'));
    law_trimming_takes_the_ends(nothing, name, nothing);
    assert(nothing + name + nothing =~= name);
    law_lines_end_at_line_feeds(nothing, name);
}

proof fn lemma_one_answer(output: Seq<char>, line: Seq<char>, name: Seq<char>)
    requires
        lines_of(output) == seq![line],
        trimmed(line) == name,
        name.len() > 0,
    ensures
        answer_lines(output) == seq![name],
{
    let cut = lines_of(output).map_values(|l: Seq<char>| trimmed(l));
    assert(cut =~= Seq::<Seq<char>>::empty().push(name));
    lemma_nonempty_push(Seq::empty(), name);
    assert(nonempty(Seq::<Seq<char>>::empty()) =~= Seq::<Seq<char>>::empty());
    assert(answer_lines(output) =~= seq![name]);
}

} // verus!
