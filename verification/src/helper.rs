//! The update helper: a copy of the program that runs **without package
//! identity**, and the one-line file it reports through.
//!
//! The helper never writes the registry: its writes would land in the real hive
//! while the packaged app reads its own. It reports through a file instead, and
//! the next packaged run folds that file in.

use crate::options::{EXIT_ERROR, EXIT_OK};
use crate::text::{
    chars_of, part, same_chars_ignoring_case, same_ignoring_case, string_of, trim, trim_back,
    trim_front, trimmed,
};
use crate::update::UpdateVerificationError;
use vstd::prelude::*;

verus! {

/// The staged copy's file name.
pub const HELPER_NAME: &'static str = "fwdslash-helper.exe";

/// Whether this process may run a helper-only verb: it has *no* package identity.
#[must_use]
pub fn helper_context_ok(packaged: bool) -> (r: bool)
    ensures
        r == !packaged,
{
    !packaged
}

/// Where the staged copy lives, if there is an update directory at all.
#[must_use]
pub fn helper_path(directory: Option<&str>) -> (r: Option<String>)
    ensures
        match r {
            Some(path) => directory is Some && path@ == directory->Some_0@.push('\\')
                + HELPER_NAME@,
            None => directory is None,
        },
{
    match directory {
        Some(folder) => {
            let mut path: String = folder.to_owned();
            path.push('\\');
            path.push_str(HELPER_NAME);
            Some(path)
        },
        None => None,
    }
}

/// Whether the app-installer route is attemptable: either this process is packaged
/// or there is a directory to stage the helper into.
#[must_use]
pub fn appinstall_available(packaged: bool, directory: Option<&str>) -> (r: bool)
    ensures
        r == (packaged || directory is Some),
{
    packaged || helper_path(directory).is_some()
}

/// The command line that runs the helper's Store install. The path is quoted,
/// because it may contain spaces.
#[must_use]
pub fn apply_store_command(helper: &str, product_id: &str, previous_version: &str) -> (r: String)
    ensures
        r@ == "\""@ + helper@ + "\" update apply-store --product "@ + product_id@ + " --previous "@
            + previous_version@,
{
    let mut command: String = "\"".to_owned();
    command.push_str(helper);
    command.push_str("\" update apply-store --product ");
    command.push_str(product_id);
    command.push_str(" --previous ");
    command.push_str(previous_version);
    command
}

/// The command line that registers a downloaded GitHub bundle.
#[must_use]
pub fn apply_bundle_command(helper: &str, bundle: &str, previous_version: &str) -> (r: String)
    ensures
        r@ == "\""@ + helper@ + "\" update apply-bundle --bundle \""@ + bundle@
            + "\" --previous "@ + previous_version@,
{
    let mut command: String = "\"".to_owned();
    command.push_str(helper);
    command.push_str("\" update apply-bundle --bundle \"");
    command.push_str(bundle);
    command.push_str("\" --previous ");
    command.push_str(previous_version);
    command
}

/// A text with every single quote doubled, as a PowerShell string literal holds
/// it.
pub open spec fn quotes_doubled(text: Seq<char>) -> Seq<char>
    decreases text.len(),
{
    if text.len() == 0 {
        Seq::empty()
    } else if text.last() == '\'' {
        quotes_doubled(text.drop_last()).push('\'').push('\'')
    } else {
        quotes_doubled(text.drop_last()).push(text.last())
    }
}

/// The PowerShell command that registers a bundle over the running package. The
/// package is shut down for it: the broker is resident, so a deferred registration
/// would never land.
pub fn register_script(bundle: &str) -> (r: String)
    ensures
        r@ == "Add-AppxPackage -Path '"@ + quotes_doubled(bundle@)
            + "' -ForceApplicationShutdown"@,
{
    let path = chars_of(bundle);
    let mut script: String = "Add-AppxPackage -Path '".to_owned();
    let ghost lead = script@;
    assert(script@ =~= lead + quotes_doubled(bundle@.take(0)));
    for i in 0..path.len()
        invariant
            path@ == bundle@,
            script@ == lead + quotes_doubled(bundle@.take(i as int)),
    {
        proof {
            assert(bundle@.take(i + 1).drop_last() =~= bundle@.take(i as int));
        }
        if path[i] == '\'' {
            script.push('\'');
        }
        script.push(path[i]);
        assert(script@ =~= lead + quotes_doubled(bundle@.take(i + 1)));
    }
    assert(bundle@.take(bundle@.len() as int) =~= bundle@);
    script.push_str("' -ForceApplicationShutdown");
    script
}

// ---------------------------------------------------------------------------
// The result file
// ---------------------------------------------------------------------------

/// What the helper reported.
#[derive(Debug, Clone, PartialEq, Eq)]
pub enum HelperResult {
    /// The install finished.
    Completed,
    /// The Store paused it; retry later.
    Paused,
    /// It failed; the string is the code.
    Error(String),
}

/// A helper's result as plain text.
pub enum HelperText {
    Completed,
    Paused,
    Error(Seq<char>),
}

impl View for HelperResult {
    type V = HelperText;

    open spec fn view(&self) -> HelperText {
        match self {
            HelperResult::Completed => HelperText::Completed,
            HelperResult::Paused => HelperText::Paused,
            HelperResult::Error(code) => HelperText::Error(code@),
        }
    }
}

impl HelperText {
    /// What stands in the file.
    pub open spec fn file_text(self) -> Seq<char> {
        match self {
            HelperText::Completed => "completed"@,
            HelperText::Paused => "paused"@,
            HelperText::Error(code) => "error:"@ + code,
        }
    }

    /// The sentence worth reporting, if any.
    pub open spec fn detail_text(self) -> Option<Seq<char>> {
        match self {
            HelperText::Completed => None,
            HelperText::Paused => Some("The Store paused the last install."@),
            HelperText::Error(code) => Some("The last install failed ("@ + code + ")."@),
        }
    }
}

/// The result a file's text stands for; anything else is no verdict.
pub open spec fn helper_result_of(file: Seq<char>) -> Option<HelperText> {
    let text = trimmed(file);
    if same_ignoring_case(text, "completed"@) {
        Some(HelperText::Completed)
    } else if same_ignoring_case(text, "paused"@) {
        Some(HelperText::Paused)
    } else if text.len() < 6 || !same_ignoring_case(text.take(6), "error:"@) {
        None
    } else {
        let code = trimmed(text.skip(6));
        if code.len() == 0 {
            None
        } else {
            Some(HelperText::Error(code))
        }
    }
}

/// Parses the one line the helper writes. A truncated or foreign file must not be
/// mistaken for a verdict.
#[must_use]
pub fn parse_helper_result(text: &str) -> (r: Option<HelperResult>)
    ensures
        match r {
            Some(result) => helper_result_of(text@) == Some(result@),
            None => helper_result_of(text@) is None,
        },
{
    let chars = chars_of(text);
    let line = trim(chars.as_slice());
    if same_chars_ignoring_case(line, chars_of("completed").as_slice()) {
        return Some(HelperResult::Completed);
    }
    if same_chars_ignoring_case(line, chars_of("paused").as_slice()) {
        return Some(HelperResult::Paused);
    }
    if line.len() < 6 {
        return None;
    }
    let prefix = part(line, 0, 6);
    assert(prefix@ =~= line@.take(6));
    if !same_chars_ignoring_case(prefix, chars_of("error:").as_slice()) {
        return None;
    }
    let rest = part(line, 6, line.len());
    assert(rest@ =~= line@.skip(6));
    let code = trim(rest);
    if code.len() == 0 {
        return None;
    }
    Some(HelperResult::Error(string_of(code)))
}

/// What the helper writes for the next packaged run.
pub fn result_file_text(result: &HelperResult) -> (r: String)
    ensures
        r@ == result@.file_text(),
{
    match result {
        HelperResult::Completed => "completed".to_owned(),
        HelperResult::Paused => "paused".to_owned(),
        HelperResult::Error(code) => {
            let mut text: String = "error:".to_owned();
            text.push_str(code.as_str());
            text
        },
    }
}

/// What folding a helper's result does to the cached update notice.
#[derive(Debug, Clone, Copy, PartialEq, Eq, Structural)]
pub enum Fold {
    ClearAvailable,
    KeepAvailable,
}

/// Only a completed install proves the notice stale. A pause or an error leaves it
/// standing, so that the next check still offers the update.
#[must_use]
pub fn fold_helper_result(result: &HelperResult) -> (r: Fold)
    ensures
        r == if result@ is Completed {
            Fold::ClearAvailable
        } else {
            Fold::KeepAvailable
        },
{
    match result {
        HelperResult::Completed => Fold::ClearAvailable,
        HelperResult::Paused => Fold::KeepAvailable,
        HelperResult::Error(_) => Fold::KeepAvailable,
    }
}

/// The sentence a folded result is worth reporting as, if any.
#[must_use]
pub fn helper_result_detail(result: &HelperResult) -> (r: Option<String>)
    ensures
        crate::text::string_in(r) == result@.detail_text(),
{
    match result {
        HelperResult::Completed => None,
        HelperResult::Paused => Some("The Store paused the last install.".to_owned()),
        HelperResult::Error(code) => {
            let mut text: String = "The last install failed (".to_owned();
            text.push_str(code.as_str());
            text.push_str(").");
            Some(text)
        },
    }
}

/// Folds the text of a result file that was read and consumed: whether the cached
/// notice goes, and the sentence to report. A file that holds no verdict changes
/// nothing.
pub fn fold_result_file(file: Option<&str>) -> (r: (bool, Option<String>))
    ensures
        ({
            let result = match file {
                Some(text) => helper_result_of(text@),
                None => None,
            };
            &&& r.0 == (result is Some && result->Some_0 is Completed)
            &&& crate::text::string_in(r.1) == match result {
                Some(text) => text.detail_text(),
                None => None,
            }
        }),
{
    match file {
        None => (false, None),
        Some(text) => match parse_helper_result(text) {
            None => (false, None),
            Some(result) => {
                let clear = matches!(fold_helper_result(&result), Fold::ClearAvailable);
                (clear, helper_result_detail(&result))
            },
        },
    }
}

/// What the helper records, and exits with, after it registered a bundle or was
/// refused.
pub fn apply_bundle_result(registered: Result<(), UpdateVerificationError>) -> (r: (
    HelperResult,
    i32,
))
    ensures
        match registered {
            Ok(_) => r.0@ is Completed && r.1 == EXIT_OK,
            Err(error) => r.0@ == HelperText::Error(error.code_text()) && r.1 == EXIT_ERROR,
        },
{
    match registered {
        Ok(_) => (HelperResult::Completed, EXIT_OK),
        Err(error) => (HelperResult::Error(error.code().to_owned()), EXIT_ERROR),
    }
}

/// Whatever the helper writes is read back as the same result, for every code that
/// has no white space around it.
pub proof fn law_result_file_reads_back(result: HelperText)
    requires
        result is Error ==> result->Error_0.len() > 0 && trimmed(result->Error_0)
            == result->Error_0,
    ensures
        helper_result_of(result.file_text()) == Some(result),
{
    reveal_strlit("completed");
    reveal_strlit("paused");
    reveal_strlit("error:");
    let text = result.file_text();
    match result {
        HelperText::Completed => {
            assert(trimmed(text) == text);
        },
        HelperText::Paused => {
            assert(trimmed(text) == text);
            assert("completed"@.len() == 9 && "paused"@.len() == 6);
        },
        HelperText::Error(code) => {
            assert(text[0] == 'e');
            assert(trim_front(text) == text);
            lemma_trim_fixed(code);
            assert(text.last() == code.last());
            assert(trim_back(text) == text);
            assert(text.skip(6) =~= code);
            assert(text.take(6) =~= "error:"@);
            assert(crate::text::lower(text[0]) != crate::text::lower("completed"@[0]));
            assert(crate::text::lower(text[0]) != crate::text::lower("paused"@[0]));
        },
    }
}

/// A text that trimming leaves alone ends in no white space.
proof fn lemma_trim_fixed(text: Seq<char>)
    requires
        text.len() > 0,
        trimmed(text) == text,
    ensures
        !crate::text::is_white(text.last()),
{
    lemma_trim_back_shorter(trim_front(text));
    crate::text::lemma_trim_front(text);
    assert(trim_front(text).len() == text.len());
    assert(trim_front(text) =~= text);
    if crate::text::is_white(text.last()) {
        lemma_trim_back_shorter(text.drop_last());
    }
}

proof fn lemma_trim_back_shorter(text: Seq<char>)
    ensures
        trim_back(text).len() <= text.len(),
    decreases text.len(),
{
    if text.len() > 0 && crate::text::is_white(text.last()) {
        lemma_trim_back_shorter(text.drop_last());
    }
}

}
