//! The watchdog: what brings the product back after an update closed it.
//!
//! A process the Store has just terminated cannot relaunch itself; a one-shot
//! scheduled task can. Its script optionally runs one lead command, then an inline
//! PowerShell watchdog, then removes the task and itself. The watchdog waits until
//! the installed version is greater than the one that was running, then relaunches.
//!
//! The PowerShell text stands inside a batch file, so it holds no `%` and no `"`,
//! and none of the batch operators. Every value spliced in is checked first: one
//! that could carry a metacharacter produces **no script at all**.

use crate::options::RelaunchMode;
use crate::path::text_in;
use crate::text::{
    alnum, chars_of, decimal, hex_lower, is_alnum, lemma_split_concat, lemma_split_one, lines_of,
    lower, push_decimal, push_hex_lower, replace_char, replaced, same, split, string_in,
    string_of, to_lower, trim, trim_back_of, trim_end_of, trimmed, without_return,
};
use crate::update::UPDATE_RESULT_FILE;
use vstd::prelude::*;
use vstd::utf8::encode_utf8;

verus! {

/// Prefix for unique task names.
pub const WATCHDOG_TASK_NAME: &'static str = "fwdslash-update";

/// How long the backstop trigger of a watchdog waits, in minutes.
pub const WATCHDOG_DELAY_MINUTES: u16 = 5;

/// How old a lock may be before it is given up, in nanoseconds: sixty-five minutes.
pub const LOCK_STALE_AFTER: u128 = 65 * 60 * 1_000_000_000;

/// The lock file in the update directory.
pub const LOCK_FILE_NAME: &'static str = "update-attempt.lock";

// ---------------------------------------------------------------------------
// Literals
// ---------------------------------------------------------------------------

/// A character no interpreter treats specially.
pub open spec fn is_literal_char(c: char) -> bool {
    is_alnum(c) || c == '.' || c == '_' || c == '-'
}

/// A text that may be spliced into a script as it stands.
pub open spec fn is_safe_literal(text: Seq<char>) -> bool {
    text.len() > 0 && forall|i: int| 0 <= i < text.len() ==> is_literal_char(#[trigger] text[i])
}

/// Whether a text may be spliced into a script as it stands: letters, digits, dots,
/// underscores and hyphens, and at least one of them.
pub fn is_safe_task_literal(text: &str) -> (r: bool)
    ensures
        r == is_safe_literal(text@),
{
    let chars = chars_of(text);
    if chars.len() == 0 {
        return false;
    }
    for i in 0..chars.len()
        invariant
            chars@ == text@,
            forall|j: int| 0 <= j < i ==> is_literal_char(#[trigger] chars@[j]),
    {
        let c = chars[i];
        if !(alnum(c) || c == '.' || c == '_' || c == '-') {
            assert(!is_literal_char(chars@[i as int]));
            return false;
        }
    }
    true
}

/// A character that a quoted path in a batch file must not hold.
pub open spec fn is_batch_special(c: char) -> bool {
    c == '"' || c == '%' || c == '&' || c == '|' || c == '^' || c == '<' || c == '>' || c == '\r'
        || c == '\n'
}

/// A path that can be quoted in a batch file.
pub open spec fn is_batch_path(path: Seq<char>) -> bool {
    path.len() > 0 && forall|i: int| 0 <= i < path.len() ==> !is_batch_special(#[trigger] path[i])
}

/// A path in quotes.
pub open spec fn quoted(path: Seq<char>) -> Seq<char> {
    "\""@ + path + "\""@
}

/// A path in quotes, or `None` where a batch file could not hold it.
pub fn batch_quoted_path(path: &str) -> (r: Option<String>)
    ensures
        match r {
            Some(text) => is_batch_path(path@) && text@ == quoted(path@),
            None => !is_batch_path(path@),
        },
{
    let chars = chars_of(path);
    if chars.len() == 0 {
        return None;
    }
    for i in 0..chars.len()
        invariant
            chars@ == path@,
            forall|j: int| 0 <= j < i ==> !is_batch_special(#[trigger] chars@[j]),
    {
        let c = chars[i];
        if c == '"' || c == '%' || c == '&' || c == '|' || c == '^' || c == '<' || c == '>' || c
            == '\r' || c == '\n' {
            assert(is_batch_special(chars@[i as int]));
            return None;
        }
    }
    let mut text: String = "\"".to_owned();
    text.push_str(path);
    text.push_str("\"");
    Some(text)
}

// ---------------------------------------------------------------------------
// The watchdog
// ---------------------------------------------------------------------------

/// Starts the broker, only when none is running.
pub open spec fn broker_relaunch() -> Seq<char> {
    "if (-not (Get-Process -Name fswbroker -ErrorAction SilentlyContinue)) { "@
        + "Start-Process -FilePath (Join-Path $env:LOCALAPPDATA "@
        + "'Microsoft\\WindowsApps\\fwdslash.exe') -ArgumentList 'start' -WindowStyle Hidden }"@
}

/// Starts the settings window.
pub open spec fn app_relaunch(family: Seq<char>) -> Seq<char> {
    "Start-Process -FilePath 'shell:AppsFolder\\"@ + family + "!App'"@
}

/// Waits until this family's package is newer than the previous version. Identity
/// names are shared, so a newer sibling of another family is no proof.
pub open spec fn wait_text(family: Seq<char>, identity: Seq<char>, previous: Seq<char>) -> Seq<
    char,
> {
    "$deadline = (Get-Date).AddMinutes(45); $previous = [version]'"@ + previous
        + "'; $ready = $false; while ((Get-Date) -lt $deadline) { "@
        + "foreach ($package in Get-AppxPackage -Name '"@ + identity
        + "') { if ($package.PackageFamilyName -eq '"@ + family
        + "' -and [version]$package.Version -gt $previous) { $ready = $true } }; "@
        + "if ($ready) { break }; Start-Sleep -Seconds 5 }; "@
}

/// Records that the wait ran out, unless a result is already there.
pub open spec fn timeout_text() -> Seq<char> {
    "$result = Join-Path $env:LOCALAPPDATA 'ForwardSlashWindows\\update\\"@ + UPDATE_RESULT_FILE@
        + "'; if (-not (Test-Path -LiteralPath $result)) { "@
        + "$null = New-Item -ItemType Directory -Force -Path (Split-Path $result); "@
        + "Set-Content -LiteralPath $result -Value 'error:0x800705B4' -NoNewline }"@
}

pub open spec fn relaunch_text(family: Seq<char>, mode: RelaunchMode) -> Seq<char> {
    match mode {
        RelaunchMode::Broker => broker_relaunch(),
        RelaunchMode::App => app_relaunch(family),
        RelaunchMode::Nothing => Seq::empty(),
    }
}

/// The watchdog's PowerShell text. With `restore`, a wait that ran out brings the
/// broker back whatever the mode: the old package is still the installed product.
pub open spec fn watchdog_text(
    family: Seq<char>,
    identity: Seq<char>,
    previous: Seq<char>,
    mode: RelaunchMode,
    restore: bool,
) -> Seq<char> {
    wait_text(family, identity, previous) + "if ($ready) { "@ + relaunch_text(family, mode)
        + " } else { "@ + timeout_text() + (if restore {
        "; "@ + broker_relaunch()
    } else {
        Seq::empty()
    }) + " }"@
}

/// Whether the three values a watchdog splices in are safe.
pub open spec fn are_safe(family: Seq<char>, identity: Seq<char>, previous: Seq<char>) -> bool {
    is_safe_literal(family) && is_safe_literal(identity) && is_safe_literal(previous)
}

fn push_broker_relaunch(s: &mut String)
    ensures
        final(s)@ == old(s)@ + broker_relaunch(),
{
    s.push_str("if (-not (Get-Process -Name fswbroker -ErrorAction SilentlyContinue)) { ");
    s.push_str("Start-Process -FilePath (Join-Path $env:LOCALAPPDATA ");
    s.push_str(
        "'Microsoft\\WindowsApps\\fwdslash.exe') -ArgumentList 'start' -WindowStyle Hidden }",
    );
    assert(s@ =~= old(s)@ + broker_relaunch());
}

fn push_wait(s: &mut String, family: &str, identity: &str, previous: &str)
    ensures
        final(s)@ == old(s)@ + wait_text(family@, identity@, previous@),
{
    s.push_str("$deadline = (Get-Date).AddMinutes(45); $previous = [version]'");
    s.push_str(previous);
    s.push_str("'; $ready = $false; while ((Get-Date) -lt $deadline) { ");
    s.push_str("foreach ($package in Get-AppxPackage -Name '");
    s.push_str(identity);
    s.push_str("') { if ($package.PackageFamilyName -eq '");
    s.push_str(family);
    s.push_str("' -and [version]$package.Version -gt $previous) { $ready = $true } }; ");
    s.push_str("if ($ready) { break }; Start-Sleep -Seconds 5 }; ");
    assert(s@ =~= old(s)@ + wait_text(family@, identity@, previous@));
}

fn push_timeout(s: &mut String)
    ensures
        final(s)@ == old(s)@ + timeout_text(),
{
    s.push_str("$result = Join-Path $env:LOCALAPPDATA 'ForwardSlashWindows\\update\\");
    s.push_str(UPDATE_RESULT_FILE);
    s.push_str("'; if (-not (Test-Path -LiteralPath $result)) { ");
    s.push_str("$null = New-Item -ItemType Directory -Force -Path (Split-Path $result); ");
    s.push_str("Set-Content -LiteralPath $result -Value 'error:0x800705B4' -NoNewline }");
    assert(s@ =~= old(s)@ + timeout_text());
}

fn push_relaunch(s: &mut String, family: &str, mode: RelaunchMode)
    ensures
        final(s)@ == old(s)@ + relaunch_text(family@, mode),
{
    match mode {
        RelaunchMode::Broker => {
            push_broker_relaunch(s);
        },
        RelaunchMode::App => {
            s.push_str("Start-Process -FilePath 'shell:AppsFolder\\");
            s.push_str(family);
            s.push_str("!App'");
            assert(s@ =~= old(s)@ + app_relaunch(family@));
        },
        RelaunchMode::Nothing => {
            assert(s@ =~= old(s)@ + Seq::<char>::empty());
        },
    }
}

fn watchdog_command(
    family: &str,
    identity_name: &str,
    previous_version: &str,
    mode: RelaunchMode,
    restore: bool,
) -> (r: Option<String>)
    ensures
        match r {
            Some(text) => {
                &&& mode != RelaunchMode::Nothing
                &&& are_safe(family@, identity_name@, previous_version@)
                &&& text@ == watchdog_text(
                    family@,
                    identity_name@,
                    previous_version@,
                    mode,
                    restore,
                )
            },
            None => mode == RelaunchMode::Nothing || !are_safe(
                family@,
                identity_name@,
                previous_version@,
            ),
        },
{
    if mode == RelaunchMode::Nothing {
        return None;
    }
    if !is_safe_task_literal(family) || !is_safe_task_literal(identity_name)
        || !is_safe_task_literal(previous_version) {
        return None;
    }
    let mut s: String = String::new();
    push_wait(&mut s, family, identity_name, previous_version);
    s.push_str("if ($ready) { ");
    push_relaunch(&mut s, family, mode);
    s.push_str(" } else { ");
    push_timeout(&mut s);
    if restore {
        s.push_str("; ");
        push_broker_relaunch(&mut s);
    }
    s.push_str(" }");
    assert(s@ =~= watchdog_text(family@, identity_name@, previous_version@, mode, restore));
    Some(s)
}

/// The PowerShell text: wait for the package version to advance, then relaunch; and
/// where it did not advance, record that and bring the broker back. `None` where
/// nothing is to be relaunched, and for any literal that is not safe to splice.
#[must_use]
pub fn watchdog_powershell(
    family: &str,
    identity_name: &str,
    previous_version: &str,
    mode: RelaunchMode,
) -> (r: Option<String>)
    ensures
        match r {
            Some(text) => {
                &&& mode != RelaunchMode::Nothing
                &&& are_safe(family@, identity_name@, previous_version@)
                &&& text@ == watchdog_text(family@, identity_name@, previous_version@, mode, true)
            },
            None => mode == RelaunchMode::Nothing || !are_safe(
                family@,
                identity_name@,
                previous_version@,
            ),
        },
{
    watchdog_command(family, identity_name, previous_version, mode, true)
}

/// The `winget upgrade` command line, with every flag needed to prevent prompts.
#[must_use]
pub fn winget_command(product_id: &str) -> (r: String)
    ensures
        r@ == "winget.exe"@ + winget_arguments(product_id@),
{
    let mut command: String = "winget.exe".to_owned();
    push_winget_arguments(&mut command, product_id);
    command
}

pub open spec fn winget_arguments(product_id: Seq<char>) -> Seq<char> {
    " upgrade --id "@ + product_id + " --source msstore --exact --silent --force"@
        + " --accept-package-agreements --accept-source-agreements --disable-interactivity"@
}

fn push_winget_arguments(s: &mut String, product_id: &str)
    ensures
        final(s)@ == old(s)@ + winget_arguments(product_id@),
{
    s.push_str(" upgrade --id ");
    s.push_str(product_id);
    s.push_str(" --source msstore --exact --silent --force");
    s.push_str(
        " --accept-package-agreements --accept-source-agreements --disable-interactivity",
    );
    assert(s@ =~= old(s)@ + winget_arguments(product_id@));
}

/// The `winget upgrade` command line with the absolute path of the program, or
/// `None` where a batch file could not hold the path.
pub fn winget_command_for(product_id: &str, winget: &str) -> (r: Option<String>)
    ensures
        match r {
            Some(command) => is_batch_path(winget@) && command@ == quoted(winget@)
                + winget_arguments(product_id@),
            None => !is_batch_path(winget@),
        },
{
    match batch_quoted_path(winget) {
        None => None,
        Some(path) => {
            let mut command = path;
            push_winget_arguments(&mut command, product_id);
            Some(command)
        },
    }
}

// ---------------------------------------------------------------------------
// Scripts
// ---------------------------------------------------------------------------

/// The token of an update attempt: the lock file, and the task that owns it.
#[derive(Debug, Clone, PartialEq, Eq)]
pub struct AttemptLock {
    pub path: String,
    pub owner: String,
}

/// What a script runs, and with which programs.
#[derive(Debug, Clone, Copy, PartialEq, Eq)]
pub struct ScriptLaunch<'a> {
    pub lead: Option<&'a str>,
    pub powershell: Option<&'a str>,
    pub schtasks: Option<&'a str>,
}

/// A line of a batch file.
pub open spec fn batch_line(text: Seq<char>) -> Seq<char> {
    text + "\r\n"@
}

pub open spec fn lead_lines(lead: Option<Seq<char>>) -> Seq<char> {
    match lead {
        Some(command) => batch_line(command),
        None => Seq::empty(),
    }
}

/// The line that runs the watchdog.
pub open spec fn watchdog_line(powershell: Seq<char>, watchdog: Seq<char>) -> Seq<char> {
    batch_line(
        powershell + " -NoProfile -NonInteractive -WindowStyle Hidden -Command "@ + watchdog,
    )
}

/// The line that removes the task.
pub open spec fn delete_task_line(schtasks: Seq<char>, task: Seq<char>) -> Seq<char> {
    batch_line(schtasks + " /delete /tn \""@ + task + "\" /f >nul 2>&1"@)
}

/// The line that releases the lock, only where the attempt still owns it.
pub open spec fn release_line(lock: AttemptLock) -> Seq<char> {
    batch_line(
        "findstr /x /c:\""@ + lock.owner@ + "\" \""@ + lock.path@ + "\" >nul && del /q \""@
            + lock.path@ + "\" >nul 2>&1"@,
    )
}

/// The script of one attempt's task.
pub open spec fn task_script_text(
    task: Seq<char>,
    lead: Option<Seq<char>>,
    powershell: Option<Seq<char>>,
    schtasks: Seq<char>,
    watchdog: Option<Seq<char>>,
    lock: Option<AttemptLock>,
) -> Seq<char> {
    batch_line("@echo off"@) + lead_lines(lead) + (match watchdog {
        Some(text) => watchdog_line(quoted(powershell->Some_0), text),
        None => Seq::empty(),
    }) + delete_task_line(quoted(schtasks), task) + (match lock {
        Some(token) => release_line(token),
        None => Seq::empty(),
    }) + batch_line("del /q \"%~dpn0.xml\" >nul 2>&1"@) + batch_line("del /q \"%~f0\""@)
}

/// Whether an attempt's script can be built: every literal is safe, and every
/// program it runs is known by a path a batch file can hold.
pub open spec fn can_build(
    task: Seq<char>,
    powershell: Option<Seq<char>>,
    schtasks: Option<Seq<char>>,
    family: Seq<char>,
    identity: Seq<char>,
    previous: Seq<char>,
    mode: RelaunchMode,
) -> bool {
    &&& is_safe_literal(task)
    &&& mode != RelaunchMode::Nothing ==> are_safe(family, identity, previous) && powershell is Some
        && is_batch_path(powershell->Some_0)
    &&& schtasks is Some && is_batch_path(schtasks->Some_0)
}

fn push_line(s: &mut String, text: &str)
    ensures
        final(s)@ == old(s)@ + batch_line(text@),
{
    s.push_str(text);
    s.push_str("\r\n");
    assert(s@ =~= old(s)@ + batch_line(text@));
}

fn push_watchdog_line(s: &mut String, powershell: &str, watchdog: &str)
    ensures
        final(s)@ == old(s)@ + watchdog_line(powershell@, watchdog@),
{
    s.push_str(powershell);
    s.push_str(" -NoProfile -NonInteractive -WindowStyle Hidden -Command ");
    s.push_str(watchdog);
    s.push_str("\r\n");
    assert(s@ =~= old(s)@ + watchdog_line(powershell@, watchdog@));
}

fn push_delete_task_line(s: &mut String, schtasks: &str, task: &str)
    ensures
        final(s)@ == old(s)@ + delete_task_line(schtasks@, task@),
{
    s.push_str(schtasks);
    s.push_str(" /delete /tn \"");
    s.push_str(task);
    s.push_str("\" /f >nul 2>&1");
    s.push_str("\r\n");
    assert(s@ =~= old(s)@ + delete_task_line(schtasks@, task@));
}

fn push_release_line(s: &mut String, lock: &AttemptLock)
    ensures
        final(s)@ == old(s)@ + release_line(*lock),
{
    s.push_str("findstr /x /c:\"");
    s.push_str(lock.owner.as_str());
    s.push_str("\" \"");
    s.push_str(lock.path.as_str());
    s.push_str("\" >nul && del /q \"");
    s.push_str(lock.path.as_str());
    s.push_str("\" >nul 2>&1");
    s.push_str("\r\n");
    assert(s@ =~= old(s)@ + release_line(*lock));
}

/// The script of one attempt's task: an optional lead command, the watchdog, then
/// the self-clean. `None` when a literal was unsafe or a program is not known,
/// which is a refusal to schedule anything at all.
///
/// The lead command is not literal-checked: it carries a quoted path, and is built
/// by this program, never from user input.
#[must_use]
pub fn build_script_for_task(
    task_name: &str,
    launch: ScriptLaunch<'_>,
    family: &str,
    identity_name: &str,
    previous_version: &str,
    mode: RelaunchMode,
    lock: Option<&AttemptLock>,
) -> (r: Option<String>)
    ensures
        match r {
            Some(script) => {
                &&& can_build(
                    task_name@,
                    text_in(launch.powershell),
                    text_in(launch.schtasks),
                    family@,
                    identity_name@,
                    previous_version@,
                    mode,
                )
                &&& script@ == task_script_text(
                    task_name@,
                    text_in(launch.lead),
                    text_in(launch.powershell),
                    launch.schtasks->Some_0@,
                    if mode == RelaunchMode::Nothing {
                        None
                    } else {
                        Some(
                            watchdog_text(
                                family@,
                                identity_name@,
                                previous_version@,
                                mode,
                                true,
                            ),
                        )
                    },
                    match lock {
                        Some(token) => Some(*token),
                        None => None,
                    },
                )
            },
            None => !can_build(
                task_name@,
                text_in(launch.powershell),
                text_in(launch.schtasks),
                family@,
                identity_name@,
                previous_version@,
                mode,
            ),
        },
{
    if !is_safe_task_literal(task_name) {
        return None;
    }
    let watchdog = watchdog_powershell(family, identity_name, previous_version, mode);
    if watchdog.is_none() && mode != RelaunchMode::Nothing {
        return None;
    }
    let mut script: String = "@echo off\r\n".to_owned();
    proof {
        reveal_strlit("@echo off\r\n");
        reveal_strlit("@echo off");
        reveal_strlit("\r\n");
        assert("@echo off\r\n"@ =~= batch_line("@echo off"@));
    }
    if let Some(lead) = launch.lead {
        push_line(&mut script, lead);
    } else {
        assert(script@ =~= script@ + Seq::<char>::empty());
    }
    if let Some(text) = watchdog {
        let powershell = match launch.powershell {
            Some(path) => path,
            None => {
                return None;
            },
        };
        let program = match batch_quoted_path(powershell) {
            Some(program) => program,
            None => {
                return None;
            },
        };
        push_watchdog_line(&mut script, program.as_str(), text.as_str());
    } else {
        assert(script@ =~= script@ + Seq::<char>::empty());
    }
    let schtasks = match launch.schtasks {
        Some(path) => path,
        None => {
            return None;
        },
    };
    let scheduler = match batch_quoted_path(schtasks) {
        Some(scheduler) => scheduler,
        None => {
            return None;
        },
    };
    push_delete_task_line(&mut script, scheduler.as_str(), task_name);
    if let Some(token) = lock {
        push_release_line(&mut script, token);
    } else {
        assert(script@ =~= script@ + Seq::<char>::empty());
    }
    push_line(&mut script, "del /q \"%~dpn0.xml\" >nul 2>&1");
    push_line(&mut script, "del /q \"%~f0\"");
    Some(script)
}

/// Whether a fixed-name script brings the broker back after a wait that ran out. The
/// one that only waits to reopen the settings window never starts the broker.
pub open spec fn restores_broker(lead: Option<Seq<char>>, mode: RelaunchMode) -> bool {
    lead is Some || mode == RelaunchMode::Broker
}

/// The fixed-name script: the programs are found on the search path.
pub open spec fn plain_script_text(
    lead: Option<Seq<char>>,
    family: Seq<char>,
    identity: Seq<char>,
    previous: Seq<char>,
    mode: RelaunchMode,
) -> Seq<char> {
    batch_line("@echo off"@) + lead_lines(lead) + (if mode == RelaunchMode::Nothing {
        Seq::empty()
    } else {
        watchdog_line(
            "powershell.exe"@,
            watchdog_text(family, identity, previous, mode, restores_broker(lead, mode)),
        )
    }) + delete_task_line("schtasks"@, WATCHDOG_TASK_NAME@) + batch_line("del /q \"%~f0\""@)
}

fn build_script(
    lead: Option<&str>,
    family: &str,
    identity_name: &str,
    previous_version: &str,
    mode: RelaunchMode,
) -> (r: Option<String>)
    ensures
        match r {
            Some(script) => {
                &&& mode == RelaunchMode::Nothing || are_safe(
                    family@,
                    identity_name@,
                    previous_version@,
                )
                &&& script@ == plain_script_text(
                    text_in(lead),
                    family@,
                    identity_name@,
                    previous_version@,
                    mode,
                )
            },
            None => mode != RelaunchMode::Nothing && !are_safe(
                family@,
                identity_name@,
                previous_version@,
            ),
        },
{
    let restore = lead.is_some() || mode == RelaunchMode::Broker;
    let watchdog = watchdog_command(family, identity_name, previous_version, mode, restore);
    if watchdog.is_none() && mode != RelaunchMode::Nothing {
        return None;
    }
    let mut script: String = "@echo off\r\n".to_owned();
    proof {
        reveal_strlit("@echo off\r\n");
        reveal_strlit("@echo off");
        reveal_strlit("\r\n");
        assert("@echo off\r\n"@ =~= batch_line("@echo off"@));
    }
    if let Some(command) = lead {
        push_line(&mut script, command);
    } else {
        assert(script@ =~= script@ + Seq::<char>::empty());
    }
    if let Some(text) = watchdog {
        push_watchdog_line(&mut script, "powershell.exe", text.as_str());
    } else {
        assert(script@ =~= script@ + Seq::<char>::empty());
    }
    push_delete_task_line(&mut script, "schtasks", WATCHDOG_TASK_NAME);
    push_line(&mut script, "del /q \"%~f0\"");
    Some(script)
}

/// The watchdog on its own: nothing to run first, just wait and relaunch.
#[must_use]
pub fn watchdog_script(
    family: &str,
    identity_name: &str,
    previous_version: &str,
    mode: RelaunchMode,
) -> (r: Option<String>)
    ensures
        match r {
            Some(script) => {
                &&& mode == RelaunchMode::Nothing || are_safe(
                    family@,
                    identity_name@,
                    previous_version@,
                )
                &&& script@ == plain_script_text(
                    None,
                    family@,
                    identity_name@,
                    previous_version@,
                    mode,
                )
            },
            None => mode != RelaunchMode::Nothing && !are_safe(
                family@,
                identity_name@,
                previous_version@,
            ),
        },
{
    build_script(None, family, identity_name, previous_version, mode)
}

/// The lines of a fixed-name script with a lead command: the install, then the
/// watchdog with its comeback, then the cleaning up.
pub open spec fn apply_lines(
    command: Seq<char>,
    family: Seq<char>,
    identity: Seq<char>,
    previous: Seq<char>,
    mode: RelaunchMode,
) -> Seq<Seq<char>> {
    seq![
        "@echo off"@,
        command,
        "powershell.exe"@ + " -NoProfile -NonInteractive -WindowStyle Hidden -Command "@
            + watchdog_text(family, identity, previous, mode, true),
        "schtasks"@ + " /delete /tn \""@ + WATCHDOG_TASK_NAME@ + "\" /f >nul 2>&1"@,
        "del /q \"%~f0\""@,
    ]
}

/// The watchdog with a lead command in front of it. One task, so that the install
/// and the comeback cannot be separated by a package shutdown between them.
#[must_use]
pub fn apply_script(
    command: &str,
    family: &str,
    identity_name: &str,
    previous_version: &str,
    mode: RelaunchMode,
) -> (r: Option<String>)
    ensures
        match r {
            Some(script) => {
                &&& mode == RelaunchMode::Nothing || are_safe(
                    family@,
                    identity_name@,
                    previous_version@,
                )
                &&& script@ == plain_script_text(
                    Some(command@),
                    family@,
                    identity_name@,
                    previous_version@,
                    mode,
                )
                &&& mode != RelaunchMode::Nothing && !command@.contains('\n') ==> lines_of(script@)
                    == apply_lines(command@, family@, identity_name@, previous_version@, mode)
            },
            None => mode != RelaunchMode::Nothing && !are_safe(
                family@,
                identity_name@,
                previous_version@,
            ),
        },
{
    proof {
        if mode != RelaunchMode::Nothing && are_safe(family@, identity_name@, previous_version@)
            && !command@.contains('\n') {
            law_the_install_runs_before_the_comeback(
                command@,
                family@,
                identity_name@,
                previous_version@,
                mode,
            );
        }
    }
    build_script(Some(command), family, identity_name, previous_version, mode)
}

// ---------------------------------------------------------------------------
// Tasks and locks
// ---------------------------------------------------------------------------

/// What a task is for.
#[derive(Debug, Clone, Copy, PartialEq, Eq, Structural)]
pub enum TaskKind {
    Watchdog,
    Apply,
}

impl TaskKind {
    pub open spec fn name_text(self) -> Seq<char> {
        match self {
            TaskKind::Watchdog => "watchdog"@,
            TaskKind::Apply => "apply"@,
        }
    }
}

/// The unique name of one attempt's task.
pub open spec fn task_name_text(kind: TaskKind, process: u32, sequence: u64) -> Seq<char> {
    WATCHDOG_TASK_NAME@.push('-') + kind.name_text().push('-') + decimal(process as nat).push('-')
        + decimal(sequence as nat)
}

/// The unique name of one attempt's task.
pub fn task_name(kind: TaskKind, process: u32, sequence: u64) -> (r: String)
    ensures
        r@ == task_name_text(kind, process, sequence),
{
    let mut name: String = WATCHDOG_TASK_NAME.to_owned();
    name.push('-');
    name.push_str(
        match kind {
            TaskKind::Watchdog => "watchdog",
            TaskKind::Apply => "apply",
        },
    );
    name.push('-');
    push_decimal(&mut name, process as u64);
    name.push('-');
    push_decimal(&mut name, sequence);
    assert(name@ =~= task_name_text(kind, process, sequence));
    name
}

/// A directory as the lock's mutex names it: backslashes, no trailing one, ASCII
/// lower case.
pub open spec fn normalized_directory(directory: Seq<char>) -> Seq<char> {
    trim_back_of(replaced(directory, '/', '\\'), '\\').map_values(|c: char| lower(c))
}

/// The FNV-1a hash of some bytes.
pub open spec fn fnv1a(bytes: Seq<u8>) -> u64
    decreases bytes.len(),
{
    if bytes.len() == 0 {
        0xcbf2_9ce4_8422_2325
    } else {
        (fnv1a(bytes.drop_last()) ^ (bytes.last() as u64)).wrapping_mul(0x0000_0100_0000_01b3)
    }
}

/// The name of the mutex that guards a directory's lock file.
pub fn mutex_name(directory: &str) -> (r: String)
    ensures
        r@ == "Global\\ForwardSlashWindows.UpdateAttemptLock."@ + hex_lower(
            fnv1a(encode_utf8(normalized_directory(directory@))) as nat,
            16,
        ),
{
    let flat = replace_char(chars_of(directory).as_slice(), '/', '\\');
    let stem = trim_end_of(flat.as_slice(), '\\');
    let mut lowered: String = String::new();
    for i in 0..stem.len()
        invariant
            lowered@ == stem@.take(i as int).map_values(|c: char| lower(c)),
    {
        lowered.push(to_lower(stem[i]));
        assert(lowered@ =~= stem@.take(i + 1).map_values(|c: char| lower(c)));
    }
    assert(stem@.take(stem@.len() as int) =~= stem@);
    assert(lowered@ =~= normalized_directory(directory@));
    let bytes = lowered.as_str().as_bytes();
    let mut hash: u64 = 0xcbf2_9ce4_8422_2325;
    for i in 0..bytes.len()
        invariant
            hash == fnv1a(bytes@.take(i as int)),
    {
        proof {
            assert(bytes@.take(i + 1).drop_last() =~= bytes@.take(i as int));
        }
        hash = (hash ^ (bytes[i] as u64)).wrapping_mul(0x0000_0100_0000_01b3);
    }
    assert(bytes@.take(bytes@.len() as int) =~= bytes@);
    let mut name: String = "Global\\ForwardSlashWindows.UpdateAttemptLock.".to_owned();
    push_hex_lower(&mut name, hash, 16);
    name
}

/// The holder a lock file names.
pub open spec fn holder_of(file: Option<Seq<char>>) -> Option<Seq<char>> {
    match file {
        Some(text) => if trimmed(text).len() > 0 {
            Some(trimmed(text))
        } else {
            None
        },
        None => None,
    }
}

/// The holder a lock file names, for the caller to ask whether its task is still
/// registered.
pub fn lock_holder(file: Option<&str>) -> (r: Option<String>)
    ensures
        string_in(r) == holder_of(text_in(file)),
{
    match file {
        None => None,
        Some(text) => {
            let chars = chars_of(text);
            let holder = trim(chars.as_slice());
            if holder.len() == 0 {
                None
            } else {
                Some(string_of(holder))
            }
        },
    }
}

/// Whether an existing lock is given up: it is too old, or it names a task that is
/// gone.
pub open spec fn is_reclaimable(age: Option<u128>, holder: Option<Seq<char>>, holder_alive: bool, stale_after: u128) -> bool {
    (age is Some && age->Some_0 > stale_after) || (holder is Some && !holder_alive)
}

/// What an attempt to take the lock does next.
#[derive(Debug, Clone, Copy, PartialEq, Eq, Structural)]
pub enum LockStep {
    /// The lock is taken: write the owner into it.
    Taken,
    /// Remove the old lock and try once more.
    RemoveAndRetry,
    /// Remove the old lock and give up: it came back after it was removed once.
    RemoveAndGiveUp,
    /// Somebody else holds it.
    Held,
}

/// One try at the lock. `created` says that the file was not there and now is.
/// `first` says that this is the first of the two tries.
///
/// A lock whose task is gone is an orphan and is reclaimed at once rather than when
/// it is old enough.
pub fn acquire_step(
    first: bool,
    created: bool,
    age: Option<u128>,
    holder: Option<&str>,
    holder_alive: bool,
    stale_after: u128,
) -> (r: LockStep)
    ensures
        r == if created {
            LockStep::Taken
        } else if !is_reclaimable(age, text_in(holder), holder_alive, stale_after) {
            LockStep::Held
        } else if first {
            LockStep::RemoveAndRetry
        } else {
            LockStep::RemoveAndGiveUp
        },
{
    if created {
        return LockStep::Taken;
    }
    let aged_out = match age {
        Some(nanoseconds) => nanoseconds > stale_after,
        None => false,
    };
    let orphaned = holder.is_some() && !holder_alive;
    if !aged_out && !orphaned {
        LockStep::Held
    } else if first {
        LockStep::RemoveAndRetry
    } else {
        LockStep::RemoveAndGiveUp
    }
}

impl AttemptLock {
    /// Whether releasing removes the lock file, for what the file holds: only where
    /// this attempt still owns it.
    pub fn release_removes(&self, file: Option<&str>) -> (r: bool)
        ensures
            r == (file is Some && file->Some_0@ == self.owner@),
    {
        match file {
            Some(text) => same(text, self.owner.as_str()),
            None => false,
        }
    }
}

/// A task to register: its name, its script, and when it starts.
#[derive(Debug, Clone, PartialEq, Eq)]
pub struct OneShotTask {
    pub name: String,
    pub script: String,
    /// `None` starts it at once.
    pub delay_minutes: Option<u16>,
}

/// The package an update replaces, and how it is told apart.
#[derive(Debug, Clone, Copy, PartialEq, Eq)]
pub struct PackageNames<'a> {
    pub family: &'a str,
    pub identity: &'a str,
    pub previous: &'a str,
}

/// What becomes of a watchdog.
#[derive(Debug, Clone, PartialEq, Eq)]
pub enum WatchdogPlan {
    /// Nothing is to be relaunched, so there is nothing to register.
    Absent,
    /// Its script cannot be built: the lock is released, and nothing is scheduled.
    Refused,
    Register(OneShotTask),
}

/// The task that watches an install, under a lock that was taken for it. `run_now`
/// decides whether it starts polling at once or waits for its backstop trigger.
pub fn schedule_watchdog(
    lock: &AttemptLock,
    launch: ScriptLaunch<'_>,
    package: PackageNames<'_>,
    mode: RelaunchMode,
    run_now: bool,
) -> (r: WatchdogPlan)
    ensures
        match r {
            WatchdogPlan::Absent => mode == RelaunchMode::Nothing,
            WatchdogPlan::Refused => mode != RelaunchMode::Nothing && !can_schedule(
                lock,
                launch,
                package,
                mode,
            ),
            WatchdogPlan::Register(task) => {
                &&& mode != RelaunchMode::Nothing
                &&& task.name@ == lock.owner@
                &&& task.delay_minutes == if run_now {
                    None
                } else {
                    Some(WATCHDOG_DELAY_MINUTES)
                }
                &&& is_task_script(task.script@, lock, None, launch, package, mode)
            },
        },
{
    if mode == RelaunchMode::Nothing {
        return WatchdogPlan::Absent;
    }
    match build_script_for_task(
        lock.owner.as_str(),
        ScriptLaunch { lead: None, powershell: launch.powershell, schtasks: launch.schtasks },
        package.family,
        package.identity,
        package.previous,
        mode,
        Some(lock),
    ) {
        None => WatchdogPlan::Refused,
        Some(script) => WatchdogPlan::Register(
            OneShotTask {
                name: lock.owner.clone(),
                script,
                delay_minutes: if run_now {
                    None
                } else {
                    Some(WATCHDOG_DELAY_MINUTES)
                },
            },
        ),
    }
}

/// The script of a task that owns its lock.
pub open spec fn is_task_script(
    script: Seq<char>,
    lock: &AttemptLock,
    lead: Option<Seq<char>>,
    launch: ScriptLaunch<'_>,
    package: PackageNames<'_>,
    mode: RelaunchMode,
) -> bool {
    can_schedule(lock, launch, package, mode) && script == task_script_text(
        lock.owner@,
        lead,
        text_in(launch.powershell),
        launch.schtasks->Some_0@,
        if mode == RelaunchMode::Nothing {
            None
        } else {
            Some(watchdog_text(package.family@, package.identity@, package.previous@, mode, true))
        },
        Some(*lock),
    )
}

pub open spec fn can_schedule(
    lock: &AttemptLock,
    launch: ScriptLaunch<'_>,
    package: PackageNames<'_>,
    mode: RelaunchMode,
) -> bool {
    can_build(
        lock.owner@,
        text_in(launch.powershell),
        text_in(launch.schtasks),
        package.family@,
        package.identity@,
        package.previous@,
        mode,
    )
}

/// The task that runs a command and then watches, under a lock that was taken for
/// it. It always starts at once: the command it leads with is the install.
pub fn schedule_apply(
    lock: &AttemptLock,
    command: &str,
    launch: ScriptLaunch<'_>,
    package: PackageNames<'_>,
    mode: RelaunchMode,
) -> (r: Option<OneShotTask>)
    ensures
        match r {
            Some(task) => {
                &&& task.name@ == lock.owner@
                &&& task.delay_minutes is None
                &&& is_task_script(task.script@, lock, Some(command@), launch, package, mode)
            },
            None => !can_schedule(lock, launch, package, mode),
        },
{
    match build_script_for_task(
        lock.owner.as_str(),
        ScriptLaunch {
            lead: Some(command),
            powershell: launch.powershell,
            schtasks: launch.schtasks,
        },
        package.family,
        package.identity,
        package.previous,
        mode,
        Some(lock),
    ) {
        None => None,
        Some(script) => Some(
            OneShotTask { name: lock.owner.clone(), script, delay_minutes: None },
        ),
    }
}

/// A registered watchdog: its task and its lock, where there are any.
#[derive(Debug, Clone, PartialEq, Eq)]
pub struct Watchdog {
    pub name: Option<String>,
    pub lock: Option<AttemptLock>,
}

impl Watchdog {
    /// The watchdog where nothing is to be relaunched: an absent task is the
    /// correct end state.
    pub fn absent() -> (r: Self)
        ensures
            r.name is None,
            r.lock is None,
    {
        Watchdog { name: None, lock: None }
    }

    /// What cancelling does: the task to delete, and the lock to release.
    pub fn cancel(self) -> (r: (Option<String>, Option<AttemptLock>))
        ensures
            r.0 == self.name,
            r.1 == self.lock,
    {
        (self.name, self.lock)
    }
}

// ---------------------------------------------------------------------------
// Laws
// ---------------------------------------------------------------------------

/// A character that may stand in the PowerShell text of a batch line.
pub open spec fn is_plain_char(c: char) -> bool {
    c != '%' && c != '"' && c != '<' && c != '>' && c != '&' && c != '|' && c != '^' && c != '\r'
        && c != '\n'
}

/// Whether a text may stand in a batch line.
pub open spec fn is_batch_safe(text: Seq<char>) -> bool {
    forall|i: int| 0 <= i < text.len() ==> is_plain_char(#[trigger] text[i])
}

spec fn first_plain(text: Seq<char>, n: nat) -> bool
    decreases n,
{
    n == 0 || (is_plain_char(text[n - 1]) && first_plain(text, (n - 1) as nat))
}

proof fn lemma_first_plain(text: Seq<char>, n: nat)
    requires
        first_plain(text, n),
    ensures
        forall|i: int| 0 <= i < n ==> is_plain_char(#[trigger] text[i]),
    decreases n,
{
    if n > 0 {
        lemma_first_plain(text, (n - 1) as nat);
    }
}

proof fn lemma_batch_safe_concat(a: Seq<char>, b: Seq<char>)
    requires
        is_batch_safe(a),
        is_batch_safe(b),
    ensures
        is_batch_safe(a + b),
{
    let s = a + b;
    assert forall|i: int| 0 <= i < s.len() implies is_plain_char(#[trigger] s[i]) by {
        if i < a.len() {
            assert(is_plain_char(a[i]));
        } else {
            assert(is_plain_char(b[i - a.len()]));
        }
    }
}

proof fn lemma_safe_literal(text: Seq<char>)
    requires
        is_safe_literal(text),
    ensures
        is_batch_safe(text),
{
    assert forall|i: int| 0 <= i < text.len() implies is_plain_char(#[trigger] text[i]) by {
        assert(is_literal_char(text[i]));
    }
}

proof fn lemma_piece_0_safe()
    ensures
        is_batch_safe("if (-not (Get-Process -Name fswbroker -ErrorAction SilentlyContinue)) { "@),
{
    reveal_strlit("if (-not (Get-Process -Name fswbroker -ErrorAction SilentlyContinue)) { ");
    reveal_with_fuel(first_plain, 73);
    let text = "if (-not (Get-Process -Name fswbroker -ErrorAction SilentlyContinue)) { "@;
    assert(text.len() == 72);
    assert(first_plain(text, 72));
    lemma_first_plain(text, 72);
}

proof fn lemma_piece_1_safe()
    ensures
        is_batch_safe("Start-Process -FilePath (Join-Path $env:LOCALAPPDATA "@),
{
    reveal_strlit("Start-Process -FilePath (Join-Path $env:LOCALAPPDATA ");
    reveal_with_fuel(first_plain, 54);
    let text = "Start-Process -FilePath (Join-Path $env:LOCALAPPDATA "@;
    assert(text.len() == 53);
    assert(first_plain(text, 53));
    lemma_first_plain(text, 53);
}

proof fn lemma_piece_2_safe()
    ensures
        is_batch_safe("'Microsoft\\WindowsApps\\fwdslash.exe') -ArgumentList 'start' -WindowStyle Hidden }"@),
{
    reveal_strlit("'Microsoft\\WindowsApps\\fwdslash.exe') -ArgumentList 'start' -WindowStyle Hidden }");
    reveal_with_fuel(first_plain, 82);
    let text = "'Microsoft\\WindowsApps\\fwdslash.exe') -ArgumentList 'start' -WindowStyle Hidden }"@;
    assert(text.len() == 81);
    assert(first_plain(text, 81));
    lemma_first_plain(text, 81);
}

proof fn lemma_piece_3_safe()
    ensures
        is_batch_safe("Start-Process -FilePath 'shell:AppsFolder\\"@),
{
    reveal_strlit("Start-Process -FilePath 'shell:AppsFolder\\");
    reveal_with_fuel(first_plain, 43);
    let text = "Start-Process -FilePath 'shell:AppsFolder\\"@;
    assert(text.len() == 42);
    assert(first_plain(text, 42));
    lemma_first_plain(text, 42);
}

proof fn lemma_piece_4_safe()
    ensures
        is_batch_safe("!App'"@),
{
    reveal_strlit("!App'");
    reveal_with_fuel(first_plain, 6);
    let text = "!App'"@;
    assert(text.len() == 5);
    assert(first_plain(text, 5));
    lemma_first_plain(text, 5);
}

proof fn lemma_piece_5_safe()
    ensures
        is_batch_safe("$deadline = (Get-Date).AddMinutes(45); $previous = [version]'"@),
{
    reveal_strlit("$deadline = (Get-Date).AddMinutes(45); $previous = [version]'");
    reveal_with_fuel(first_plain, 62);
    let text = "$deadline = (Get-Date).AddMinutes(45); $previous = [version]'"@;
    assert(text.len() == 61);
    assert(first_plain(text, 61));
    lemma_first_plain(text, 61);
}

proof fn lemma_piece_6_safe()
    ensures
        is_batch_safe("'; $ready = $false; while ((Get-Date) -lt $deadline) { "@),
{
    reveal_strlit("'; $ready = $false; while ((Get-Date) -lt $deadline) { ");
    reveal_with_fuel(first_plain, 56);
    let text = "'; $ready = $false; while ((Get-Date) -lt $deadline) { "@;
    assert(text.len() == 55);
    assert(first_plain(text, 55));
    lemma_first_plain(text, 55);
}

proof fn lemma_piece_7_safe()
    ensures
        is_batch_safe("foreach ($package in Get-AppxPackage -Name '"@),
{
    reveal_strlit("foreach ($package in Get-AppxPackage -Name '");
    reveal_with_fuel(first_plain, 45);
    let text = "foreach ($package in Get-AppxPackage -Name '"@;
    assert(text.len() == 44);
    assert(first_plain(text, 44));
    lemma_first_plain(text, 44);
}

proof fn lemma_piece_8_safe()
    ensures
        is_batch_safe("') { if ($package.PackageFamilyName -eq '"@),
{
    reveal_strlit("') { if ($package.PackageFamilyName -eq '");
    reveal_with_fuel(first_plain, 42);
    let text = "') { if ($package.PackageFamilyName -eq '"@;
    assert(text.len() == 41);
    assert(first_plain(text, 41));
    lemma_first_plain(text, 41);
}

proof fn lemma_piece_9_safe()
    ensures
        is_batch_safe("' -and [version]$package.Version -gt $previous) { $ready = $true } }; "@),
{
    reveal_strlit("' -and [version]$package.Version -gt $previous) { $ready = $true } }; ");
    reveal_with_fuel(first_plain, 71);
    let text = "' -and [version]$package.Version -gt $previous) { $ready = $true } }; "@;
    assert(text.len() == 70);
    assert(first_plain(text, 70));
    lemma_first_plain(text, 70);
}

proof fn lemma_piece_10_safe()
    ensures
        is_batch_safe("if ($ready) { break }; Start-Sleep -Seconds 5 }; "@),
{
    reveal_strlit("if ($ready) { break }; Start-Sleep -Seconds 5 }; ");
    reveal_with_fuel(first_plain, 50);
    let text = "if ($ready) { break }; Start-Sleep -Seconds 5 }; "@;
    assert(text.len() == 49);
    assert(first_plain(text, 49));
    lemma_first_plain(text, 49);
}

proof fn lemma_piece_11_safe()
    ensures
        is_batch_safe("$result = Join-Path $env:LOCALAPPDATA 'ForwardSlashWindows\\update\\"@),
{
    reveal_strlit("$result = Join-Path $env:LOCALAPPDATA 'ForwardSlashWindows\\update\\");
    reveal_with_fuel(first_plain, 67);
    let text = "$result = Join-Path $env:LOCALAPPDATA 'ForwardSlashWindows\\update\\"@;
    assert(text.len() == 66);
    assert(first_plain(text, 66));
    lemma_first_plain(text, 66);
}

proof fn lemma_piece_12_safe()
    ensures
        is_batch_safe("last-result.txt"@),
{
    reveal_strlit("last-result.txt");
    reveal_with_fuel(first_plain, 16);
    let text = "last-result.txt"@;
    assert(text.len() == 15);
    assert(first_plain(text, 15));
    lemma_first_plain(text, 15);
}

proof fn lemma_piece_13_safe()
    ensures
        is_batch_safe("'; if (-not (Test-Path -LiteralPath $result)) { "@),
{
    reveal_strlit("'; if (-not (Test-Path -LiteralPath $result)) { ");
    reveal_with_fuel(first_plain, 49);
    let text = "'; if (-not (Test-Path -LiteralPath $result)) { "@;
    assert(text.len() == 48);
    assert(first_plain(text, 48));
    lemma_first_plain(text, 48);
}

proof fn lemma_piece_14_safe()
    ensures
        is_batch_safe("$null = New-Item -ItemType Directory -Force -Path (Split-Path $result); "@),
{
    reveal_strlit("$null = New-Item -ItemType Directory -Force -Path (Split-Path $result); ");
    reveal_with_fuel(first_plain, 73);
    let text = "$null = New-Item -ItemType Directory -Force -Path (Split-Path $result); "@;
    assert(text.len() == 72);
    assert(first_plain(text, 72));
    lemma_first_plain(text, 72);
}

proof fn lemma_piece_15_safe()
    ensures
        is_batch_safe("Set-Content -LiteralPath $result -Value 'error:0x800705B4' -NoNewline }"@),
{
    reveal_strlit("Set-Content -LiteralPath $result -Value 'error:0x800705B4' -NoNewline }");
    reveal_with_fuel(first_plain, 72);
    let text = "Set-Content -LiteralPath $result -Value 'error:0x800705B4' -NoNewline }"@;
    assert(text.len() == 71);
    assert(first_plain(text, 71));
    lemma_first_plain(text, 71);
}

proof fn lemma_broker_relaunch_safe()
    ensures
        is_batch_safe(broker_relaunch()),
{
    lemma_piece_0_safe();
    lemma_piece_1_safe();
    lemma_batch_safe_concat("if (-not (Get-Process -Name fswbroker -ErrorAction SilentlyContinue)) { "@, "Start-Process -FilePath (Join-Path $env:LOCALAPPDATA "@);
    lemma_piece_2_safe();
    lemma_batch_safe_concat("if (-not (Get-Process -Name fswbroker -ErrorAction SilentlyContinue)) { "@ + "Start-Process -FilePath (Join-Path $env:LOCALAPPDATA "@, "'Microsoft\\WindowsApps\\fwdslash.exe') -ArgumentList 'start' -WindowStyle Hidden }"@);
}

proof fn lemma_app_relaunch_safe(family: Seq<char>)
    requires
        is_safe_literal(family),
    ensures
        is_batch_safe(app_relaunch(family)),
{
    lemma_piece_3_safe();
    lemma_safe_literal(family);
    lemma_batch_safe_concat("Start-Process -FilePath 'shell:AppsFolder\\"@, family);
    lemma_piece_4_safe();
    lemma_batch_safe_concat("Start-Process -FilePath 'shell:AppsFolder\\"@ + family, "!App'"@);
}

proof fn lemma_wait_safe(family: Seq<char>, identity: Seq<char>, previous: Seq<char>)
    requires
        are_safe(family, identity, previous),
    ensures
        is_batch_safe(wait_text(family, identity, previous)),
{
    lemma_piece_5_safe();
    lemma_safe_literal(previous);
    lemma_batch_safe_concat("$deadline = (Get-Date).AddMinutes(45); $previous = [version]'"@, previous);
    lemma_piece_6_safe();
    lemma_batch_safe_concat("$deadline = (Get-Date).AddMinutes(45); $previous = [version]'"@ + previous, "'; $ready = $false; while ((Get-Date) -lt $deadline) { "@);
    lemma_piece_7_safe();
    lemma_batch_safe_concat("$deadline = (Get-Date).AddMinutes(45); $previous = [version]'"@ + previous + "'; $ready = $false; while ((Get-Date) -lt $deadline) { "@, "foreach ($package in Get-AppxPackage -Name '"@);
    lemma_safe_literal(identity);
    lemma_batch_safe_concat("$deadline = (Get-Date).AddMinutes(45); $previous = [version]'"@ + previous + "'; $ready = $false; while ((Get-Date) -lt $deadline) { "@ + "foreach ($package in Get-AppxPackage -Name '"@, identity);
    lemma_piece_8_safe();
    lemma_batch_safe_concat("$deadline = (Get-Date).AddMinutes(45); $previous = [version]'"@ + previous + "'; $ready = $false; while ((Get-Date) -lt $deadline) { "@ + "foreach ($package in Get-AppxPackage -Name '"@ + identity, "') { if ($package.PackageFamilyName -eq '"@);
    lemma_safe_literal(family);
    lemma_batch_safe_concat("$deadline = (Get-Date).AddMinutes(45); $previous = [version]'"@ + previous + "'; $ready = $false; while ((Get-Date) -lt $deadline) { "@ + "foreach ($package in Get-AppxPackage -Name '"@ + identity + "') { if ($package.PackageFamilyName -eq '"@, family);
    lemma_piece_9_safe();
    lemma_batch_safe_concat("$deadline = (Get-Date).AddMinutes(45); $previous = [version]'"@ + previous + "'; $ready = $false; while ((Get-Date) -lt $deadline) { "@ + "foreach ($package in Get-AppxPackage -Name '"@ + identity + "') { if ($package.PackageFamilyName -eq '"@ + family, "' -and [version]$package.Version -gt $previous) { $ready = $true } }; "@);
    lemma_piece_10_safe();
    lemma_batch_safe_concat("$deadline = (Get-Date).AddMinutes(45); $previous = [version]'"@ + previous + "'; $ready = $false; while ((Get-Date) -lt $deadline) { "@ + "foreach ($package in Get-AppxPackage -Name '"@ + identity + "') { if ($package.PackageFamilyName -eq '"@ + family + "' -and [version]$package.Version -gt $previous) { $ready = $true } }; "@, "if ($ready) { break }; Start-Sleep -Seconds 5 }; "@);
}

proof fn lemma_timeout_safe()
    ensures
        is_batch_safe(timeout_text()),
{
    lemma_piece_11_safe();
    lemma_piece_12_safe();
    lemma_batch_safe_concat("$result = Join-Path $env:LOCALAPPDATA 'ForwardSlashWindows\\update\\"@, "last-result.txt"@);
    lemma_piece_13_safe();
    lemma_batch_safe_concat("$result = Join-Path $env:LOCALAPPDATA 'ForwardSlashWindows\\update\\"@ + "last-result.txt"@, "'; if (-not (Test-Path -LiteralPath $result)) { "@);
    lemma_piece_14_safe();
    lemma_batch_safe_concat("$result = Join-Path $env:LOCALAPPDATA 'ForwardSlashWindows\\update\\"@ + "last-result.txt"@ + "'; if (-not (Test-Path -LiteralPath $result)) { "@, "$null = New-Item -ItemType Directory -Force -Path (Split-Path $result); "@);
    lemma_piece_15_safe();
    lemma_batch_safe_concat("$result = Join-Path $env:LOCALAPPDATA 'ForwardSlashWindows\\update\\"@ + "last-result.txt"@ + "'; if (-not (Test-Path -LiteralPath $result)) { "@ + "$null = New-Item -ItemType Directory -Force -Path (Split-Path $result); "@, "Set-Content -LiteralPath $result -Value 'error:0x800705B4' -NoNewline }"@);
}

/// The PowerShell text never holds a character that a batch file would interpret:
/// no `%`, no quote, no redirection or chaining operator, and no line break.
pub proof fn law_watchdog_text_is_batch_safe(
    family: Seq<char>,
    identity: Seq<char>,
    previous: Seq<char>,
    mode: RelaunchMode,
    restore: bool,
)
    requires
        are_safe(family, identity, previous),
    ensures
        is_batch_safe(watchdog_text(family, identity, previous, mode, restore)),
{
    reveal_with_fuel(first_plain, 20);
    lemma_wait_safe(family, identity, previous);
    lemma_app_relaunch_safe(family);
    lemma_broker_relaunch_safe();
    lemma_timeout_safe();
    let wait = wait_text(family, identity, previous);
    let relaunch = relaunch_text(family, mode);
    let timeout = timeout_text();
    reveal_strlit("if ($ready) { ");
    let p0 = "if ($ready) { "@;
    assert(first_plain(p0, p0.len()));
    lemma_first_plain(p0, p0.len());
    reveal_strlit(" } else { ");
    let p1 = " } else { "@;
    assert(first_plain(p1, p1.len()));
    lemma_first_plain(p1, p1.len());
    reveal_strlit("; ");
    let p2 = "; "@;
    assert(first_plain(p2, p2.len()));
    lemma_first_plain(p2, p2.len());
    reveal_strlit(" }");
    let p3 = " }"@;
    assert(first_plain(p3, p3.len()));
    lemma_first_plain(p3, p3.len());
    lemma_batch_safe_concat(p2, broker_relaunch());
    let tail = if restore {
        p2 + broker_relaunch()
    } else {
        Seq::empty()
    };
    lemma_batch_safe_concat(wait, p0);
    lemma_batch_safe_concat(wait + p0, relaunch);
    lemma_batch_safe_concat(wait + p0 + relaunch, p1);
    lemma_batch_safe_concat(wait + p0 + relaunch + p1, timeout);
    lemma_batch_safe_concat(wait + p0 + relaunch + p1 + timeout, tail);
    lemma_batch_safe_concat(wait + p0 + relaunch + p1 + timeout + tail, p3);
}

/// An attempt never releases another attempt's lock, and a lock that is fresh and
/// whose task is still registered is never taken away.
pub proof fn law_live_locks_are_honoured(age: u128, holder: Seq<char>, stale_after: u128)
    requires
        age <= stale_after,
    ensures
        !is_reclaimable(Some(age), Some(holder), true, stale_after),
        !is_reclaimable(Some(age), None, false, stale_after),
        is_reclaimable(Some(age), Some(holder), false, stale_after),
{
}

spec fn first_unbroken(text: Seq<char>, n: nat) -> bool
    decreases n,
{
    n == 0 || (text[n - 1] != '\n' && first_unbroken(text, (n - 1) as nat))
}

proof fn lemma_first_unbroken(text: Seq<char>, n: nat)
    requires
        first_unbroken(text, n),
        n == text.len(),
    ensures
        !text.contains('\n'),
{
    assert forall|i: int| 0 <= i < n implies text[i] != '\n' by {
        lemma_unbroken_at(text, n, i);
    }
}

proof fn lemma_unbroken_at(text: Seq<char>, n: nat, i: int)
    requires
        first_unbroken(text, n),
        0 <= i < n,
    ensures
        text[i] != '\n',
    decreases n,
{
    if i < n - 1 {
        lemma_unbroken_at(text, (n - 1) as nat, i);
    }
}

proof fn lemma_unbroken_concat(a: Seq<char>, b: Seq<char>)
    requires
        !a.contains('\n'),
        !b.contains('\n'),
    ensures
        !(a + b).contains('\n'),
{
    let s = a + b;
    assert forall|i: int| 0 <= i < s.len() implies s[i] != '\n' by {
        if i < a.len() {
            assert(a.contains(a[i]));
        } else {
            assert(b.contains(b[i - a.len()]));
        }
    }
}

proof fn lemma_echo_is_unbroken()
    ensures
        !"@echo off"@.contains('\n'),
{
    reveal_strlit("@echo off");
    reveal_with_fuel(first_unbroken, 10);
    assert("@echo off"@.len() == 9);
    assert(first_unbroken("@echo off"@, 9));
    lemma_first_unbroken("@echo off"@, 9);
}

proof fn lemma_program_is_unbroken()
    ensures
        !"powershell.exe"@.contains('\n'),
{
    reveal_strlit("powershell.exe");
    reveal_with_fuel(first_unbroken, 15);
    assert("powershell.exe"@.len() == 14);
    assert(first_unbroken("powershell.exe"@, 14));
    lemma_first_unbroken("powershell.exe"@, 14);
}

proof fn lemma_switches_is_unbroken()
    ensures
        !" -NoProfile -NonInteractive -WindowStyle Hidden -Command "@.contains('\n'),
{
    reveal_strlit(" -NoProfile -NonInteractive -WindowStyle Hidden -Command ");
    reveal_with_fuel(first_unbroken, 58);
    assert(" -NoProfile -NonInteractive -WindowStyle Hidden -Command "@.len() == 57);
    assert(first_unbroken(" -NoProfile -NonInteractive -WindowStyle Hidden -Command "@, 57));
    lemma_first_unbroken(" -NoProfile -NonInteractive -WindowStyle Hidden -Command "@, 57);
}

proof fn lemma_scheduler_is_unbroken()
    ensures
        !"schtasks"@.contains('\n'),
{
    reveal_strlit("schtasks");
    reveal_with_fuel(first_unbroken, 9);
    assert("schtasks"@.len() == 8);
    assert(first_unbroken("schtasks"@, 8));
    lemma_first_unbroken("schtasks"@, 8);
}

proof fn lemma_deletion_is_unbroken()
    ensures
        !" /delete /tn \""@.contains('\n'),
{
    reveal_strlit(" /delete /tn \"");
    reveal_with_fuel(first_unbroken, 15);
    assert(" /delete /tn \""@.len() == 14);
    assert(first_unbroken(" /delete /tn \""@, 14));
    lemma_first_unbroken(" /delete /tn \""@, 14);
}

proof fn lemma_task_is_unbroken()
    ensures
        !"fwdslash-update"@.contains('\n'),
{
    reveal_strlit("fwdslash-update");
    reveal_with_fuel(first_unbroken, 16);
    assert("fwdslash-update"@.len() == 15);
    assert(first_unbroken("fwdslash-update"@, 15));
    lemma_first_unbroken("fwdslash-update"@, 15);
}

proof fn lemma_forced_is_unbroken()
    ensures
        !"\" /f >nul 2>&1"@.contains('\n'),
{
    reveal_strlit("\" /f >nul 2>&1");
    reveal_with_fuel(first_unbroken, 15);
    assert("\" /f >nul 2>&1"@.len() == 14);
    assert(first_unbroken("\" /f >nul 2>&1"@, 14));
    lemma_first_unbroken("\" /f >nul 2>&1"@, 14);
}

proof fn lemma_self_clean_is_unbroken()
    ensures
        !"del /q \"%~f0\""@.contains('\n'),
{
    reveal_strlit("del /q \"%~f0\"");
    reveal_with_fuel(first_unbroken, 14);
    assert("del /q \"%~f0\""@.len() == 13);
    assert(first_unbroken("del /q \"%~f0\""@, 13));
    lemma_first_unbroken("del /q \"%~f0\""@, 13);
}

/// A batch line behind whole lines is one more line.
proof fn lemma_batch_line_adds_a_line(before: Seq<char>, text: Seq<char>)
    requires
        before.len() == 0 || before.last() == '\n',
        !text.contains('\n'),
    ensures
        lines_of(before + batch_line(text)) == lines_of(before).push(text),
        (before + batch_line(text)).last() == '\n',
{
    reveal_strlit("\r\n");
    let none = Seq::<char>::empty();
    let line = text.push('\r');
    let all = before + batch_line(text);
    assert forall|i: int| 0 <= i < line.len() implies line[i] != '\n' by {
        if i < text.len() {
            assert(text.contains(text[i]));
        }
    }
    assert(without_return(line) =~= text);
    assert(!none.contains('\n'));
    assert(!line.contains('\n'));
    lemma_split_concat(before + line, none, '\n');
    assert(all =~= (before + line).push('\n') + none);
    if before.len() == 0 {
        assert(before + line =~= line);
        lemma_split_one(line, '\n');
        lemma_split_one(before, '\n');
        assert(split(all, '\n').drop_last() =~= seq![line]);
        assert(lines_of(all) =~= seq![text]);
        assert(lines_of(before) =~= Seq::<Seq<char>>::empty());
        assert(lines_of(before).push(text) =~= seq![text]);
    } else {
        let front = before.drop_last();
        assert(before =~= front.push('\n') + none);
        lemma_split_concat(front, none, '\n');
        lemma_split_concat(front, line, '\n');
        assert(before + line =~= front.push('\n') + line);
        assert(split(before, '\n').drop_last() =~= split(front, '\n'));
        assert(split(all, '\n').drop_last() =~= split(front, '\n').push(line));
        assert(lines_of(all) =~= lines_of(before).push(text));
    }
}

/// In one script the install always runs before the comeback: the command is the
/// second line, the watchdog, which brings the broker back after a wait that ran
/// out, the third, and then the script removes its task and itself.
pub proof fn law_the_install_runs_before_the_comeback(
    command: Seq<char>,
    family: Seq<char>,
    identity: Seq<char>,
    previous: Seq<char>,
    mode: RelaunchMode,
)
    requires
        mode != RelaunchMode::Nothing,
        are_safe(family, identity, previous),
        !command.contains('\n'),
    ensures
        lines_of(plain_script_text(Some(command), family, identity, previous, mode)) == apply_lines(
            command,
            family,
            identity,
            previous,
            mode,
        ),
{
    let none = Seq::<char>::empty();
    let lines = apply_lines(command, family, identity, previous, mode);
    let watchdog = watchdog_text(family, identity, previous, mode, true);
    law_watchdog_text_is_batch_safe(family, identity, previous, mode, true);
    assert(!watchdog.contains('\n')) by {
        assert forall|i: int| 0 <= i < watchdog.len() implies watchdog[i] != '\n' by {
            assert(is_plain_char(watchdog[i]));
        }
    }
    lemma_echo_is_unbroken();
    lemma_program_is_unbroken();
    lemma_switches_is_unbroken();
    lemma_unbroken_concat(
        "powershell.exe"@,
        " -NoProfile -NonInteractive -WindowStyle Hidden -Command "@,
    );
    lemma_unbroken_concat(
        "powershell.exe"@ + " -NoProfile -NonInteractive -WindowStyle Hidden -Command "@,
        watchdog,
    );
    lemma_scheduler_is_unbroken();
    lemma_deletion_is_unbroken();
    lemma_task_is_unbroken();
    lemma_forced_is_unbroken();
    lemma_unbroken_concat("schtasks"@, " /delete /tn \""@);
    lemma_unbroken_concat("schtasks"@ + " /delete /tn \""@, WATCHDOG_TASK_NAME@);
    lemma_unbroken_concat(
        "schtasks"@ + " /delete /tn \""@ + WATCHDOG_TASK_NAME@,
        "\" /f >nul 2>&1"@,
    );
    lemma_self_clean_is_unbroken();
    let a = batch_line(lines[0]);
    let b = a + batch_line(lines[1]);
    let c = b + batch_line(lines[2]);
    let d = c + batch_line(lines[3]);
    assert(none + a =~= a);
    lemma_split_one(none, '\n');
    assert(lines_of(none) =~= Seq::<Seq<char>>::empty());
    lemma_batch_line_adds_a_line(none, lines[0]);
    lemma_batch_line_adds_a_line(a, lines[1]);
    lemma_batch_line_adds_a_line(b, lines[2]);
    lemma_batch_line_adds_a_line(c, lines[3]);
    lemma_batch_line_adds_a_line(d, lines[4]);
    assert(plain_script_text(Some(command), family, identity, previous, mode) =~= d + batch_line(
        lines[4],
    ));
    assert(lines_of(none).push(lines[0]).push(lines[1]).push(lines[2]).push(lines[3]).push(lines[4])
        =~= lines);
}

}
