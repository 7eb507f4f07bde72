//! Bounded Windows PowerShell execution-policy probing. It never changes policy.

use crate::text::{
    chars_of, drop_empty, lines, lines_of, nonempty, same, string_of, texts, trim, trimmed,
};
use vstd::prelude::*;

verus! {

/// The longest a probe may take, in milliseconds.
pub const PROBE_TIMEOUT_MS: u64 = 5000;

/// How much of a probe's output is read, in bytes.
pub const PROBE_OUTPUT_LIMIT: u64 = 512;

/// A parent process launched with a policy override sets this variable. Removing
/// it observes an ordinary fresh user session.
pub const POLICY_OVERRIDE_VARIABLE: &'static str = "PSExecutionPolicyPreference";

#[derive(Debug, Clone, Copy, PartialEq, Eq, Structural)]
pub enum ExecutionPolicy {
    Restricted,
    AllSigned,
    RemoteSigned,
    Unrestricted,
    Bypass,
    Undefined,
}

impl ExecutionPolicy {
    /// The policy's name.
    pub open spec fn name_text(self) -> Seq<char> {
        match self {
            ExecutionPolicy::Restricted => "Restricted"@,
            ExecutionPolicy::AllSigned => "AllSigned"@,
            ExecutionPolicy::RemoteSigned => "RemoteSigned"@,
            ExecutionPolicy::Unrestricted => "Unrestricted"@,
            ExecutionPolicy::Bypass => "Bypass"@,
            ExecutionPolicy::Undefined => "Undefined"@,
        }
    }

    #[must_use]
    pub fn as_str(self) -> (r: &'static str)
        ensures
            r@ == self.name_text(),
    {
        match self {
            ExecutionPolicy::Restricted => "Restricted",
            ExecutionPolicy::AllSigned => "AllSigned",
            ExecutionPolicy::RemoteSigned => "RemoteSigned",
            ExecutionPolicy::Unrestricted => "Unrestricted",
            ExecutionPolicy::Bypass => "Bypass",
            ExecutionPolicy::Undefined => "Undefined",
        }
    }
}

#[derive(Debug, Clone, Copy, PartialEq, Eq, Structural)]
pub enum ProbeError {
    Unavailable,
    Failed,
    TimedOut,
    MalformedOutput,
}

impl ProbeError {
    /// What went wrong.
    pub open spec fn detail_text(self) -> Seq<char> {
        match self {
            ProbeError::Unavailable => {
                "the native Windows PowerShell executable could not be started"@
            },
            ProbeError::Failed => "the native Windows PowerShell probe failed"@,
            ProbeError::TimedOut => "the native Windows PowerShell probe timed out"@,
            ProbeError::MalformedOutput => {
                "the native Windows PowerShell probe returned an unknown policy"@
            },
        }
    }

    /// The sentence shown to the user.
    pub fn message(self) -> (r: String)
        ensures
            r@ == "Could not verify the effective Windows PowerShell execution policy: "@
                + self.detail_text() + "."@,
    {
        let mut text: String =
            "Could not verify the effective Windows PowerShell execution policy: ".to_owned();
        let detail = match self {
            ProbeError::Unavailable => {
                "the native Windows PowerShell executable could not be started"
            },
            ProbeError::Failed => "the native Windows PowerShell probe failed",
            ProbeError::TimedOut => "the native Windows PowerShell probe timed out",
            ProbeError::MalformedOutput => {
                "the native Windows PowerShell probe returned an unknown policy"
            },
        };
        text.push_str(detail);
        text.push_str(".");
        text
    }
}

/// The exact remedy for a user-controlled Restricted policy. Group Policy has
/// higher precedence, so this never promises that the command can override it.
#[must_use]
pub fn restricted_policy_message() -> (r: &'static str)
    ensures
        r@
            == "Windows PowerShell is blocked by the Restricted execution policy. Run `Set-ExecutionPolicy -Scope CurrentUser -ExecutionPolicy RemoteSigned` in Windows PowerShell, then try again. If execution policy is managed by Group Policy, contact your administrator."@,
{
    "Windows PowerShell is blocked by the Restricted execution policy. Run `Set-ExecutionPolicy -Scope CurrentUser -ExecutionPolicy RemoteSigned` in Windows PowerShell, then try again. If execution policy is managed by Group Policy, contact your administrator."
}

/// The lines of a text without surrounding white space, and without empty ones.
pub open spec fn answer_lines(output: Seq<char>) -> Seq<Seq<char>> {
    nonempty(lines_of(output).map_values(|line: Seq<char>| trimmed(line)))
}

/// The policy a probe's output names: exactly one line, which is a policy's name.
pub open spec fn policy_of(output: Seq<char>) -> Option<ExecutionPolicy> {
    let answer = answer_lines(output);
    if answer.len() != 1 {
        None
    } else if answer[0] == "Restricted"@ {
        Some(ExecutionPolicy::Restricted)
    } else if answer[0] == "AllSigned"@ {
        Some(ExecutionPolicy::AllSigned)
    } else if answer[0] == "RemoteSigned"@ {
        Some(ExecutionPolicy::RemoteSigned)
    } else if answer[0] == "Unrestricted"@ {
        Some(ExecutionPolicy::Unrestricted)
    } else if answer[0] == "Bypass"@ {
        Some(ExecutionPolicy::Bypass)
    } else if answer[0] == "Undefined"@ {
        Some(ExecutionPolicy::Undefined)
    } else {
        None
    }
}

/// What a probe's output means.
pub open spec fn policy_result(output: Seq<char>) -> Result<ExecutionPolicy, ProbeError> {
    match policy_of(output) {
        Some(policy) => Ok(policy),
        None => Err(ProbeError::MalformedOutput),
    }
}

pub fn parse_effective_execution_policy(output: &str) -> (r: Result<ExecutionPolicy, ProbeError>)
    ensures
        r == policy_result(output@),
{
    let all = lines(chars_of(output).as_slice());
    let ghost text = lines_of(output@).map_values(|line: Seq<char>| trimmed(line));
    let mut stripped: Vec<Vec<char>> = Vec::new();
    for i in 0..all.len()
        invariant
            all@.len() == text.len(),
            text == lines_of(output@).map_values(|line: Seq<char>| trimmed(line)),
            forall|j: int| 0 <= j < all@.len() ==> (#[trigger] all@[j])@ == lines_of(output@)[j],
            texts(stripped@) == text.take(i as int),
    {
        let ghost before = texts(stripped@);
        let mut line: Vec<char> = Vec::new();
        crate::text::append_chars(&mut line, trim(all[i].as_slice()));
        assert(line@ =~= text[i as int]);
        stripped.push(line);
        assert(texts(stripped@) =~= before.push(line@));
        assert(texts(stripped@) =~= text.take(i + 1));
    }
    assert(text.take(text.len() as int) =~= text);
    let answer = drop_empty(stripped);
    if answer.len() != 1 {
        return Err(ProbeError::MalformedOutput);
    }
    let line = string_of(answer[0].as_slice());
    let name = line.as_str();
    if same(name, "Restricted") {
        Ok(ExecutionPolicy::Restricted)
    } else if same(name, "AllSigned") {
        Ok(ExecutionPolicy::AllSigned)
    } else if same(name, "RemoteSigned") {
        Ok(ExecutionPolicy::RemoteSigned)
    } else if same(name, "Unrestricted") {
        Ok(ExecutionPolicy::Unrestricted)
    } else if same(name, "Bypass") {
        Ok(ExecutionPolicy::Bypass)
    } else if same(name, "Undefined") {
        Ok(ExecutionPolicy::Undefined)
    } else {
        Err(ProbeError::MalformedOutput)
    }
}

/// The arguments of a probe: no profile, no interaction, and no policy override.
pub const PROBE_ARGUMENTS: [&'static str; 4] = [
    "-NoProfile",
    "-NonInteractive",
    "-Command",
    "Get-ExecutionPolicy",
];

/// The Windows PowerShell executable in a system directory.
pub fn native_windows_powershell(system_directory: &str) -> (r: String)
    ensures
        r@ == system_directory@ + "\\WindowsPowerShell\\v1.0\\powershell.exe"@,
{
    let mut path: String = system_directory.to_owned();
    path.push_str("\\WindowsPowerShell\\v1.0\\powershell.exe");
    path
}

/// How a probe went.
#[derive(Debug, Clone, PartialEq, Eq)]
pub enum ProbeRun {
    /// There is no executable, or it would not start.
    NotStarted,
    /// It could not be waited for.
    NotWaited,
    /// It did not end in time and was stopped.
    TimedOut,
    /// It ended: whether it succeeded, and what it printed where that could be
    /// read.
    Ended { success: bool, output: Option<String> },
}

/// What a probe found out.
pub fn probe_windows_powershell(run: &ProbeRun) -> (r: Result<ExecutionPolicy, ProbeError>)
    ensures
        r == match *run {
            ProbeRun::NotStarted => Err::<ExecutionPolicy, ProbeError>(ProbeError::Unavailable),
            ProbeRun::NotWaited => Err::<ExecutionPolicy, ProbeError>(ProbeError::Failed),
            ProbeRun::TimedOut => Err::<ExecutionPolicy, ProbeError>(ProbeError::TimedOut),
            ProbeRun::Ended { success, output } => match output {
                Some(text) => if success {
                    policy_result(text@)
                } else {
                    Err::<ExecutionPolicy, ProbeError>(ProbeError::Failed)
                },
                None => Err::<ExecutionPolicy, ProbeError>(ProbeError::Failed),
            },
        },
{
    match run {
        ProbeRun::NotStarted => Err(ProbeError::Unavailable),
        ProbeRun::NotWaited => Err(ProbeError::Failed),
        ProbeRun::TimedOut => Err(ProbeError::TimedOut),
        ProbeRun::Ended { success, output } => match output {
            Some(text) => if *success {
                parse_effective_execution_policy(text.as_str())
            } else {
                Err(ProbeError::Failed)
            },
            None => Err(ProbeError::Failed),
        },
    }
}

/// A policy's own name, alone on a line, is read as that policy.
pub proof fn law_policy_names_read_back(policy: ExecutionPolicy)
    ensures
        policy_of(policy.name_text()) == Some(policy),
{
    reveal_strlit("Restricted");
    reveal_strlit("AllSigned");
    reveal_strlit("RemoteSigned");
    reveal_strlit("Unrestricted");
    reveal_strlit("Bypass");
    reveal_strlit("Undefined");
    let name = policy.name_text();
    assert(!name.contains('\n')) by {
        assert forall|i: int| 0 <= i < name.len() implies name[i] != '\n' by {}
    }
    crate::text::lemma_split_one(name, '\n');
    let parts = seq![name];
    assert(parts.drop_last() =~= Seq::<Seq<char>>::empty());
    assert(lines_of(name) =~= parts);
    assert(trimmed(name) == name);
    let stripped = lines_of(name).map_values(|line: Seq<char>| trimmed(line));
    assert(stripped =~= parts);
    crate::text::lemma_nonempty_all(parts);
    assert(answer_lines(name) == parts);
    assert("Restricted"@[0] == 'R' && "AllSigned"@[0] == 'A' && "RemoteSigned"@.len() == 12
        && "Restricted"@.len() == 10 && "Unrestricted"@[2] == 'r' && "Bypass"@[0] == 'B'
        && "Undefined"@[2] == 'd');
}

}
