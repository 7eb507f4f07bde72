//! What holds of the scheduled tasks: their names, their scripts, and which of them
//! are collected.

use crate::gc::{is_owned, is_sidecar, old_sidecars, old_tasks, task_in_line, tasks_in_lines, Aged};
use crate::options::RelaunchMode;
use crate::relaunch::{
    batch_line, broker_relaunch, can_build, delete_task_line, fnv1a, holder_of, is_batch_path,
    is_reclaimable, is_safe_literal, is_task_script, normalized_directory, plain_script_text,
    quoted, release_line, task_name_text, task_script_text, timeout_text, wait_text, watchdog_line,
    watchdog_text, winget_arguments, AttemptLock, PackageNames, ScriptLaunch, TaskKind,
};
use crate::text::{
    begins, decimal, ends, is_white, law_trimming_takes_the_ends, lemma_index_of_is, split,
    trim_back_of, trim_front_of,
};
use vstd::prelude::*;

verus! {

/// Which texts may stand in a script: one or more letters, digits, dots, underscores
/// and hyphens, all of them ASCII.
pub proof fn law_safe_literals(text: Seq<char>)
    ensures
        is_safe_literal(text) == (text.len() > 0 && forall|i: int|
            0 <= i < text.len() ==> {
                ||| 'a' <= #[trigger] text[i] <= 'z'
                ||| 'A' <= text[i] <= 'Z'
                ||| '0' <= text[i] <= '9'
                ||| text[i] == '.' || text[i] == '_' || text[i] == '-'
            }),
{
    if is_safe_literal(text) {
        assert forall|i: int| 0 <= i < text.len() implies {
            ||| 'a' <= #[trigger] text[i] <= 'z'
            ||| 'A' <= text[i] <= 'Z'
            ||| '0' <= text[i] <= '9'
            ||| text[i] == '.' || text[i] == '_' || text[i] == '-'
        } by {
            assert(crate::relaunch::is_literal_char(text[i]));
        }
    }
}

/// Which paths may be quoted in a batch file: those that are not empty and hold no
/// character that the batch language reads.
pub proof fn law_quotable_paths(path: Seq<char>)
    ensures
        is_batch_path(path) == (path.len() > 0 && !(exists|i: int|
            0 <= i < path.len() && {
                ||| #[trigger] path[i] == '"' || path[i] == '%' || path[i] == '&'
                ||| path[i] == '|' || path[i] == '^' || path[i] == '<' || path[i] == '>'
                ||| path[i] == '\r' || path[i] == '\n'
            })),
{
    if path.len() > 0 && !is_batch_path(path) {
        let i = choose|i: int|
            0 <= i < path.len() && crate::relaunch::is_batch_special(#[trigger] path[i]);
        assert(path[i] == path[i]);
    }
}

/// The names of tasks: the product, the kind, the process and the count, each behind
/// a hyphen.
pub proof fn law_task_names(process: u32, sequence: u64)
    ensures
        task_name_text(TaskKind::Watchdog, process, sequence) == "fwdslash-update-watchdog-"@
            + decimal(process as nat) + seq!['-'] + decimal(sequence as nat),
        task_name_text(TaskKind::Apply, process, sequence) == "fwdslash-update-apply-"@ + decimal(
            process as nat,
        ) + seq!['-'] + decimal(sequence as nat),
{
    reveal_strlit("fwdslash-update-watchdog-");
    reveal_strlit("fwdslash-update-apply-");
    reveal_strlit("fwdslash-update");
    reveal_strlit("watchdog");
    reveal_strlit("apply");
    assert(task_name_text(TaskKind::Watchdog, process, sequence) =~= "fwdslash-update-watchdog-"@
        + decimal(process as nat) + seq!['-'] + decimal(sequence as nat));
    assert(task_name_text(TaskKind::Apply, process, sequence) =~= "fwdslash-update-apply-"@
        + decimal(process as nat) + seq!['-'] + decimal(sequence as nat));
}

/// Only this product's tasks are collected: a name that is owned is the product's
/// own, or begins with it, whether or not a backslash stands before it.
pub proof fn law_owned_names_are_this_products(name: Seq<char>)
    requires
        is_owned(name),
    ensures
        ({
            let bare = if name.len() > 0 && name[0] == '\\' {
                name.skip(1)
            } else {
                name
            };
            ||| bare == "fwdslash-update"@
            ||| begins(bare, "fwdslash-update-watchdog-"@)
            ||| begins(bare, "fwdslash-update-apply-"@)
        }),
{
    let bare = crate::gc::bare_task_name(name);
    if bare != "fwdslash-update"@ {
        reveal_strlit("fwdslash-update-watchdog-");
        reveal_strlit("fwdslash-update-apply-");
        reveal_strlit("fwdslash");
        reveal_strlit("update");
        reveal_strlit("watchdog");
        reveal_strlit("apply");
        let parts = split(bare, '-');
        crate::text::law_join_undoes_split(bare, '-');
        let first = seq![parts[0], parts[1], parts[2], parts[3]];
        assert(parts.drop_last() =~= first);
        assert(first.drop_last() =~= seq![parts[0], parts[1], parts[2]]);
        assert(seq![parts[0], parts[1], parts[2]].drop_last() =~= seq![parts[0], parts[1]]);
        assert(seq![parts[0], parts[1]].drop_last() =~= seq![parts[0]]);
        reveal_with_fuel(crate::text::join, 6);
        let front = parts[0].push('-') + parts[1];
        let three = front.push('-') + parts[2];
        let four = three.push('-') + parts[3];
        assert(bare == four.push('-') + parts[4]);
        if parts[2] == "watchdog"@ {
            assert(three.push('-') =~= "fwdslash-update-watchdog-"@);
            assert(bare.subrange(0, 25) =~= "fwdslash-update-watchdog-"@);
        } else {
            assert(three.push('-') =~= "fwdslash-update-apply-"@);
            assert(bare.subrange(0, 22) =~= "fwdslash-update-apply-"@);
        }
    }
}

/// A line of the task list names the task in its first quoted field, whatever stands
/// behind that field; a task of this product is taken from it without its leading
/// backslash, and any other is passed over.
pub proof fn law_listed_tasks_are_read(name: Seq<char>, rest: Seq<char>, back: Seq<char>)
    requires
        !name.contains('"'),
        forall|i: int| 0 <= i < back.len() ==> is_white(#[trigger] back[i]),
        rest.len() == 0 || !is_white(rest.last()),
        name.len() == 0 || name[0] != '\\',
    ensures
        ({
            let line = seq!['"', '\\'] + name + seq!['"'] + rest + back;
            let plain = seq!['"'] + name + seq!['"'] + rest + back;
            &&& is_owned(name) ==> task_in_line(line) == Some(name) && task_in_line(plain) == Some(
                name,
            )
            &&& !is_owned(name) ==> task_in_line(line) is None && task_in_line(plain) is None
        }),
{
    lemma_listed_task(name, name, rest, back);
    let slashed = seq!['\\'] + name;
    assert(!slashed.contains('"')) by {
        if slashed.contains('"') {
            let j = choose|j: int| 0 <= j < slashed.len() && slashed[j] == '"';
            assert(name[j - 1] == '"');
        }
    }
    lemma_listed_task(slashed, name, rest, back);
    assert(seq!['"'] + slashed + seq!['"'] + rest + back =~= seq!['"', '\\'] + name + seq!['"']
        + rest + back);
    assert(slashed.skip(1) =~= name);
    assert(crate::gc::bare_task_name(slashed) == name);
    assert(crate::gc::bare_task_name(name) == name);
    reveal_with_fuel(trim_front_of, 3);
    assert(trim_front_of(slashed, '\\') == name);
    assert(trim_front_of(name, '\\') == name);
}

proof fn lemma_listed_task(field: Seq<char>, name: Seq<char>, rest: Seq<char>, back: Seq<char>)
    requires
        !field.contains('"'),
        forall|i: int| 0 <= i < back.len() ==> is_white(#[trigger] back[i]),
        rest.len() == 0 || !is_white(rest.last()),
    ensures
        task_in_line(seq!['"'] + field + seq!['"'] + rest + back) == if is_owned(field) {
            Some(trim_front_of(field, '\\'))
        } else {
            None
        },
{
    let core = seq!['"'] + field + seq!['"'] + rest;
    let line = core + back;
    let nothing = Seq::<char>::empty();
    assert(core[0] == '"');
    if rest.len() > 0 {
        assert(core.last() == rest.last());
    } else {
        assert(core.last() == '"');
    }
    law_trimming_takes_the_ends(nothing, core, back);
    assert(nothing + core + back =~= line);
    let tail = core.skip(1);
    assert(tail =~= field + seq!['"'] + rest);
    assert forall|j: int| 0 <= j < field.len() implies tail[j] != '"' by {
        assert(tail[j] == field[j]);
        assert(field.contains(field[j]));
    }
    assert(tail[field.len() as int] == '"');
    lemma_index_of_is(tail, '"', field.len() as int);
    assert(tail.take(field.len() as int) =~= field);
}

/// Which leftovers go: one whose age is unknown, and one that is older than the
/// limit; one that is as old as the limit stays. Tasks and files are taken in
/// order, and of the files only this product's.
pub proof fn law_one_more_leftover(entries: Seq<Aged>, entry: Aged, stale_after: u128)
    ensures
        ({
            let old_enough = entry.age is None || entry.age->Some_0 > stale_after;
            &&& old_tasks(Seq::empty(), stale_after) == Seq::<Seq<char>>::empty()
            &&& old_tasks(entries.push(entry), stale_after) == if old_enough {
                old_tasks(entries, stale_after).push(entry.name@)
            } else {
                old_tasks(entries, stale_after)
            }
            &&& old_sidecars(Seq::empty(), stale_after) == Seq::<Seq<char>>::empty()
            &&& old_sidecars(entries.push(entry), stale_after) == if old_enough && is_sidecar(
                entry.name@,
            ) {
                old_sidecars(entries, stale_after).push(entry.name@)
            } else {
                old_sidecars(entries, stale_after)
            }
        }),
{
    assert(entries.push(entry).drop_last() =~= entries);
}

/// Which files beside a task go with it: its script and its description, by name.
pub proof fn law_sidecars_of_a_task(stem: Seq<char>)
    ensures
        is_sidecar(stem + ".cmd"@) == is_owned(stem),
        is_sidecar(stem + ".xml"@) == is_owned(stem),
        (stem.len() == 0 || stem.last() != 'd' && stem.last() != 'l') ==> !is_sidecar(stem),
{
    reveal_strlit(".cmd");
    reveal_strlit(".xml");
    let script = stem + ".cmd"@;
    let described = stem + ".xml"@;
    assert(script.subrange(script.len() - 4, script.len() as int) =~= ".cmd"@);
    assert(script.take(script.len() - 4) =~= stem);
    assert(described.subrange(described.len() - 4, described.len() as int) =~= ".xml"@);
    assert(described.take(described.len() - 4) =~= stem);
    if ends(stem, ".cmd"@) {
        assert(stem.subrange(stem.len() - 4, stem.len() as int)[3] == 'd');
    }
    if ends(stem, ".xml"@) {
        assert(stem.subrange(stem.len() - 4, stem.len() as int)[3] == 'l');
    }
}

/// When a lock may be taken over: where it is older than the limit, and where its
/// holder is known and gone. A lock whose age and holder are both unknown stays.
pub proof fn law_when_a_lock_is_reclaimed(
    age: u128,
    holder: Option<Seq<char>>,
    alive: bool,
    stale_after: u128,
)
    ensures
        age > stale_after ==> is_reclaimable(Some(age), holder, alive, stale_after),
        age <= stale_after && holder is Some ==> is_reclaimable(
            Some(age),
            holder,
            alive,
            stale_after,
        ) == !alive,
        age <= stale_after && holder is None ==> !is_reclaimable(
            Some(age),
            holder,
            alive,
            stale_after,
        ),
        holder is Some ==> is_reclaimable(None, holder, alive, stale_after) == !alive,
        !is_reclaimable(None, None, alive, stale_after),
{
}

/// The holder of a lock is what its file says, without white space around it; an
/// empty file names none.
pub proof fn law_the_holder_is_what_the_file_says(
    front: Seq<char>,
    name: Seq<char>,
    back: Seq<char>,
)
    requires
        forall|i: int| 0 <= i < front.len() ==> is_white(#[trigger] front[i]),
        forall|i: int| 0 <= i < back.len() ==> is_white(#[trigger] back[i]),
        name.len() > 0,
        !is_white(name[0]),
        !is_white(name.last()),
    ensures
        holder_of(Some(front + name + back)) == Some(name),
        holder_of(Some(front)) is None,
        holder_of(None) is None,
{
    law_trimming_takes_the_ends(front, name, back);
}

/// The hash that names a directory's lock: from the 64-bit FNV offset basis, each
/// byte is mixed in and the whole multiplied by the 64-bit FNV prime, modulo 2^64.
pub proof fn law_one_more_hashed_byte(bytes: Seq<u8>, next: u8)
    ensures
        fnv1a(Seq::empty()) == 14695981039346656037,
        fnv1a(bytes.push(next)) as int == ((fnv1a(bytes) ^ (next as u64)) * 1099511628211)
            % 0x1_0000_0000_0000_0000,
{
    assert(bytes.push(next).drop_last() =~= bytes);
}

/// Two spellings of a directory lead to the same lock where they differ in the case
/// of ASCII letters, in the kind of separator, or in separators at the end.
pub proof fn law_spellings_of_a_directory_share_a_lock(directory: Seq<char>, i: int)
    requires
        0 <= i < directory.len(),
    ensures
        normalized_directory(directory.push('\\')) == normalized_directory(directory),
        normalized_directory(directory.push('/')) == normalized_directory(directory),
        directory[i] == '/' ==> normalized_directory(directory.update(i, '\\'))
            == normalized_directory(directory),
        'A' <= directory[i] <= 'Z' ==> normalized_directory(
            directory.update(i, ((directory[i] as u32 + 32) as u32) as char),
        ) == normalized_directory(directory),
{
    let flat = crate::text::replaced(directory, '/', '\\');
    assert(crate::text::replaced(directory.push('\\'), '/', '\\') =~= flat.push('\\'));
    assert(crate::text::replaced(directory.push('/'), '/', '\\') =~= flat.push('\\'));
    assert(flat.push('\\').drop_last() =~= flat);
    if directory[i] == '/' {
        assert(crate::text::replaced(directory.update(i, '\\'), '/', '\\') =~= flat);
    }
    if 'A' <= directory[i] <= 'Z' {
        let small = ((directory[i] as u32 + 32) as u32) as char;
        lemma_small(directory[i]);
        assert('a' <= small <= 'z');
        assert(crate::text::replaced(directory.update(i, small), '/', '\\') =~= flat.update(
            i,
            small,
        ));
        lemma_lowered_alike(flat, i, small);
    }
}

proof fn lemma_small(c: char)
    requires
        'A' <= c <= 'Z',
    ensures
        'a' <= ((c as u32 + 32) as u32) as char <= 'z',
        crate::text::lower(((c as u32 + 32) as u32) as char) == crate::text::lower(c),
{
}

proof fn lemma_lowered_alike(text: Seq<char>, i: int, small: char)
    requires
        0 <= i < text.len(),
        text[i] != '\\',
        small != '\\',
        crate::text::lower(small) == crate::text::lower(text[i]),
    ensures
        trim_back_of(text.update(i, small), '\\').map_values(|c: char| crate::text::lower(c))
            == trim_back_of(text, '\\').map_values(|c: char| crate::text::lower(c)),
    decreases text.len(),
{
    let other = text.update(i, small);
    if text.last() == '\\' {
        assert(i < text.len() - 1);
        assert(other.last() == '\\');
        assert(other.drop_last() =~= text.drop_last().update(i, small));
        lemma_lowered_alike(text.drop_last(), i, small);
    } else {
        assert(other.last() != '\\');
        assert(other.map_values(|c: char| crate::text::lower(c)) =~= text.map_values(
            |c: char| crate::text::lower(c),
        ));
    }
}

/// What the watchdog does, for every package: for at most forty-five minutes, every
/// five seconds, it looks for a version of the package that is newer than the
/// previous one.
pub proof fn law_the_watchdog_waits_for_a_newer_version(
    family: Seq<char>,
    identity: Seq<char>,
    previous: Seq<char>,
    mode: RelaunchMode,
    restore: bool,
)
    ensures
        begins(
            watchdog_text(family, identity, previous, mode, restore),
            "$deadline = (Get-Date).AddMinutes(45); $previous = [version]'"@ + previous
                + "'; $ready = $false; while ((Get-Date) -lt $deadline) { foreach ($package in Get-AppxPackage -Name '"@
                + identity + "') { if ($package.PackageFamilyName -eq '"@ + family
                + "' -and [version]$package.Version -gt $previous) { $ready = $true } }; if ($ready) { break }; Start-Sleep -Seconds 5 }; if ($ready) { "@,
        ),
{
    lemma_wait_pieces();
    let a = "$deadline = (Get-Date).AddMinutes(45); $previous = [version]'"@;
    let b1 = "'; $ready = $false; while ((Get-Date) -lt $deadline) { "@;
    let b2 = "foreach ($package in Get-AppxPackage -Name '"@;
    let c = "') { if ($package.PackageFamilyName -eq '"@;
    let d1 = "' -and [version]$package.Version -gt $previous) { $ready = $true } }; "@;
    let d2 = "if ($ready) { break }; Start-Sleep -Seconds 5 }; "@;
    let d3 = "if ($ready) { "@;
    let front = wait_text(family, identity, previous) + d3;
    let expected = a + previous + (b1 + b2) + identity + c + family + (d1 + d2 + d3);
    assert(front =~= expected);
    let text = watchdog_text(family, identity, previous, mode, restore);
    assert(text.subrange(0, front.len() as int) =~= front);
}

proof fn lemma_wait_pieces()
    ensures
        "'; $ready = $false; while ((Get-Date) -lt $deadline) { foreach ($package in Get-AppxPackage -Name '"@
            == "'; $ready = $false; while ((Get-Date) -lt $deadline) { "@
            + "foreach ($package in Get-AppxPackage -Name '"@,
        "' -and [version]$package.Version -gt $previous) { $ready = $true } }; if ($ready) { break }; Start-Sleep -Seconds 5 }; if ($ready) { "@
            == "' -and [version]$package.Version -gt $previous) { $ready = $true } }; "@
            + "if ($ready) { break }; Start-Sleep -Seconds 5 }; "@ + "if ($ready) { "@,
{
    reveal_strlit(
        "'; $ready = $false; while ((Get-Date) -lt $deadline) { foreach ($package in Get-AppxPackage -Name '",
    );
    reveal_strlit("'; $ready = $false; while ((Get-Date) -lt $deadline) { ");
    reveal_strlit("foreach ($package in Get-AppxPackage -Name '");
    reveal_strlit(
        "' -and [version]$package.Version -gt $previous) { $ready = $true } }; if ($ready) { break }; Start-Sleep -Seconds 5 }; if ($ready) { ",
    );
    reveal_strlit("' -and [version]$package.Version -gt $previous) { $ready = $true } }; ");
    reveal_strlit("if ($ready) { break }; Start-Sleep -Seconds 5 }; ");
    reveal_strlit("if ($ready) { ");
    assert("'; $ready = $false; while ((Get-Date) -lt $deadline) { foreach ($package in Get-AppxPackage -Name '"@
        =~= "'; $ready = $false; while ((Get-Date) -lt $deadline) { "@
        + "foreach ($package in Get-AppxPackage -Name '"@);
    assert("' -and [version]$package.Version -gt $previous) { $ready = $true } }; if ($ready) { break }; Start-Sleep -Seconds 5 }; if ($ready) { "@
        =~= "' -and [version]$package.Version -gt $previous) { $ready = $true } }; "@
        + "if ($ready) { break }; Start-Sleep -Seconds 5 }; "@ + "if ($ready) { "@);
}

/// What the watchdog does at the end: once the new version is there, it brings the
/// app of that package back, or the broker, as asked; after a wait in vain it leaves
/// a result behind, and brings the broker back where that is asked.
pub proof fn law_the_watchdog_brings_back_what_was_asked(
    family: Seq<char>,
    identity: Seq<char>,
    previous: Seq<char>,
)
    ensures
        ({
            let wait = wait_text(family, identity, previous) + "if ($ready) { "@;
            let app = "Start-Process -FilePath 'shell:AppsFolder\\"@ + family + "!App'"@;
            let vain = " } else { "@ + timeout_text();
            &&& watchdog_text(family, identity, previous, RelaunchMode::App, false) == wait + app
                + vain + " }"@
            &&& watchdog_text(family, identity, previous, RelaunchMode::App, true) == wait + app
                + vain + "; "@ + broker_relaunch() + " }"@
            &&& watchdog_text(family, identity, previous, RelaunchMode::Broker, false) == wait
                + broker_relaunch() + vain + " }"@
            &&& watchdog_text(family, identity, previous, RelaunchMode::Broker, true) == wait
                + broker_relaunch() + vain + "; "@ + broker_relaunch() + " }"@
        }),
{
    let wait = wait_text(family, identity, previous) + "if ($ready) { "@;
    let app = "Start-Process -FilePath 'shell:AppsFolder\\"@ + family + "!App'"@;
    let vain = " } else { "@ + timeout_text();
    assert(watchdog_text(family, identity, previous, RelaunchMode::App, false) =~= wait + app + vain
        + " }"@);
    assert(watchdog_text(family, identity, previous, RelaunchMode::App, true) =~= wait + app + vain
        + "; "@ + broker_relaunch() + " }"@);
    assert(watchdog_text(family, identity, previous, RelaunchMode::Broker, false) =~= wait
        + broker_relaunch() + vain + " }"@);
    assert(watchdog_text(family, identity, previous, RelaunchMode::Broker, true) =~= wait
        + broker_relaunch() + vain + "; "@ + broker_relaunch() + " }"@);
}

/// What the two fixed commands of the watchdog are.
#[verifier::rlimit(40)]
pub proof fn law_the_watchdogs_fixed_commands()
    ensures
        broker_relaunch()
            == "if (-not (Get-Process -Name fswbroker -ErrorAction SilentlyContinue)) { Start-Process -FilePath (Join-Path $env:LOCALAPPDATA 'Microsoft\\WindowsApps\\fwdslash.exe') -ArgumentList 'start' -WindowStyle Hidden }"@,
        timeout_text()
            == "$result = Join-Path $env:LOCALAPPDATA 'ForwardSlashWindows\\update\\last-result.txt'; if (-not (Test-Path -LiteralPath $result)) { $null = New-Item -ItemType Directory -Force -Path (Split-Path $result); Set-Content -LiteralPath $result -Value 'error:0x800705B4' -NoNewline }"@,
{
    reveal_strlit(
        "if (-not (Get-Process -Name fswbroker -ErrorAction SilentlyContinue)) { Start-Process -FilePath (Join-Path $env:LOCALAPPDATA 'Microsoft\\WindowsApps\\fwdslash.exe') -ArgumentList 'start' -WindowStyle Hidden }",
    );
    reveal_strlit("if (-not (Get-Process -Name fswbroker -ErrorAction SilentlyContinue)) { ");
    reveal_strlit("Start-Process -FilePath (Join-Path $env:LOCALAPPDATA ");
    reveal_strlit(
        "'Microsoft\\WindowsApps\\fwdslash.exe') -ArgumentList 'start' -WindowStyle Hidden }",
    );
    assert(broker_relaunch()
        =~= "if (-not (Get-Process -Name fswbroker -ErrorAction SilentlyContinue)) { Start-Process -FilePath (Join-Path $env:LOCALAPPDATA 'Microsoft\\WindowsApps\\fwdslash.exe') -ArgumentList 'start' -WindowStyle Hidden }"@);
    reveal_strlit(
        "$result = Join-Path $env:LOCALAPPDATA 'ForwardSlashWindows\\update\\last-result.txt'; if (-not (Test-Path -LiteralPath $result)) { $null = New-Item -ItemType Directory -Force -Path (Split-Path $result); Set-Content -LiteralPath $result -Value 'error:0x800705B4' -NoNewline }",
    );
    reveal_strlit("$result = Join-Path $env:LOCALAPPDATA 'ForwardSlashWindows\\update\\");
    reveal_strlit("last-result.txt");
    reveal_strlit("'; if (-not (Test-Path -LiteralPath $result)) { ");
    reveal_strlit("$null = New-Item -ItemType Directory -Force -Path (Split-Path $result); ");
    reveal_strlit("Set-Content -LiteralPath $result -Value 'error:0x800705B4' -NoNewline }");
    assert(timeout_text()
        =~= "$result = Join-Path $env:LOCALAPPDATA 'ForwardSlashWindows\\update\\last-result.txt'; if (-not (Test-Path -LiteralPath $result)) { $null = New-Item -ItemType Directory -Force -Path (Split-Path $result); Set-Content -LiteralPath $result -Value 'error:0x800705B4' -NoNewline }"@);
}

/// A task's script, line by line: the install where there is one, the watchdog where
/// there is one, then the task itself is removed, the lock is given back where its
/// owner still holds it, and the script's own two files go.
#[verifier::rlimit(40)]
pub proof fn law_the_lines_of_a_task_script(
    task: Seq<char>,
    lead: Seq<char>,
    powershell: Seq<char>,
    schtasks: Seq<char>,
    watchdog: Seq<char>,
    lock: AttemptLock,
)
    ensures
        ({
            let first = "@echo off\r\n"@;
            let run = lead + "\r\n"@;
            let watch = "\""@ + powershell
                + "\" -NoProfile -NonInteractive -WindowStyle Hidden -Command "@ + watchdog
                + "\r\n"@;
            let remove = "\""@ + schtasks + "\" /delete /tn \""@ + task + "\" /f >nul 2>&1\r\n"@;
            let give_back = "findstr /x /c:\""@ + lock.owner@ + "\" \""@ + lock.path@
                + "\" >nul && del /q \""@ + lock.path@ + "\" >nul 2>&1\r\n"@;
            let last = "del /q \"%~dpn0.xml\" >nul 2>&1\r\ndel /q \"%~f0\"\r\n"@;
            &&& task_script_text(
                task,
                Some(lead),
                Some(powershell),
                schtasks,
                Some(watchdog),
                Some(lock),
            ) == first + run + watch + remove + give_back + last
            &&& task_script_text(task, None, Some(powershell), schtasks, Some(watchdog), Some(lock))
                == first + watch + remove + give_back + last
            &&& task_script_text(task, Some(lead), None, schtasks, None, Some(lock)) == first + run
                + remove + give_back + last
            &&& task_script_text(task, None, None, schtasks, None, None) == first + remove + last
        }),
{
    lemma_script_pieces();
    let first = "@echo off\r\n"@;
    let run = lead + "\r\n"@;
    let watch = "\""@ + powershell + "\" -NoProfile -NonInteractive -WindowStyle Hidden -Command "@
        + watchdog + "\r\n"@;
    let remove = "\""@ + schtasks + "\" /delete /tn \""@ + task + "\" /f >nul 2>&1\r\n"@;
    let give_back = "findstr /x /c:\""@ + lock.owner@ + "\" \""@ + lock.path@
        + "\" >nul && del /q \""@ + lock.path@ + "\" >nul 2>&1\r\n"@;
    let last = "del /q \"%~dpn0.xml\" >nul 2>&1\r\ndel /q \"%~f0\"\r\n"@;
    assert(batch_line("@echo off"@) == first);
    assert(watchdog_line(quoted(powershell), watchdog) =~= watch);
    assert(delete_task_line(quoted(schtasks), task) =~= remove);
    assert(release_line(lock) =~= give_back);
    assert(batch_line("del /q \"%~dpn0.xml\" >nul 2>&1"@) + batch_line("del /q \"%~f0\""@)
        =~= last);
    assert(task_script_text(
        task,
        Some(lead),
        Some(powershell),
        schtasks,
        Some(watchdog),
        Some(lock),
    ) =~= first + run + watch + remove + give_back + last);
    assert(task_script_text(task, None, Some(powershell), schtasks, Some(watchdog), Some(lock))
        =~= first + watch + remove + give_back + last);
    assert(task_script_text(task, Some(lead), None, schtasks, None, Some(lock)) =~= first + run
        + remove + give_back + last);
    assert(task_script_text(task, None, None, schtasks, None, None) =~= first + remove + last);
}

proof fn lemma_script_pieces()
    ensures
        "@echo off\r\n"@ == "@echo off"@ + "\r\n"@,
        "\" -NoProfile -NonInteractive -WindowStyle Hidden -Command "@ == "\""@
            + " -NoProfile -NonInteractive -WindowStyle Hidden -Command "@,
        "\" /delete /tn \""@ == "\""@ + " /delete /tn \""@,
        "\" /f >nul 2>&1\r\n"@ == "\" /f >nul 2>&1"@ + "\r\n"@,
        "\" >nul 2>&1\r\n"@ == "\" >nul 2>&1"@ + "\r\n"@,
        "del /q \"%~dpn0.xml\" >nul 2>&1\r\ndel /q \"%~f0\"\r\n"@
            == "del /q \"%~dpn0.xml\" >nul 2>&1"@ + "\r\n"@ + "del /q \"%~f0\""@ + "\r\n"@,
{
    reveal_strlit("@echo off\r\n");
    reveal_strlit("@echo off");
    reveal_strlit("\r\n");
    reveal_strlit("\"");
    reveal_strlit("\" -NoProfile -NonInteractive -WindowStyle Hidden -Command ");
    reveal_strlit(" -NoProfile -NonInteractive -WindowStyle Hidden -Command ");
    reveal_strlit("\" /delete /tn \"");
    reveal_strlit(" /delete /tn \"");
    reveal_strlit("\" /f >nul 2>&1\r\n");
    reveal_strlit("\" /f >nul 2>&1");
    reveal_strlit("\" >nul 2>&1\r\n");
    reveal_strlit("\" >nul 2>&1");
    reveal_strlit("del /q \"%~dpn0.xml\" >nul 2>&1\r\ndel /q \"%~f0\"\r\n");
    reveal_strlit("del /q \"%~dpn0.xml\" >nul 2>&1");
    reveal_strlit("del /q \"%~f0\"");
    assert("@echo off\r\n"@ =~= "@echo off"@ + "\r\n"@);
    assert("\" -NoProfile -NonInteractive -WindowStyle Hidden -Command "@ =~= "\""@
        + " -NoProfile -NonInteractive -WindowStyle Hidden -Command "@);
    assert("\" /delete /tn \""@ =~= "\""@ + " /delete /tn \""@);
    assert("\" /f >nul 2>&1\r\n"@ =~= "\" /f >nul 2>&1"@ + "\r\n"@);
    assert("\" >nul 2>&1\r\n"@ =~= "\" >nul 2>&1"@ + "\r\n"@);
    assert("del /q \"%~dpn0.xml\" >nul 2>&1\r\ndel /q \"%~f0\"\r\n"@
        =~= "del /q \"%~dpn0.xml\" >nul 2>&1"@ + "\r\n"@ + "del /q \"%~f0\""@ + "\r\n"@);
}

/// When a task's script can be built: the task's name, and whatever the watchdog
/// needs, can stand in a script, and the programs can be quoted.
pub proof fn law_when_a_script_can_be_built(
    task: Seq<char>,
    powershell: Option<Seq<char>>,
    schtasks: Option<Seq<char>>,
    family: Seq<char>,
    identity: Seq<char>,
    previous: Seq<char>,
)
    ensures
        can_build(task, powershell, schtasks, family, identity, previous, RelaunchMode::Nothing)
            == (is_safe_literal(task) && schtasks is Some && is_batch_path(schtasks->Some_0)),
        can_build(task, powershell, schtasks, family, identity, previous, RelaunchMode::App)
            == can_build(
            task,
            powershell,
            schtasks,
            family,
            identity,
            previous,
            RelaunchMode::Broker,
        ),
        can_build(task, powershell, schtasks, family, identity, previous, RelaunchMode::App) == (
        is_safe_literal(task) && is_safe_literal(family) && is_safe_literal(identity)
            && is_safe_literal(previous) && powershell is Some && is_batch_path(powershell->Some_0)
            && schtasks is Some && is_batch_path(schtasks->Some_0)),
{
}

/// What winget is asked for: exactly the given product, from the Store's source,
/// without a question.
pub proof fn law_what_winget_is_asked_for(product: Seq<char>)
    ensures
        winget_arguments(product) == " upgrade --id "@ + product
            + " --source msstore --exact --silent --force --accept-package-agreements --accept-source-agreements --disable-interactivity"@,
{
    reveal_strlit(
        " --source msstore --exact --silent --force --accept-package-agreements --accept-source-agreements --disable-interactivity",
    );
    reveal_strlit(" --source msstore --exact --silent --force");
    reveal_strlit(
        " --accept-package-agreements --accept-source-agreements --disable-interactivity",
    );
    assert(" --source msstore --exact --silent --force"@
        + " --accept-package-agreements --accept-source-agreements --disable-interactivity"@
        =~= " --source msstore --exact --silent --force --accept-package-agreements --accept-source-agreements --disable-interactivity"@);
    assert(winget_arguments(product) =~= " upgrade --id "@ + product
        + " --source msstore --exact --silent --force --accept-package-agreements --accept-source-agreements --disable-interactivity"@);
}

/// The task list is read line by line.
pub proof fn law_one_more_listed_task(lines: Seq<Seq<char>>, line: Seq<char>)
    ensures
        tasks_in_lines(Seq::empty()) == Seq::<Seq<char>>::empty(),
        tasks_in_lines(lines.push(line)) == match task_in_line(line) {
            Some(name) => tasks_in_lines(lines).push(name),
            None => tasks_in_lines(lines),
        },
{
    assert(lines.push(line).drop_last() =~= lines);
}

/// The script of a scheduled attempt is built for its own lock: the task is named
/// after the owner, the lock is given back at the end, and a watchdog that waits in
/// vain brings the broker back.
pub proof fn law_the_script_of_an_attempt(
    script: Seq<char>,
    lock: AttemptLock,
    lead: Option<Seq<char>>,
    launch: ScriptLaunch<'_>,
    package: PackageNames<'_>,
    mode: RelaunchMode,
)
    requires
        is_task_script(script, &lock, lead, launch, package, mode),
    ensures
        is_safe_literal(lock.owner@),
        mode != RelaunchMode::Nothing ==> script == task_script_text(
            lock.owner@,
            lead,
            Some(launch.powershell->Some_0@),
            launch.schtasks->Some_0@,
            Some(watchdog_text(package.family@, package.identity@, package.previous@, mode, true)),
            Some(lock),
        ),
        mode == RelaunchMode::Nothing ==> script == task_script_text(
            lock.owner@,
            lead,
            crate::path::text_in(launch.powershell),
            launch.schtasks->Some_0@,
            None,
            Some(lock),
        ),
{
}

/// The stand-alone watchdog script: the watchdog, then its task is removed and the
/// script itself; after a wait in vain the broker comes back where it is the broker
/// that was to come back.
pub proof fn law_the_stand_alone_watchdog(
    family: Seq<char>,
    identity: Seq<char>,
    previous: Seq<char>,
)
    ensures
        ({
            let first = "@echo off\r\n"@;
            let last = "schtasks /delete /tn \"fwdslash-update\" /f >nul 2>&1\r\ndel /q \"%~f0\"\r\n"@;
            let start = "powershell.exe -NoProfile -NonInteractive -WindowStyle Hidden -Command "@;
            &&& plain_script_text(None, family, identity, previous, RelaunchMode::Broker) == first
                + start + watchdog_text(family, identity, previous, RelaunchMode::Broker, true)
                + "\r\n"@ + last
            &&& plain_script_text(None, family, identity, previous, RelaunchMode::App) == first
                + start + watchdog_text(family, identity, previous, RelaunchMode::App, false)
                + "\r\n"@ + last
            &&& plain_script_text(None, family, identity, previous, RelaunchMode::Nothing) == first
                + last
        }),
{
    lemma_plain_pieces();
    let first = "@echo off\r\n"@;
    let last = "schtasks /delete /tn \"fwdslash-update\" /f >nul 2>&1\r\ndel /q \"%~f0\"\r\n"@;
    let start = "powershell.exe -NoProfile -NonInteractive -WindowStyle Hidden -Command "@;
    let end = delete_task_line("schtasks"@, "fwdslash-update"@) + batch_line("del /q \"%~f0\""@);
    assert(end =~= last);
    assert(batch_line("@echo off"@) == first);
    assert(plain_script_text(None, family, identity, previous, RelaunchMode::Broker) =~= first
        + start + watchdog_text(family, identity, previous, RelaunchMode::Broker, true) + "\r\n"@
        + last);
    assert(plain_script_text(None, family, identity, previous, RelaunchMode::App) =~= first + start
        + watchdog_text(family, identity, previous, RelaunchMode::App, false) + "\r\n"@ + last);
    assert(plain_script_text(None, family, identity, previous, RelaunchMode::Nothing) =~= first
        + last);
}

proof fn lemma_plain_pieces()
    ensures
        "@echo off\r\n"@ == "@echo off"@ + "\r\n"@,
        "powershell.exe -NoProfile -NonInteractive -WindowStyle Hidden -Command "@
            == "powershell.exe"@ + " -NoProfile -NonInteractive -WindowStyle Hidden -Command "@,
        "schtasks /delete /tn \"fwdslash-update\" /f >nul 2>&1\r\ndel /q \"%~f0\"\r\n"@
            == "schtasks"@ + " /delete /tn \""@ + "fwdslash-update"@ + "\" /f >nul 2>&1"@ + "\r\n"@
            + "del /q \"%~f0\""@ + "\r\n"@,
{
    lemma_script_pieces();
    reveal_strlit("\r\n");
    reveal_strlit("powershell.exe -NoProfile -NonInteractive -WindowStyle Hidden -Command ");
    reveal_strlit("powershell.exe");
    reveal_strlit(" -NoProfile -NonInteractive -WindowStyle Hidden -Command ");
    reveal_strlit("schtasks /delete /tn \"fwdslash-update\" /f >nul 2>&1\r\ndel /q \"%~f0\"\r\n");
    reveal_strlit("schtasks");
    reveal_strlit(" /delete /tn \"");
    reveal_strlit("fwdslash-update");
    reveal_strlit("\" /f >nul 2>&1");
    reveal_strlit("del /q \"%~f0\"");
    assert("powershell.exe -NoProfile -NonInteractive -WindowStyle Hidden -Command "@
        =~= "powershell.exe"@ + " -NoProfile -NonInteractive -WindowStyle Hidden -Command "@);
    assert("schtasks /delete /tn \"fwdslash-update\" /f >nul 2>&1\r\ndel /q \"%~f0\"\r\n"@
        =~= "schtasks"@ + " /delete /tn \""@ + "fwdslash-update"@ + "\" /f >nul 2>&1"@ + "\r\n"@
        + "del /q \"%~f0\""@ + "\r\n"@);
}

} // verus!
