//! Garbage collection for what an update attempt leaves behind.
//!
//! The rule is age, not status: a task whose script is older than the scheduler's
//! own limit plus the longest trigger delay cannot still be a live install. A task
//! with no script at all can never run usefully and is removed at once.

use crate::relaunch::{
    is_literal_char, is_safe_literal, is_safe_task_literal, task_name_text, TaskKind,
    WATCHDOG_TASK_NAME,
};
use crate::settings::strings_text;
use crate::text::{
    chars_of, decimal, digit, ends, ends_with, find_char, index_of, is_digit, is_number,
    law_decimal_round_trip, lemma_split_concat, lemma_split_one, lines, lines_of, part,
    same_chars, split, split_chars, string_of, trim, trim_front_of, trim_start_of, trimmed,
};
use vstd::prelude::*;

verus! {

/// Older than this, a task and its files are leftovers, in nanoseconds: seventy
/// minutes.
pub const STALE_AFTER: u128 = 70 * 60 * 1_000_000_000;

/// A task name without one leading backslash.
pub open spec fn bare_task_name(name: Seq<char>) -> Seq<char> {
    if name.len() > 0 && name[0] == '\\' {
        name.skip(1)
    } else {
        name
    }
}

/// The complete grammar of the task names an update attempt generates:
/// `fwdslash-update-<kind>-<process>-<sequence>`.
pub open spec fn is_generated_name(name: Seq<char>) -> bool {
    let parts = split(name, '-');
    &&& is_safe_literal(name)
    &&& parts.len() == 5
    &&& parts[0] == "fwdslash"@
    &&& parts[1] == "update"@
    &&& parts[2] == "watchdog"@ || parts[2] == "apply"@
    &&& is_number(parts[3])
    &&& is_number(parts[4])
}

/// A task of a current or legacy update attempt.
pub open spec fn is_owned(name: Seq<char>) -> bool {
    bare_task_name(name) == WATCHDOG_TASK_NAME@ || is_generated_name(bare_task_name(name))
}

fn is_digits(v: &[char]) -> (r: bool)
    ensures
        r == is_number(v@),
{
    if v.len() == 0 {
        return false;
    }
    for i in 0..v.len()
        invariant
            forall|j: int| 0 <= j < i ==> is_digit(#[trigger] v@[j]),
    {
        if !digit(v[i]) {
            return false;
        }
    }
    true
}

fn is_text(v: &[char], text: &str) -> (r: bool)
    ensures
        r == (v@ == text@),
{
    same_chars(v, chars_of(text).as_slice())
}

/// A scheduler task of a current or legacy update attempt. Matching the complete
/// generated grammar, rather than a broad prefix, keeps the sweep from touching
/// another product's task with a similar name.
#[must_use]
pub fn is_owned_update_task_name(name: &str) -> (r: bool)
    ensures
        r == is_owned(name@),
{
    let chars = chars_of(name);
    let v = chars.as_slice();
    let bare = if v.len() > 0 && v[0] == '\\' {
        part(v, 1, v.len())
    } else {
        v
    };
    assert(bare@ =~= bare_task_name(name@));
    if is_text(bare, WATCHDOG_TASK_NAME) {
        return true;
    }
    if !is_safe_task_literal(string_of(bare).as_str()) {
        return false;
    }
    let parts = split_chars(bare, '-');
    if parts.len() != 5 {
        return false;
    }
    is_text(parts[0].as_slice(), "fwdslash") && is_text(parts[1].as_slice(), "update") && (is_text(
        parts[2].as_slice(),
        "watchdog",
    ) || is_text(parts[2].as_slice(), "apply")) && is_digits(parts[3].as_slice()) && is_digits(
        parts[4].as_slice(),
    )
}

/// The owned task a line of the scheduler's list names: its first field, in quotes,
/// without leading backslashes.
pub open spec fn task_in_line(line: Seq<char>) -> Option<Seq<char>> {
    let text = trimmed(line);
    if text.len() == 0 || text[0] != '"' {
        None
    } else {
        let field = text.skip(1);
        let name = field.take(index_of(field, '"'));
        if is_owned(name) {
            Some(trim_front_of(name, '\\'))
        } else {
            None
        }
    }
}

/// The owned tasks some lines name, in order.
pub open spec fn tasks_in_lines(lines: Seq<Seq<char>>) -> Seq<Seq<char>>
    decreases lines.len(),
{
    if lines.len() == 0 {
        Seq::empty()
    } else {
        let before = tasks_in_lines(lines.drop_last());
        match task_in_line(lines.last()) {
            Some(name) => before.push(name),
            None => before,
        }
    }
}

fn find_task(line: &[char]) -> (r: Option<String>)
    ensures
        crate::text::string_in(r) == task_in_line(line@),
{
    let text = trim(line);
    if text.len() == 0 || text[0] != '"' {
        return None;
    }
    let field = part(text, 1, text.len());
    assert(field@ =~= text@.skip(1));
    let end = find_char(field, '"');
    let name = part(field, 0, end);
    assert(name@ =~= field@.take(end as int));
    if is_owned_update_task_name(string_of(name).as_str()) {
        Some(string_of(trim_start_of(name, '\\')))
    } else {
        None
    }
}

/// The owned tasks in the scheduler's comma-separated list. The first field is
/// locale-independent, and owned names hold no quote, so this small reader is safer
/// than interpreting localized headers or command text.
#[must_use]
pub fn owned_update_task_inventory(csv: &str) -> (r: Vec<String>)
    ensures
        strings_text(r@) == tasks_in_lines(lines_of(csv@)),
{
    let all = lines(chars_of(csv).as_slice());
    let ghost text = lines_of(csv@);
    let mut names: Vec<String> = Vec::new();
    assert(strings_text(names@) =~= tasks_in_lines(text.take(0)));
    for i in 0..all.len()
        invariant
            all@.len() == text.len(),
            forall|j: int| 0 <= j < all@.len() ==> (#[trigger] all@[j])@ == text[j],
            strings_text(names@) == tasks_in_lines(text.take(i as int)),
    {
        proof {
            assert(text.take(i + 1).drop_last() =~= text.take(i as int));
            assert(text.take(i + 1).last() == text[i as int]);
        }
        let ghost before = strings_text(names@);
        if let Some(name) = find_task(all[i].as_slice()) {
            names.push(name);
            assert(strings_text(names@) =~= before.push(name@));
        }
    }
    assert(text.take(all@.len() as int) =~= text);
    names
}

/// Whether a task whose script has this age, in nanoseconds, or no script, is a
/// leftover.
pub open spec fn is_leftover(age: Option<u128>, stale_after: u128) -> bool {
    age is None || age->Some_0 > stale_after
}

#[must_use]
pub fn is_stale(sidecar_age: Option<u128>, stale_after: u128) -> (r: bool)
    ensures
        r == is_leftover(sidecar_age, stale_after),
{
    match sidecar_age {
        Some(age) => age > stale_after,
        None => true,
    }
}

/// What one sweep removed. Diagnostic only; the sweep never fails a verb.
#[derive(Debug, Clone, Copy, PartialEq, Eq, Structural)]
pub struct Collected {
    pub tasks: usize,
    pub files: usize,
    pub lock: bool,
}

impl Default for Collected {
    fn default() -> (r: Self)
        ensures
            r == (Collected { tasks: 0, files: 0, lock: false }),
    {
        Collected { tasks: 0, files: 0, lock: false }
    }
}

/// A file name without the ending of a task's script or definition.
pub open spec fn sidecar_stem(file: Seq<char>) -> Option<Seq<char>> {
    if ends(file, ".cmd"@) || ends(file, ".xml"@) {
        Some(file.take(file.len() - 4))
    } else {
        None
    }
}

/// Whether a file is a script or definition of an owned task.
pub open spec fn is_sidecar(file: Seq<char>) -> bool {
    sidecar_stem(file) is Some && is_owned(sidecar_stem(file)->Some_0)
}

/// Whether a file is a script or definition of an owned task.
pub fn is_owned_sidecar(file: &str) -> (r: bool)
    ensures
        r == is_sidecar(file@),
{
    let chars = chars_of(file);
    let v = chars.as_slice();
    proof {
        reveal_strlit(".cmd");
        reveal_strlit(".xml");
    }
    if !ends_with(v, ".cmd") && !ends_with(v, ".xml") {
        return false;
    }
    let stem = part(v, 0, v.len() - 4);
    assert(stem@ =~= file@.take(file@.len() - 4));
    is_owned_update_task_name(string_of(stem).as_str())
}

/// A name and the age of what it stands for, in nanoseconds.
#[derive(Debug, Clone, PartialEq, Eq)]
pub struct Aged {
    pub name: String,
    pub age: Option<u128>,
}

/// The names of the entries that are old enough.
pub open spec fn old_tasks(tasks: Seq<Aged>, stale_after: u128) -> Seq<Seq<char>>
    decreases tasks.len(),
{
    if tasks.len() == 0 {
        Seq::empty()
    } else {
        let before = old_tasks(tasks.drop_last(), stale_after);
        if is_leftover(tasks.last().age, stale_after) {
            before.push(tasks.last().name@)
        } else {
            before
        }
    }
}

/// The names of the owned files that are old enough.
pub open spec fn old_sidecars(files: Seq<Aged>, stale_after: u128) -> Seq<Seq<char>>
    decreases files.len(),
{
    if files.len() == 0 {
        Seq::empty()
    } else {
        let before = old_sidecars(files.drop_last(), stale_after);
        if is_sidecar(files.last().name@) && is_leftover(files.last().age, stale_after) {
            before.push(files.last().name@)
        } else {
            before
        }
    }
}

/// What a sweep removes: the owned tasks and the owned files that are old enough to
/// be leftovers, each in the order in which they were listed.
pub fn collect(tasks: &[Aged], files: &[Aged]) -> (r: (Vec<String>, Vec<String>))
    ensures
        strings_text(r.0@) == old_tasks(tasks@, STALE_AFTER),
        strings_text(r.1@) == old_sidecars(files@, STALE_AFTER),
{
    let mut stale_tasks: Vec<String> = Vec::new();
    assert(strings_text(stale_tasks@) =~= old_tasks(tasks@.take(0), STALE_AFTER));
    for i in 0..tasks.len()
        invariant
            strings_text(stale_tasks@) == old_tasks(tasks@.take(i as int), STALE_AFTER),
    {
        proof {
            assert(tasks@.take(i + 1).drop_last() =~= tasks@.take(i as int));
            assert(tasks@.take(i + 1).last() == tasks@[i as int]);
        }
        let ghost before = strings_text(stale_tasks@);
        if is_stale(tasks[i].age, STALE_AFTER) {
            let name = tasks[i].name.clone();
            stale_tasks.push(name);
            assert(strings_text(stale_tasks@) =~= before.push(name@));
        }
    }
    assert(tasks@.take(tasks@.len() as int) =~= tasks@);
    let mut stale_files: Vec<String> = Vec::new();
    assert(strings_text(stale_files@) =~= old_sidecars(files@.take(0), STALE_AFTER));
    for i in 0..files.len()
        invariant
            strings_text(stale_files@) == old_sidecars(files@.take(i as int), STALE_AFTER),
    {
        proof {
            assert(files@.take(i + 1).drop_last() =~= files@.take(i as int));
            assert(files@.take(i + 1).last() == files@[i as int]);
        }
        let ghost before = strings_text(stale_files@);
        if is_owned_sidecar(files[i].name.as_str()) && is_stale(files[i].age, STALE_AFTER) {
            let name = files[i].name.clone();
            stale_files.push(name);
            assert(strings_text(stale_files@) =~= before.push(name@));
        }
    }
    assert(files@.take(files@.len() as int) =~= files@);
    (stale_tasks, stale_files)
}

// ---------------------------------------------------------------------------
// Laws
// ---------------------------------------------------------------------------

proof fn lemma_no_hyphen(value: nat)
    ensures
        !decimal(value).contains('-'),
        is_number(decimal(value)),
{
    law_decimal_round_trip(value);
    if decimal(value).contains('-') {
        let j = choose|j: int| 0 <= j < decimal(value).len() && decimal(value)[j] == '-';
        assert(is_digit(decimal(value)[j]));
    }
}

/// Every task name an attempt generates is recognised as owned, and is safe to
/// splice into a script.
pub proof fn law_generated_names_are_owned(kind: TaskKind, process: u32, sequence: u64)
    ensures
        is_owned(task_name_text(kind, process, sequence)),
        is_safe_literal(task_name_text(kind, process, sequence)),
{
    reveal_strlit("fwdslash-update");
    reveal_strlit("fwdslash");
    reveal_strlit("update");
    reveal_strlit("watchdog");
    reveal_strlit("apply");
    let name = task_name_text(kind, process, sequence);
    let a = "fwdslash"@;
    let b = "update"@;
    let c = kind.name_text();
    let d = decimal(process as nat);
    let e = decimal(sequence as nat);
    lemma_no_hyphen(process as nat);
    lemma_no_hyphen(sequence as nat);
    assert(!a.contains('-'));
    assert(!b.contains('-'));
    assert(!c.contains('-'));
    let ab = a.push('-') + b;
    let abc = ab.push('-') + c;
    let abcd = abc.push('-') + d;
    assert(WATCHDOG_TASK_NAME@ =~= ab);
    assert(abcd.push('-') + e =~= name);
    lemma_split_one(a, '-');
    lemma_split_concat(a, b, '-');
    lemma_split_concat(ab, c, '-');
    lemma_split_concat(abc, d, '-');
    lemma_split_concat(abcd, e, '-');
    assert(split(name, '-') =~= seq![a, b, c, d, e]);
    assert forall|i: int| 0 <= i < name.len() implies is_literal_char(#[trigger] name[i]) by {
        if i < ab.len() {
            assert(name[i] == ab[i]);
        } else if i == ab.len() {
        } else if i < abc.len() {
            assert(name[i] == c[i - ab.len() - 1]);
        } else if i == abc.len() {
        } else if i < abcd.len() {
            assert(name[i] == d[i - abc.len() - 1]);
            assert(is_digit(d[i - abc.len() - 1]));
        } else if i == abcd.len() {
        } else {
            assert(name[i] == e[i - abcd.len() - 1]);
            assert(is_digit(e[i - abcd.len() - 1]));
        }
    }
    assert(name[0] == 'f');
}

}
