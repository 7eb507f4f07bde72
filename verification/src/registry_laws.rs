//! What holds of the settings between the app and the registry: that what
//! `reg query` prints is read back, and that what is written takes effect.

use crate::path::BareSlashMode;
use crate::settings::{stored_disabled, stored_mode, stored_pin};
use crate::settings_write::{
    attempt_write, auto_update_write, bare_slash_writes, best_split, changes_own_hive,
    disabled_write, first_failure, gap, merged_entries, mirror_writes, offer_write, query_values,
    real_step, reg_argument_texts, reg_number, type_split, value_line, value_named, write_of,
    REG_TYPES, RawText, SettingText, StoredSettings, WriteText,
};
use crate::text::{
    begins, decimal, digit_value, first_occurrence, hex_lower, hex_upper, is_white,
    law_hex_round_trip, law_same_in_any_case, lemma_first_occurrence, lemma_hex_lower,
    lemma_split_concat, lemma_split_one, lines_of, occurs_at, radix_value, split, string_in,
    trim_back, trim_front, trimmed, without_return,
};
use crate::update::auto_update_setting;
use vstd::prelude::*;

verus! {

// ---------------------------------------------------------------------------
// Reading what `reg query` prints
// ---------------------------------------------------------------------------

/// The type tokens: each begins with `REG_`, holds no space, and differs from every
/// other at its fifth character.
proof fn lemma_types()
    ensures
        forall|i: int|
            0 <= i < 7 ==> {
                let kind = (#[trigger] REG_TYPES@[i])@;
                &&& kind.len() >= 6
                &&& kind[0] == 'R' && kind[1] == 'E' && kind[2] == 'G' && kind[3] == '_'
            },
        REG_TYPES@[0]@[4] == 'S',
        REG_TYPES@[1]@[4] == 'D',
        REG_TYPES@[2]@[4] == 'Q',
        REG_TYPES@[3]@[4] == 'E',
        REG_TYPES@[4]@[4] == 'M',
        REG_TYPES@[5]@[4] == 'B',
        REG_TYPES@[6]@[4] == 'N',
{
    reveal_strlit("REG_SZ");
    reveal_strlit("REG_DWORD");
    reveal_strlit("REG_QWORD");
    reveal_strlit("REG_EXPAND_SZ");
    reveal_strlit("REG_MULTI_SZ");
    reveal_strlit("REG_BINARY");
    reveal_strlit("REG_NONE");
    assert forall|i: int| 0 <= i < 7 implies {
        let kind = (#[trigger] REG_TYPES@[i])@;
        &&& kind.len() >= 6
        &&& kind[0] == 'R' && kind[1] == 'E' && kind[2] == 'G' && kind[3] == '_'
    } by {
        assert(i == 0 || i == 1 || i == 2 || i == 3 || i == 4 || i == 5 || i == 6);
    }
}

proof fn lemma_types_differ(i: int, k: int)
    requires
        0 <= i < 7,
        0 <= k < 7,
        i != k,
    ensures
        REG_TYPES@[i]@[4] != REG_TYPES@[k]@[4],
{
    lemma_types();
    assert(i == 0 || i == 1 || i == 2 || i == 3 || i == 4 || i == 5 || i == 6);
    assert(k == 0 || k == 1 || k == 2 || k == 3 || k == 4 || k == 5 || k == 6);
}

/// A name as `reg query` prints it unambiguously.
spec fn is_clear_name(name: Seq<char>) -> bool {
    &&& name.len() > 0
    &&& !is_white(name[0])
    &&& !is_white(name.last())
    &&& name.len() < 4 || name.take(4) != seq!['R', 'E', 'G', '_']
    &&& forall|i: int|
        0 <= i && i + 3 < name.len() ==> !(#[trigger] name[i] == ' ' && name[i + 1] == ' ' && name[i
            + 2] == ' ' && name[i + 3] == ' ')
}

spec fn printed_line(name: Seq<char>, kind: Seq<char>, data: Seq<char>) -> Seq<char> {
    seq![' ', ' ', ' ', ' '] + name + seq![' ', ' ', ' ', ' '] + kind + seq![' ', ' ', ' ', ' ']
        + data
}

/// No type token stands before the one that was printed.
proof fn lemma_no_earlier_type(name: Seq<char>, kind: Seq<char>, data: Seq<char>, other: Seq<char>, j: int)
    requires
        is_clear_name(name),
        other.len() >= 6,
        other[0] == 'R' && other[1] == 'E' && other[2] == 'G' && other[3] == '_',
        0 <= j < 4 + name.len(),
    ensures
        !occurs_at(printed_line(name, kind, data), seq![' ', ' ', ' ', ' '] + other, j),
{
    let line = printed_line(name, kind, data);
    let pattern = seq![' ', ' ', ' ', ' '] + other;
    let n: int = name.len() as int;
    if occurs_at(line, pattern, j) {
        assert forall|i: int| 0 <= i < pattern.len() implies line[j + i] == #[trigger] pattern[i] by {
            assert(line.subrange(j, j + pattern.len())[i] == pattern[i]);
        }
        assert(line[j] == pattern[0] && line[j + 1] == pattern[1] && line[j + 2] == pattern[2]
            && line[j + 3] == pattern[3]);
        assert(line[j] == ' ' && line[j + 1] == ' ' && line[j + 2] == ' ' && line[j + 3] == ' ');
        assert(line[4] == name[0]);
        assert(line[4 + n - 1] == name.last());
        if j == 0 {
            assert(line[4] == pattern[4] && line[5] == pattern[5] && line[6] == pattern[6] && line[7]
                == pattern[7]);
            assert(pattern[4] == 'R' && pattern[5] == 'E' && pattern[6] == 'G' && pattern[7] == '_');
            if n >= 4 {
                assert(line[5] == name[1] && line[6] == name[2] && line[7] == name[3]);
                assert(name.take(4) =~= seq!['R', 'E', 'G', '_']);
            } else {
                assert(line[4 + n] == ' ');
            }
        } else if j < 4 {
            assert(name[0] == ' ');
        } else if j + 3 < 4 + n {
            assert(line[j] == name[j - 4] && line[j + 1] == name[j - 3] && line[j + 2] == name[j - 2]
                && line[j + 3] == name[j - 1]);
            assert(name[j - 4] == ' ');
        } else {
            assert(name.last() == ' ');
        }
    }
}

proof fn lemma_gap()
    ensures
        gap() == seq![' ', ' ', ' ', ' '],
{
    reveal_strlit("    ");
    assert(gap() =~= seq![' ', ' ', ' ', ' ']);
}

/// Where each type token splits a printed line: the printed one at its place, any
/// other behind it or nowhere.
proof fn lemma_type_split(name: Seq<char>, k: int, data: Seq<char>, i: int)
    requires
        is_clear_name(name),
        0 <= k < 7,
        0 <= i < 7,
    ensures
        ({
            let kind = REG_TYPES@[k]@;
            let line = printed_line(name, kind, data);
            let split_at = type_split(line, REG_TYPES@[i]@);
            let p: int = 4 + name.len() as int;
            if i == k {
                split_at == Some((p, 8 + kind.len() as int))
            } else {
                split_at is None || split_at->Some_0.0 > p
            }
        }),
{
    lemma_types();
    lemma_gap();
    let kind = REG_TYPES@[k]@;
    let other = REG_TYPES@[i]@;
    let line = printed_line(name, kind, data);
    let p: int = 4 + name.len() as int;
    let blank = seq![' ', ' ', ' ', ' '];
    let bare = blank + other;
    let full = blank + other + blank;
    assert(gap() + other + gap() == full);
    assert(gap() + other == bare);
    assert forall|j: int| 0 <= j < p implies !occurs_at(line, bare, j) by {
        lemma_no_earlier_type(name, kind, data, other, j);
    }
    assert forall|j: int| !occurs_at(line, bare, j) implies !occurs_at(line, full, j) by {
        if occurs_at(line, full, j) {
            assert(line.subrange(j, j + bare.len()) =~= line.subrange(j, j + full.len()).subrange(
                0,
                bare.len() as int,
            ));
            assert(full.subrange(0, bare.len() as int) =~= bare);
        }
    }
    lemma_first_occurrence(line, full, 0);
    lemma_first_occurrence(line, bare, 0);
    if i == k {
        assert(line.subrange(p, p + full.len()) =~= full);
        assert(occurs_at(line, full, p));
        assert(first_occurrence(line, full) == Some(p));
    } else {
        lemma_types_differ(i, k);
        assert(!occurs_at(line, bare, p)) by {
            if occurs_at(line, bare, p) {
                assert(line.subrange(p, p + bare.len())[8] == bare[8]);
                assert(line[p + 8] == kind[4]);
                assert(bare[8] == other[4]);
            }
        }
    }
}

proof fn lemma_best_split(name: Seq<char>, k: int, data: Seq<char>, n: nat)
    requires
        is_clear_name(name),
        0 <= k < 7,
        n <= 7,
    ensures
        ({
            let kind = REG_TYPES@[k]@;
            let best = best_split(printed_line(name, kind, data), n);
            let p: int = 4 + name.len() as int;
            if n <= k {
                best is None || best->Some_0.1 > p
            } else {
                best == Some((k, p, 8 + kind.len() as int))
            }
        }),
    decreases n,
{
    if n > 0 {
        lemma_best_split(name, k, data, (n - 1) as nat);
        lemma_type_split(name, k, data, n - 1);
    }
}

proof fn lemma_trim_indent(name: Seq<char>)
    requires
        name.len() > 0,
        !is_white(name[0]),
        !is_white(name.last()),
    ensures
        trimmed(seq![' ', ' ', ' ', ' '] + name) == name,
{
    let line = seq![' ', ' ', ' ', ' '] + name;
    assert(line.skip(1).skip(1).skip(1).skip(1) =~= name);
    reveal_with_fuel(trim_front, 6);
    assert(trim_front(line) == name);
    assert(trim_back(name) == name);
}

/// A line that `reg query` prints for a value, the indented name, the type and the
/// data with four spaces between them, is read as exactly that name, type and data,
/// whatever the data is. The name begins and ends with something that is no white
/// space, holds no four spaces in a row, and does not begin with `REG_`.
pub proof fn law_printed_values_read_back(name: Seq<char>, k: int, data: Seq<char>)
    requires
        name.len() > 0,
        !is_white(name[0]),
        !is_white(name.last()),
        name.len() < 4 || name.take(4) != seq!['R', 'E', 'G', '_'],
        forall|i: int|
            0 <= i && i + 3 < name.len() ==> !(#[trigger] name[i] == ' ' && name[i + 1] == ' '
                && name[i + 2] == ' ' && name[i + 3] == ' '),
        0 <= k < 7,
    ensures
        ({
            let kinds = seq![
                "REG_SZ"@,
                "REG_DWORD"@,
                "REG_QWORD"@,
                "REG_EXPAND_SZ"@,
                "REG_MULTI_SZ"@,
                "REG_BINARY"@,
                "REG_NONE"@,
            ];
            value_line(
                seq![' ', ' ', ' ', ' '] + name + seq![' ', ' ', ' ', ' '] + kinds[k] + seq![
                    ' ',
                    ' ',
                    ' ',
                    ' ',
                ] + data,
            ) == Some((name, RawText { kind: kinds[k], data }))
        }),
{
    let kind = REG_TYPES@[k]@;
    let line = printed_line(name, kind, data);
    let p: int = 4 + name.len() as int;
    assert(is_clear_name(name));
    lemma_best_split(name, k, data, 7);
    assert(line.take(p) =~= seq![' ', ' ', ' ', ' '] + name);
    lemma_trim_indent(name);
    assert(line.skip(p + 8 + kind.len()) =~= data);
    assert(k == 0 || k == 1 || k == 2 || k == 3 || k == 4 || k == 5 || k == 6);
    let kinds = seq![
        "REG_SZ"@,
        "REG_DWORD"@,
        "REG_QWORD"@,
        "REG_EXPAND_SZ"@,
        "REG_MULTI_SZ"@,
        "REG_BINARY"@,
        "REG_NONE"@,
    ];
    assert(kinds[k] == kind);
}

/// The type tokens hold no space.
proof fn lemma_types_hold_no_space(k: int)
    requires
        0 <= k < 7,
    ensures
        forall|j: int| 0 <= j < REG_TYPES@[k]@.len() ==> #[trigger] REG_TYPES@[k]@[j] != ' ',
{
    reveal_strlit("REG_SZ");
    reveal_strlit("REG_DWORD");
    reveal_strlit("REG_QWORD");
    reveal_strlit("REG_EXPAND_SZ");
    reveal_strlit("REG_MULTI_SZ");
    reveal_strlit("REG_BINARY");
    reveal_strlit("REG_NONE");
    assert(k == 0 || k == 1 || k == 2 || k == 3 || k == 4 || k == 5 || k == 6);
}

spec fn bare_line(name: Seq<char>, kind: Seq<char>) -> Seq<char> {
    seq![' ', ' ', ' ', ' '] + name + seq![' ', ' ', ' ', ' '] + kind
}

/// In a line without data a type token stands at its own place only.
proof fn lemma_bare_places(name: Seq<char>, k: int, i: int, j: int)
    requires
        is_clear_name(name),
        0 <= k < 7,
        0 <= i < 7,
        0 <= j,
        j != 4 + name.len() || i != k,
    ensures
        !occurs_at(
            bare_line(name, REG_TYPES@[k]@),
            seq![' ', ' ', ' ', ' '] + REG_TYPES@[i]@,
            j,
        ),
{
    lemma_types();
    lemma_types_hold_no_space(k);
    let kind = REG_TYPES@[k]@;
    let other = REG_TYPES@[i]@;
    let line = bare_line(name, kind);
    let pattern = seq![' ', ' ', ' ', ' '] + other;
    let p: int = 4 + name.len() as int;
    if occurs_at(line, pattern, j) {
        assert(line.subrange(j, j + pattern.len())[0] == ' ');
        assert(line.subrange(j, j + pattern.len())[1] == ' ');
        assert(line.subrange(j, j + pattern.len())[2] == ' ');
        assert(line.subrange(j, j + pattern.len())[3] == ' ');
        assert(line.subrange(j, j + pattern.len())[8] == other[4]);
        if j < p {
            let longer = printed_line(name, kind, Seq::empty());
            lemma_no_earlier_type(name, kind, Seq::empty(), other, j);
            assert(longer.subrange(j, j + pattern.len()) =~= line.subrange(j, j + pattern.len()));
        } else if j == p {
            lemma_types_differ(i, k);
            assert(line[p + 8] == kind[4]);
        } else if j < p + 4 {
            assert(line[p + 4] == kind[0]);
            assert(line.subrange(j, j + pattern.len())[p + 4 - j] == line[p + 4]);
        } else {
            assert(line[j] == kind[j - p - 4]);
        }
    }
}

proof fn lemma_bare_split(name: Seq<char>, k: int, i: int)
    requires
        is_clear_name(name),
        0 <= k < 7,
        0 <= i < 7,
    ensures
        ({
            let kind = REG_TYPES@[k]@;
            let split_at = type_split(bare_line(name, kind), REG_TYPES@[i]@);
            if i == k {
                split_at == Some((4 + name.len() as int, 4 + kind.len() as int))
            } else {
                split_at is None
            }
        }),
{
    lemma_types();
    lemma_gap();
    let kind = REG_TYPES@[k]@;
    let other = REG_TYPES@[i]@;
    let line = bare_line(name, kind);
    let p: int = 4 + name.len() as int;
    let blank = seq![' ', ' ', ' ', ' '];
    let bare = blank + other;
    let full = blank + other + blank;
    assert(gap() + other + gap() == full);
    assert(gap() + other == bare);
    assert forall|j: int| 0 <= j implies !occurs_at(line, full, j) by {
        if occurs_at(line, full, j) {
            assert(line.subrange(j, j + bare.len()) =~= line.subrange(j, j + full.len()).subrange(
                0,
                bare.len() as int,
            ));
            assert(full.subrange(0, bare.len() as int) =~= bare);
            assert(occurs_at(line, bare, j));
            if j != p || i != k {
                lemma_bare_places(name, k, i, j);
            }
        }
    }
    assert forall|j: int| 0 <= j && (j != p || i != k) implies !occurs_at(line, bare, j) by {
        lemma_bare_places(name, k, i, j);
    }
    lemma_first_occurrence(line, full, 0);
    lemma_first_occurrence(line, bare, 0);
    if i == k {
        assert(line.subrange(p, p + bare.len()) =~= bare);
        assert(occurs_at(line, bare, p));
        assert(line.skip(p + bare.len()) =~= Seq::<char>::empty());
        assert(trimmed(Seq::<char>::empty()) =~= Seq::<char>::empty());
    }
}

proof fn lemma_bare_best(name: Seq<char>, k: int, n: nat)
    requires
        is_clear_name(name),
        0 <= k < 7,
        n <= 7,
    ensures
        ({
            let kind = REG_TYPES@[k]@;
            best_split(bare_line(name, kind), n) == if n <= k {
                None
            } else {
                Some((k, 4 + name.len() as int, 4 + kind.len() as int))
            }
        }),
    decreases n,
{
    if n > 0 {
        lemma_bare_best(name, k, (n - 1) as nat);
        lemma_bare_split(name, k, n - 1);
    }
}

/// A value whose data is empty, for which nothing is printed behind the type, is
/// read with empty data.
pub proof fn law_empty_values_read_back(name: Seq<char>, k: int)
    requires
        name.len() > 0,
        !is_white(name[0]),
        !is_white(name.last()),
        name.len() < 4 || name.take(4) != seq!['R', 'E', 'G', '_'],
        forall|i: int|
            0 <= i && i + 3 < name.len() ==> !(#[trigger] name[i] == ' ' && name[i + 1] == ' '
                && name[i + 2] == ' ' && name[i + 3] == ' '),
        0 <= k < 7,
    ensures
        ({
            let kinds = seq![
                "REG_SZ"@,
                "REG_DWORD"@,
                "REG_QWORD"@,
                "REG_EXPAND_SZ"@,
                "REG_MULTI_SZ"@,
                "REG_BINARY"@,
                "REG_NONE"@,
            ];
            value_line(
                seq![' ', ' ', ' ', ' '] + name + seq![' ', ' ', ' ', ' '] + kinds[k],
            ) == Some((name, RawText { kind: kinds[k], data: Seq::empty() }))
        }),
{
    let kind = REG_TYPES@[k]@;
    let line = bare_line(name, kind);
    let p: int = 4 + name.len() as int;
    assert(is_clear_name(name));
    lemma_bare_best(name, k, 7);
    assert(line.take(p) =~= seq![' ', ' ', ' ', ' '] + name);
    lemma_trim_indent(name);
    assert(line.skip(p + 4 + kind.len()) =~= Seq::<char>::empty());
    assert(k == 0 || k == 1 || k == 2 || k == 3 || k == 4 || k == 5 || k == 6);
    let kinds = seq![
        "REG_SZ"@,
        "REG_DWORD"@,
        "REG_QWORD"@,
        "REG_EXPAND_SZ"@,
        "REG_MULTI_SZ"@,
        "REG_BINARY"@,
        "REG_NONE"@,
    ];
    assert(kinds[k] == kind);
}

/// What is printed is read line by line: one more line, ended by a line feed with or
/// without a carriage return before it, adds the value it spells where it spells
/// one, and changes nothing of the values before it.
pub proof fn law_one_more_printed_line(output: Seq<char>, line: Seq<char>)
    requires
        output.len() == 0 || output.last() == '\n',
        !line.contains('\n'),
        line.len() == 0 || line.last() != '\r',
    ensures
        query_values(Seq::empty()) == Seq::<(Seq<char>, RawText)>::empty(),
        query_values(output + line + seq!['\r', '\n']) == match value_line(line) {
            Some(value) => query_values(output).push(value),
            None => query_values(output),
        },
        query_values(output + line + seq!['\n']) == match value_line(line) {
            Some(value) => query_values(output).push(value),
            None => query_values(output),
        },
{
    lemma_one_more_line(output, line, seq!['\r']);
    lemma_one_more_line(output, line, Seq::empty());
    assert(output + line + seq!['\r'] + seq!['\n'] =~= output + line + seq!['\r', '\n']);
    assert(output + line + Seq::<char>::empty() + seq!['\n'] =~= output + line + seq!['\n']);
    let before = lines_of(output);
    assert(before.push(line).drop_last() =~= before);
    let nothing = Seq::<char>::empty();
    lemma_split_one(nothing, '\n');
    assert(lines_of(nothing) =~= Seq::<Seq<char>>::empty());
}

proof fn lemma_one_more_line(output: Seq<char>, line: Seq<char>, end: Seq<char>)
    requires
        output.len() == 0 || output.last() == '\n',
        !line.contains('\n'),
        line.len() == 0 || line.last() != '\r',
        end == seq!['\r'] || end == Seq::<char>::empty(),
    ensures
        lines_of(output + line + end + seq!['\n']) == lines_of(output).push(line),
{
    let nothing = Seq::<char>::empty();
    let full = line + end;
    let all = output + line + end + seq!['\n'];
    assert(!full.contains('\n')) by {
        if full.contains('\n') {
            let j = choose|j: int| 0 <= j < full.len() && full[j] == '\n';
            if j < line.len() {
                assert(line[j] == '\n');
            } else {
                assert(end[j - line.len()] == '\n');
            }
        }
    }
    assert(!nothing.contains('\n'));
    assert(without_return(full) =~= line) by {
        if end.len() > 0 {
            assert(full.last() == '\r');
            assert(full.drop_last() =~= line);
        } else {
            assert(full =~= line);
        }
    }
    if output.len() == 0 {
        assert(all =~= full.push('\n') + nothing);
        lemma_split_one(full, '\n');
        lemma_split_concat(full, nothing, '\n');
        lemma_split_one(nothing, '\n');
        assert(output =~= nothing);
        assert(split(all, '\n').drop_last() =~= seq![full]);
        assert(lines_of(output) =~= Seq::<Seq<char>>::empty());
        assert(lines_of(all) =~= seq![line]);
        assert(lines_of(all) =~= lines_of(output).push(line));
    } else {
        let body = output.drop_last();
        let first = body.push('\n') + full;
        assert(output =~= body.push('\n') + nothing);
        assert(all =~= first.push('\n') + nothing);
        lemma_split_concat(body, nothing, '\n');
        lemma_split_concat(body, full, '\n');
        lemma_split_concat(first, nothing, '\n');
        let parts = split(body, '\n');
        assert(split(output, '\n').drop_last() =~= parts);
        assert(split(all, '\n').drop_last() =~= parts.push(full));
        assert(lines_of(all) =~= lines_of(output).push(line));
    }
}

/// A number as the registry tools write it is read back: in decimal as it is
/// written here, and in hexadecimal behind `0x` as it is printed, in either case.
pub proof fn law_registry_numbers_read_back(value: nat, width: nat)
    requires
        value <= u64::MAX,
        width > 0,
        value < vstd::arithmetic::power::pow(16, width),
    ensures
        reg_number(decimal(value)) == Some(value),
        reg_number("0x"@ + hex_lower(value, width)) == Some(value),
        reg_number("0x"@ + hex_upper(value, width)) == Some(value),
        reg_number(Seq::empty()) is None,
        reg_number("0x"@) is None,
{
    reveal_strlit("0x");
    reveal_strlit("0X");
    crate::settings_write::law_written_values_match(SettingText::Qword(value as u64));
    law_hex_round_trip(value, width);
    lemma_hex_lower(value, width);
    let low = hex_lower(value, width);
    let high = hex_upper(value, width);
    assert forall|i: int| 0 <= i < width implies digit_value(#[trigger] low[i]) < 16 && !is_white(
        low[i],
    ) && low[i] != '+' by {}
    assert forall|i: int| 0 <= i < width implies digit_value(#[trigger] high[i]) < 16 && !is_white(
        high[i],
    ) && high[i] != '+' by {
        assert(high[i] == crate::text::upper(low[i]));
        assert(crate::text::is_hex(low[i]));
    }
    lemma_hex_number(low, value);
    lemma_hex_number(high, value);
    let nothing = Seq::<char>::empty();
    assert(trimmed(nothing) =~= nothing);
    assert(trimmed("0x"@) == "0x"@);
    assert("0x"@.skip(2) =~= nothing);
    assert("0x"@.subrange(0, 2) =~= "0x"@);
}

proof fn lemma_hex_number(digits: Seq<char>, value: nat)
    requires
        digits.len() > 0,
        forall|i: int|
            0 <= i < digits.len() ==> digit_value(#[trigger] digits[i]) < 16 && !is_white(digits[i])
                && digits[i] != '+',
        radix_value(digits, 16) == value,
        value <= u64::MAX,
    ensures
        reg_number("0x"@ + digits) == Some(value),
{
    reveal_strlit("0x");
    let text = "0x"@ + digits;
    assert(text[0] == '0');
    assert(text.last() == digits[digits.len() - 1]);
    assert(trimmed(text) == text);
    assert(text.subrange(0, 2) =~= "0x"@);
    assert(text.skip(2) =~= digits);
    assert(digits[0] != '+');
}

/// A value is found under its name, whatever the case of its letters; the first of
/// that name wins, and any other name is passed over.
pub proof fn law_the_first_value_of_a_name_is_found(
    values: Seq<(Seq<char>, RawText)>,
    name: Seq<char>,
    raw: RawText,
    wanted: Seq<char>,
)
    ensures
        value_named(Seq::empty(), wanted) is None,
        value_named(seq![(name, raw)] + values, wanted) == if name.len() == wanted.len() && forall|
            i: int,
        |
            0 <= i < name.len() ==> {
                ||| #[trigger] name[i] == wanted[i]
                ||| 'a' <= name[i] <= 'z' && name[i] as u32 == wanted[i] as u32 + 32
                ||| 'A' <= name[i] <= 'Z' && name[i] as u32 + 32 == wanted[i] as u32
            } {
            Some(raw)
        } else {
            value_named(values, wanted)
        },
{
    let all = seq![(name, raw)] + values;
    assert(all[0] == (name, raw));
    assert(all.skip(1) =~= values);
    law_same_in_any_case(name, wanted);
}

// ---------------------------------------------------------------------------
// Mirroring
// ---------------------------------------------------------------------------

/// What is mirrored: each entry whose name the real hive does not hold, or holds
/// with another type or another value, in order; an entry that the hive holds as it
/// is is left alone.
pub proof fn law_one_more_entry_is_mirrored(
    merged: Seq<(Seq<char>, SettingText)>,
    name: Seq<char>,
    value: SettingText,
    actual: Seq<(Seq<char>, RawText)>,
)
    ensures
        mirror_writes(Seq::empty(), actual) == Seq::<WriteText>::empty(),
        mirror_writes(merged.push((name, value)), actual) == ({
            let held = value_named(actual, name);
            let same = held is Some && match value {
                SettingText::Dword(data) => held->Some_0.kind == "REG_DWORD"@ && reg_number(
                    held->Some_0.data,
                ) == Some(data as nat),
                SettingText::Qword(data) => held->Some_0.kind == "REG_QWORD"@ && reg_number(
                    held->Some_0.data,
                ) == Some(data as nat),
                SettingText::Sz(text) => held->Some_0.kind == "REG_SZ"@ && held->Some_0.data == text,
            };
            if same {
                mirror_writes(merged, actual)
            } else {
                mirror_writes(merged, actual).push(WriteText { name, value: Some(value) })
            }
        }),
{
    assert(merged.push((name, value)).drop_last() =~= merged);
}

/// The entries that are mirrored are exactly the settings that are stored: a number
/// whenever it is there, a text unless it is empty, each under its own name.
pub proof fn law_merged_entries_are_what_is_stored(
    stored: StoredSettings,
    name: Seq<char>,
    value: SettingText,
)
    ensures
        merged_entries(stored).contains((name, value)) <==> ({
            ||| name == "Disabled"@ && stored.disabled is Some && value == SettingText::Dword(
                stored.disabled->Some_0,
            )
            ||| name == "BareSlashMode"@ && stored.bare_slash_mode is Some && value
                == SettingText::Dword(stored.bare_slash_mode->Some_0)
            ||| name == "AutoUpdate"@ && stored.auto_update is Some && value == SettingText::Dword(
                stored.auto_update->Some_0,
            )
            ||| name == "LastUpdateCheck"@ && stored.last_update_check is Some && value
                == SettingText::Qword(stored.last_update_check->Some_0)
            ||| name == "BareSlashDistribution"@ && stored.bare_slash_distribution is Some
                && stored.bare_slash_distribution->Some_0@.len() > 0 && value == SettingText::Sz(
                stored.bare_slash_distribution->Some_0@,
            )
            ||| name == "BareSlashRoot"@ && stored.bare_slash_root is Some
                && stored.bare_slash_root->Some_0@.len() > 0 && value == SettingText::Sz(
                stored.bare_slash_root->Some_0@,
            )
            ||| name == "AvailableUpdate"@ && stored.available_update is Some
                && stored.available_update->Some_0@.len() > 0 && value == SettingText::Sz(
                stored.available_update->Some_0@,
            )
        }),
{
    let e = (name, value);
    let a = crate::settings_write::dword_entry("Disabled"@, stored.disabled);
    let b = crate::settings_write::dword_entry("BareSlashMode"@, stored.bare_slash_mode);
    let c = crate::settings_write::dword_entry("AutoUpdate"@, stored.auto_update);
    let d = crate::settings_write::qword_entry("LastUpdateCheck"@, stored.last_update_check);
    let f = crate::settings_write::text_entry(
        "BareSlashDistribution"@,
        stored.bare_slash_distribution,
    );
    let g = crate::settings_write::text_entry("BareSlashRoot"@, stored.bare_slash_root);
    let h = crate::settings_write::text_entry("AvailableUpdate"@, stored.available_update);
    lemma_in_either(a, b, e);
    lemma_in_either(a + b, c, e);
    lemma_in_either(a + b + c, d, e);
    lemma_in_either(a + b + c + d, f, e);
    lemma_in_either(a + b + c + d + f, g, e);
    lemma_in_either(a + b + c + d + f + g, h, e);
    lemma_in_one(a, e);
    lemma_in_one(b, e);
    lemma_in_one(c, e);
    lemma_in_one(d, e);
    lemma_in_one(f, e);
    lemma_in_one(g, e);
    lemma_in_one(h, e);
}

proof fn lemma_in_either(
    a: Seq<(Seq<char>, SettingText)>,
    b: Seq<(Seq<char>, SettingText)>,
    e: (Seq<char>, SettingText),
)
    ensures
        (a + b).contains(e) == (a.contains(e) || b.contains(e)),
{
    if a.contains(e) {
        let j = choose|j: int| 0 <= j < a.len() && a[j] == e;
        assert((a + b)[j] == e);
    }
    if b.contains(e) {
        let j = choose|j: int| 0 <= j < b.len() && b[j] == e;
        assert((a + b)[a.len() + j] == e);
    }
    if (a + b).contains(e) {
        let j = choose|j: int| 0 <= j < (a + b).len() && (a + b)[j] == e;
        if j < a.len() {
            assert(a[j] == e);
        } else {
            assert(b[j - a.len()] == e);
        }
    }
}

proof fn lemma_in_one(a: Seq<(Seq<char>, SettingText)>, e: (Seq<char>, SettingText))
    requires
        a.len() <= 1,
    ensures
        a.contains(e) == (a.len() == 1 && a[0] == e),
{
}

// ---------------------------------------------------------------------------
// Writing
// ---------------------------------------------------------------------------

/// What a hive holds after some writes: each sets its value or takes it away.
pub open spec fn hive_after(
    hive: Map<Seq<char>, SettingText>,
    writes: Seq<WriteText>,
) -> Map<Seq<char>, SettingText>
    decreases writes.len(),
{
    if writes.len() == 0 {
        hive
    } else {
        let before = hive_after(hive, writes.drop_last());
        match writes.last().value {
            Some(value) => before.insert(writes.last().name, value),
            None => before.remove(writes.last().name),
        }
    }
}

/// Saving the bare-slash settings leaves the hive with exactly what was asked for:
/// the mode as a flag, the pin only in default-distribution mode and only where it
/// is not empty, the root only where it is not empty; every other setting stays.
pub proof fn law_saved_bare_slash_settings_take_effect(
    hive: Map<Seq<char>, SettingText>,
    default_mode: bool,
    pin: Seq<char>,
    root: Option<Seq<char>>,
)
    ensures
        ({
            let after = hive_after(hive, bare_slash_writes(default_mode, pin, root));
            &&& after.dom().contains("BareSlashMode"@)
            &&& after["BareSlashMode"@] == SettingText::Dword(
                if default_mode {
                    1
                } else {
                    0
                },
            )
            &&& after.dom().contains("BareSlashDistribution"@) == (default_mode && pin.len() > 0)
            &&& default_mode && pin.len() > 0 ==> after["BareSlashDistribution"@]
                == SettingText::Sz(pin)
            &&& after.dom().contains("BareSlashRoot"@) == (root is Some && root->Some_0.len() > 0)
            &&& root is Some && root->Some_0.len() > 0 ==> after["BareSlashRoot"@]
                == SettingText::Sz(root->Some_0)
            &&& forall|name: Seq<char>|
                name != "BareSlashMode"@ && name != "BareSlashDistribution"@ && name
                    != "BareSlashRoot"@ ==> (#[trigger] after.dom().contains(name)
                    == hive.dom().contains(name)) && (hive.dom().contains(name) ==> after[name]
                    == hive[name])
        }),
{
    reveal_strlit("BareSlashMode");
    reveal_strlit("BareSlashDistribution");
    reveal_strlit("BareSlashRoot");
    assert("BareSlashMode"@ != "BareSlashDistribution"@) by {
        assert("BareSlashMode"@.len() != "BareSlashDistribution"@.len());
    }
    assert("BareSlashRoot"@ != "BareSlashDistribution"@) by {
        assert("BareSlashRoot"@.len() != "BareSlashDistribution"@.len());
    }
    assert("BareSlashRoot"@ != "BareSlashMode"@) by {
        assert("BareSlashRoot"@[9] != "BareSlashMode"@[9]);
    }
    let writes = bare_slash_writes(default_mode, pin, root);
    assert(writes.drop_last() =~= seq![writes[0], writes[1]]);
    assert(writes.drop_last().drop_last() =~= seq![writes[0]]);
    assert(writes.drop_last().drop_last().drop_last() =~= Seq::<WriteText>::empty());
    reveal_with_fuel(hive_after, 4);
}

/// What is saved is what is read: the mode and the pin that were asked for are the
/// mode and the pin that the stored values mean.
pub proof fn law_saved_bare_slash_settings_read_back(
    stored: StoredSettings,
    default_mode: bool,
    pin: Seq<char>,
    root: Option<Seq<char>>,
)
    requires
        ({
            let after = hive_after(Map::empty(), bare_slash_writes(default_mode, pin, root));
            &&& stored.bare_slash_mode is Some && after["BareSlashMode"@] == SettingText::Dword(
                stored.bare_slash_mode->Some_0,
            )
            &&& match string_in(stored.bare_slash_distribution) {
                Some(text) => after.dom().contains("BareSlashDistribution"@)
                    && after["BareSlashDistribution"@] == SettingText::Sz(text),
                None => !after.dom().contains("BareSlashDistribution"@),
            }
        }),
    ensures
        stored_mode(Some(&stored)) == if default_mode {
            BareSlashMode::DefaultDistribution
        } else {
            BareSlashMode::DistributionList
        },
        stored_pin(Some(&stored)) == if default_mode && pin.len() > 0 {
            Some(pin)
        } else {
            None
        },
{
    law_saved_bare_slash_settings_take_effect(Map::empty(), default_mode, pin, root);
}

/// How a write is handed to `reg.exe`: an addition names the key, the value, its
/// type and its data, and a removal the key and the value; both without a question.
pub proof fn law_what_reg_is_asked_for(name: Seq<char>, number: u32, long: u64, text: Seq<char>)
    ensures
        ({
            let key = r"HKCU\Software\ForwardSlashWindows\Settings"@;
            &&& reg_argument_texts(write_of(name, SettingText::Dword(number))) == seq![
                "add"@,
                key,
                "/v"@,
                name,
                "/t"@,
                "REG_DWORD"@,
                "/d"@,
                decimal(number as nat),
                "/f"@,
            ]
            &&& reg_argument_texts(write_of(name, SettingText::Qword(long))) == seq![
                "add"@,
                key,
                "/v"@,
                name,
                "/t"@,
                "REG_QWORD"@,
                "/d"@,
                decimal(long as nat),
                "/f"@,
            ]
            &&& reg_argument_texts(write_of(name, SettingText::Sz(text))) == seq![
                "add"@,
                key,
                "/v"@,
                name,
                "/t"@,
                "REG_SZ"@,
                "/d"@,
                text,
                "/f"@,
            ]
            &&& reg_argument_texts(WriteText { name, value: None }) == seq![
                "delete"@,
                key,
                "/v"@,
                name,
                "/f"@,
            ]
        }),
{
    reveal_strlit(r"HKCU\Software\ForwardSlashWindows\Settings");
    reveal_strlit(r"Software\ForwardSlashWindows\Settings");
    reveal_strlit("HKCU\\");
    assert(crate::settings_write::key_text() =~= r"HKCU\Software\ForwardSlashWindows\Settings"@);
}

/// What is done to the real hive: a value is always written; a removal is asked for
/// only where the value is there.
pub proof fn law_what_is_done_to_the_real_hive(
    name: Seq<char>,
    value: SettingText,
    output: Option<Seq<char>>,
)
    ensures
        real_step(write_of(name, value), output) == Some(
            reg_argument_texts(write_of(name, value)),
        ),
        output is None ==> real_step(WriteText { name, value: None }, output) is None,
        output is Some && value_named(query_values(output->Some_0), name) is None ==> real_step(
            WriteText { name, value: None },
            output,
        ) is None,
        output is Some && value_named(query_values(output->Some_0), name) is Some ==> real_step(
            WriteText { name, value: None },
            output,
        ) == Some(reg_argument_texts(WriteText { name, value: None })),
        changes_own_hive(write_of(name, value), false),
        changes_own_hive(WriteText { name, value: None }, true),
        !changes_own_hive(WriteText { name, value: None }, false),
{
}

/// Of several results the first failure is the result of them all.
pub proof fn law_the_first_failure_counts(code: u32, results: Seq<Result<(), u32>>)
    ensures
        first_failure(Seq::empty()) is Ok,
        first_failure(seq![Err::<(), u32>(code)] + results) == Err::<(), u32>(code),
        first_failure(seq![Ok::<(), u32>(())] + results) == first_failure(results),
{
    let failed = seq![Err::<(), u32>(code)] + results;
    let passed = seq![Ok::<(), u32>(())] + results;
    assert(failed[0] == Err::<(), u32>(code));
    assert(passed[0] == Ok::<(), u32>(()));
    assert(passed.skip(1) =~= results);
}

/// White space around a registry number changes nothing, and anything but digits in
/// a decimal number spoils it.
pub proof fn law_registry_numbers_between_white_space(
    front: Seq<char>,
    value: nat,
    back: Seq<char>,
    digits: Seq<char>,
    i: int,
)
    requires
        forall|j: int| 0 <= j < front.len() ==> is_white(#[trigger] front[j]),
        forall|j: int| 0 <= j < back.len() ==> is_white(#[trigger] back[j]),
        value <= u64::MAX,
        digits.len() > 0,
        '1' <= digits[0] <= '9',
        !is_white(digits.last()),
        0 < i < digits.len(),
        !('0' <= digits[i] <= '9'),
    ensures
        reg_number(front + decimal(value) + back) == Some(value),
        reg_number(front + digits + back) is None,
{
    let nothing = Seq::<char>::empty();
    reveal_strlit("0x");
    reveal_strlit("0X");
    crate::settings_write::law_written_values_match(SettingText::Qword(value as u64));
    crate::text::law_decimal_round_trip(value);
    let number = decimal(value);
    let last: int = number.len() - 1;
    assert(crate::text::is_digit(number[0]) && crate::text::is_digit(number[last]));
    crate::text::law_trimming_takes_the_ends(front, number, back);
    crate::text::law_trimming_takes_the_ends(nothing, number, nothing);
    assert(nothing + number + nothing =~= number);
    crate::text::law_trimming_takes_the_ends(front, digits, back);
    if crate::text::begins(digits, "0x"@) {
        assert(digits.subrange(0, 2)[0] == '0');
    }
    if crate::text::begins(digits, "0X"@) {
        assert(digits.subrange(0, 2)[0] == '0');
    }
    assert(!(digit_value(digits[i]) < 10));
}

/// What is written of the switches is what is read of them, and the recorded update
/// and the time of the last check are kept as they are.
pub proof fn law_written_switches_read_back(
    hive: Map<Seq<char>, SettingText>,
    stored: StoredSettings,
    on: bool,
    store_flavor: bool,
    tag: Seq<char>,
    now: u64,
)
    ensures
        ({
            let paused = hive_after(hive, seq![disabled_write(on)]);
            let automatic = hive_after(hive, seq![auto_update_write(on)]);
            let offered = hive_after(hive, seq![offer_write(Some(tag))]);
            let forgotten = hive_after(hive, seq![offer_write(None)]);
            let noted = hive_after(hive, seq![attempt_write(now)]);
            &&& stored.disabled is Some && paused["Disabled"@] == SettingText::Dword(
                stored.disabled->Some_0,
            ) ==> stored_disabled(Some(&stored)) == on
            &&& stored.auto_update is Some && automatic["AutoUpdate"@] == SettingText::Dword(
                stored.auto_update->Some_0,
            ) ==> auto_update_setting(stored.auto_update, store_flavor) == on
            &&& paused.dom().contains("Disabled"@) && automatic.dom().contains("AutoUpdate"@)
            &&& offered.dom().contains("AvailableUpdate"@) && offered["AvailableUpdate"@]
                == SettingText::Sz(tag)
            &&& !forgotten.dom().contains("AvailableUpdate"@)
            &&& noted.dom().contains("LastUpdateCheck"@) && noted["LastUpdateCheck"@]
                == SettingText::Qword(now)
            &&& forall|name: Seq<char>|
                name != "Disabled"@ ==> (#[trigger] paused.dom().contains(name)
                    == hive.dom().contains(name))
            &&& forall|name: Seq<char>|
                name != "AvailableUpdate"@ ==> (#[trigger] forgotten.dom().contains(name)
                    == hive.dom().contains(name))
        }),
{
    reveal_with_fuel(hive_after, 3);
    assert(seq![disabled_write(on)].drop_last() =~= Seq::<WriteText>::empty());
    assert(seq![auto_update_write(on)].drop_last() =~= Seq::<WriteText>::empty());
    assert(seq![offer_write(Some(tag))].drop_last() =~= Seq::<WriteText>::empty());
    assert(seq![offer_write(None)].drop_last() =~= Seq::<WriteText>::empty());
    assert(seq![attempt_write(now)].drop_last() =~= Seq::<WriteText>::empty());
}

} // verus!
