//! What the update program prints, the settings window reads back.

use crate::install::github_check_report;
use crate::report::{
    escaped, escaped_char, flavor_text, json_bool, json_line, json_number_or_null, json_or_null,
    json_string, printed_text, route_text, told_detail, Installation,
};
use crate::text::{
    first_occurrence, hex_lower, is_alpha, is_digit, is_hex, law_decimal_round_trip,
    lemma_first_occurrence, lemma_hex_lower, lemma_split_concat, lemma_split_one, lines_of,
    occurs_at, split, without_return,
};
use crate::update::OutcomeText;
use crate::update_reply::{check_meaning, key_text, last_line, string_field, string_value};
use vstd::prelude::*;

verus! {

/// A text without control characters.
pub open spec fn is_printable(text: Seq<char>) -> bool {
    forall|i: int| 0 <= i < text.len() ==> #[trigger] text[i] > '\u{1f}'
}

proof fn lemma_escaped_front(text: Seq<char>)
    requires
        text.len() > 0,
    ensures
        escaped(text) == escaped_char(text[0]) + escaped(text.skip(1)),
    decreases text.len(),
{
    let none = Seq::<char>::empty();
    assert(escaped(none) =~= none);
    if text.len() == 1 {
        assert(text.drop_last() =~= none);
        assert(text.skip(1) =~= none);
        assert(escaped(text) =~= escaped_char(text[0]) + escaped(text.skip(1)));
    } else {
        lemma_escaped_front(text.drop_last());
        assert(text.drop_last().skip(1) =~= text.skip(1).drop_last());
        assert(text.skip(1).last() == text.last());
        assert(escaped(text) =~= escaped_char(text[0]) + escaped(text.skip(1)));
    }
}

/// A printable text, escaped and closed by a quote, reads back as itself whatever
/// follows.
proof fn lemma_string_reads_back(text: Seq<char>, rest: Seq<char>)
    requires
        is_printable(text),
    ensures
        string_value(escaped(text) + (seq!['"'] + rest)) == Some(text),
    decreases text.len(),
{
    let all = escaped(text) + (seq!['"'] + rest);
    if text.len() == 0 {
        assert(all =~= seq!['"'] + rest);
        assert(text =~= Seq::<char>::empty());
    } else {
        let c = text[0];
        let tail = text.skip(1);
        lemma_escaped_front(text);
        assert(text[0] > '\u{1f}');
        assert forall|i: int| 0 <= i < tail.len() implies #[trigger] tail[i] > '\u{1f}' by {
            assert(text[i + 1] > '\u{1f}');
        }
        lemma_string_reads_back(tail, rest);
        let later = escaped(tail) + (seq!['"'] + rest);
        assert(all =~= escaped_char(c) + later);
        assert(seq![c] + tail =~= text);
        if c == '"' || c == '\\' {
            assert(all[0] == '\\');
            assert(all[1] == c);
            assert(all.skip(2) =~= later);
        } else {
            assert(all[0] == c);
            assert(all.skip(1) =~= later);
        }
    }
}

/// Letters stand for themselves.
proof fn lemma_letters_escape_to_themselves(text: Seq<char>)
    requires
        forall|i: int| 0 <= i < text.len() ==> is_alpha(#[trigger] text[i]),
    ensures
        escaped(text) == text,
        is_printable(text),
    decreases text.len(),
{
    if text.len() > 0 {
        let init = text.drop_last();
        assert(forall|i: int| 0 <= i < init.len() ==> init[i] == text[i]);
        lemma_letters_escape_to_themselves(init);
        assert(is_alpha(text[text.len() - 1]));
        assert(init + seq![text.last()] =~= text);
    } else {
        assert(escaped(text) =~= text);
    }
    assert forall|i: int| 0 <= i < text.len() implies #[trigger] text[i] > '\u{1f}' by {
        assert(is_alpha(text[i]));
    }
}

/// The line up to and including the key of its second field.
spec fn state_head(flavor: Seq<char>) -> Seq<char> {
    seq!['{', '"', 'f', 'l', 'a', 'v', 'o', 'r', '"', ':', '"'] + flavor + seq!['"', ',']
}

spec fn state_key() -> Seq<char> {
    seq!['"', 's', 't', 'a', 't', 'e', '"', ':']
}

spec fn available_key() -> Seq<char> {
    seq!['"', 'a', 'v', 'a', 'i', 'l', 'a', 'b', 'l', 'e', '"', ':']
}

spec fn available_head(flavor: Seq<char>, state: Seq<char>) -> Seq<char> {
    state_head(flavor) + state_key() + seq!['"'] + state + seq!['"', ',']
}

/// A flavor's name: letters, the first of them no `a`, and not beginning as the
/// key `state` does.
spec fn is_flavor(flavor: Seq<char>) -> bool {
    &&& flavor.len() >= 5
    &&& forall|i: int| 0 <= i < flavor.len() ==> is_alpha(#[trigger] flavor[i])
    &&& flavor[0] != 'a'
    &&& flavor[2] != 'a'
}

proof fn lemma_flavor(packaged: bool, store_flavor: bool)
    ensures
        is_flavor(flavor_text(packaged, store_flavor)),
{
    reveal_strlit("unpackaged");
    reveal_strlit("store");
    reveal_strlit("github");
}

proof fn lemma_keys()
    ensures
        key_text("state"@) == state_key(),
        key_text("available"@) == available_key(),
{
    reveal_strlit("\"");
    reveal_strlit("\":");
    reveal_strlit("state");
    reveal_strlit("available");
    assert(key_text("state"@) =~= state_key());
    assert(key_text("available"@) =~= available_key());
}

/// Two texts that differ at some index inside the pattern rule an occurrence out.
proof fn lemma_no_occurrence(s: Seq<char>, pattern: Seq<char>, at: int, k: int)
    requires
        0 <= k < pattern.len(),
        0 <= at,
        at + k < s.len() ==> s[at + k] != pattern[k],
    ensures
        !occurs_at(s, pattern, at),
{
    if occurs_at(s, pattern, at) {
        assert(s.subrange(at, at + pattern.len())[k] == s[at + k]);
    }
}

proof fn lemma_first_is(s: Seq<char>, pattern: Seq<char>, at: int)
    requires
        occurs_at(s, pattern, at),
        forall|j: int| 0 <= j < at ==> !occurs_at(s, pattern, j),
    ensures
        first_occurrence(s, pattern) == Some(at),
{
    lemma_first_occurrence(s, pattern, 0);
}

proof fn lemma_state_key_is_first(flavor: Seq<char>, rest: Seq<char>)
    requires
        is_flavor(flavor),
    ensures
        first_occurrence(state_head(flavor) + state_key() + rest, state_key()) == Some(
            state_head(flavor).len() as int,
        ),
{
    let head = state_head(flavor);
    let key = state_key();
    let s = head + key + rest;
    let n = flavor.len() as int;
    let p = head.len() as int;
    assert(s.subrange(p, p + 8) =~= key);
    assert forall|j: int| 0 <= j < p implies !occurs_at(s, key, j) by {
        if j == 1 {
            assert(s[2] == 'f');
            lemma_no_occurrence(s, key, j, 1);
        } else if j == 8 {
            assert(s[9] == ':');
            lemma_no_occurrence(s, key, j, 1);
        } else if j == 10 {
            assert(s[13] == flavor[2]);
            lemma_no_occurrence(s, key, j, 3);
        } else if j == 11 + n {
            assert(s[12 + n] == ',');
            lemma_no_occurrence(s, key, j, 1);
        } else if 11 <= j < 11 + n {
            assert(s[j] == flavor[j - 11]);
            assert(is_alpha(flavor[j - 11]));
            lemma_no_occurrence(s, key, j, 0);
        } else {
            assert(s[j] == head[j]);
            assert(s[j] != '"');
            lemma_no_occurrence(s, key, j, 0);
        }
    }
    lemma_first_is(s, key, p);
}

proof fn lemma_available_key_is_first(flavor: Seq<char>, state: Seq<char>, rest: Seq<char>)
    requires
        is_flavor(flavor),
        forall|i: int| 0 <= i < state.len() ==> is_alpha(#[trigger] state[i]),
    ensures
        first_occurrence(available_head(flavor, state) + available_key() + rest, available_key())
            == Some(available_head(flavor, state).len() as int),
{
    let head = available_head(flavor, state);
    let key = available_key();
    let s = head + key + rest;
    let n = flavor.len() as int;
    let m = state.len() as int;
    let p = head.len() as int;
    assert(p == 24 + n + m);
    assert(s.subrange(p, p + 12) =~= key);
    let v = 21 + n;
    assert forall|j: int| 0 <= j < p implies !occurs_at(s, key, j) by {
        assert(s[j] == head[j]);
        if j == 1 {
            assert(s[2] == 'f');
            lemma_no_occurrence(s, key, j, 1);
        } else if j == 8 {
            assert(s[9] == ':');
            lemma_no_occurrence(s, key, j, 1);
        } else if j == 10 {
            assert(s[11] == flavor[0]);
            lemma_no_occurrence(s, key, j, 1);
        } else if j == 11 + n {
            assert(s[12 + n] == ',');
            lemma_no_occurrence(s, key, j, 1);
        } else if 11 <= j < 11 + n {
            assert(s[j] == flavor[j - 11]);
            assert(is_alpha(flavor[j - 11]));
            lemma_no_occurrence(s, key, j, 0);
        } else if j == 13 + n {
            assert(s[14 + n] == 's');
            lemma_no_occurrence(s, key, j, 1);
        } else if j == 19 + n {
            assert(s[20 + n] == ':');
            lemma_no_occurrence(s, key, j, 1);
        } else if j == v {
            assert(s[v + 1 + m] == '"');
            if m < 9 {
                assert(key[1 + m] != '"') by {
                    assert(m == 0 || m == 1 || m == 2 || m == 3 || m == 4 || m == 5 || m == 6 || m
                        == 7 || m == 8);
                }
                lemma_no_occurrence(s, key, j, 1 + m);
            } else if m == 9 {
                assert(s[v + 11] == ',');
                lemma_no_occurrence(s, key, j, 11);
            } else {
                assert(s[v + 10] == state[9]);
                assert(is_alpha(state[9]));
                lemma_no_occurrence(s, key, j, 10);
            }
        } else if v < j <= v + m {
            assert(s[j] == state[j - v - 1]);
            assert(is_alpha(state[j - v - 1]));
            lemma_no_occurrence(s, key, j, 0);
        } else if j == v + m + 1 {
            assert(s[v + m + 2] == ',');
            lemma_no_occurrence(s, key, j, 1);
        } else {
            assert(s[j] != '"');
            lemma_no_occurrence(s, key, j, 0);
        }
    }
    lemma_first_is(s, key, p);
}

/// What stands behind the first two keys of the line.
spec fn line_tail(
    available: Option<Seq<char>>,
    auto_update: bool,
    last_check: Option<u64>,
    route: Option<Seq<char>>,
    action: Option<Seq<char>>,
    detail: Option<Seq<char>>,
) -> Seq<char> {
    ",\"autoUpdate\":"@ + json_bool(auto_update) + ",\"lastUpdateCheck\":"@ + json_number_or_null(
        last_check,
    ) + ",\"route\":"@ + json_or_null(route) + ",\"action\":"@ + json_or_null(action)
        + ",\"detail\":"@ + json_or_null(detail) + "}"@
}

proof fn lemma_assoc(a: Seq<char>, b: Seq<char>, c: Seq<char>)
    ensures
        (a + b) + c == a + (b + c),
{
    assert((a + b) + c =~= a + (b + c));
}

/// The line in two parts: up to the value of `available`, and behind it.
proof fn lemma_line_parts(
    flavor: Seq<char>,
    state: Seq<char>,
    available: Option<Seq<char>>,
    auto_update: bool,
    last_check: Option<u64>,
    route: Option<Seq<char>>,
    action: Option<Seq<char>>,
    detail: Option<Seq<char>>,
)
    ensures
        json_line(flavor, state, available, auto_update, last_check, route, action, detail) == (
        "{\"flavor\":"@ + json_string(flavor) + ",\"state\":"@ + json_string(state)
            + ",\"available\":"@) + (json_or_null(available) + line_tail(
            available,
            auto_update,
            last_check,
            route,
            action,
            detail,
        )),
{
    let front = "{\"flavor\":"@ + json_string(flavor) + ",\"state\":"@ + json_string(state)
        + ",\"available\":"@;
    let value = json_or_null(available);
    let x = front + value;
    let t1 = ",\"autoUpdate\":"@;
    let t2 = t1 + json_bool(auto_update);
    let t3 = t2 + ",\"lastUpdateCheck\":"@;
    let t4 = t3 + json_number_or_null(last_check);
    let t5 = t4 + ",\"route\":"@;
    let t6 = t5 + json_or_null(route);
    let t7 = t6 + ",\"action\":"@;
    let t8 = t7 + json_or_null(action);
    let t9 = t8 + ",\"detail\":"@;
    let t10 = t9 + json_or_null(detail);
    let t11 = t10 + "}"@;
    lemma_assoc(x, t1, json_bool(auto_update));
    lemma_assoc(x, t2, ",\"lastUpdateCheck\":"@);
    lemma_assoc(x, t3, json_number_or_null(last_check));
    lemma_assoc(x, t4, ",\"route\":"@);
    lemma_assoc(x, t5, json_or_null(route));
    lemma_assoc(x, t6, ",\"action\":"@);
    lemma_assoc(x, t7, json_or_null(action));
    lemma_assoc(x, t8, ",\"detail\":"@);
    lemma_assoc(x, t9, json_or_null(detail));
    lemma_assoc(x, t10, "}"@);
    lemma_assoc(front, value, t11);
}

/// The part up to the value of `available`, spelled out.
proof fn lemma_front(flavor: Seq<char>, state: Seq<char>)
    requires
        escaped(flavor) == flavor,
        escaped(state) == state,
    ensures
        "{\"flavor\":"@ + json_string(flavor) + ",\"state\":"@ + json_string(state)
            + ",\"available\":"@ == available_head(flavor, state) + available_key(),
{
    reveal_strlit("{\"flavor\":");
    reveal_strlit(",\"state\":");
    reveal_strlit(",\"available\":");
    reveal_strlit("\"");
    let a = "{\"flavor\":"@ + json_string(flavor) + ",\"state\":"@;
    assert(a =~= state_head(flavor) + state_key());
    let b = a + json_string(state);
    assert(b =~= a + seq!['"'] + state + seq!['"']);
    assert(b + ",\"available\":"@ =~= available_head(flavor, state) + available_key());
}

proof fn lemma_regroup(
    head: Seq<char>,
    key: Seq<char>,
    state: Seq<char>,
    next: Seq<char>,
    tail: Seq<char>,
)
    ensures
        (head + key + seq!['"'] + state + seq!['"', ',']) + next + tail == head + key + (seq!['"']
            + state + (seq!['"'] + (seq![','] + next + tail))),
{
    assert((head + key + seq!['"'] + state + seq!['"', ',']) + next + tail =~= head + key + (
    seq!['"'] + state + (seq!['"'] + (seq![','] + next + tail))));
}

/// The value behind the key `state`.
proof fn lemma_reads_state(flavor: Seq<char>, state: Seq<char>, behind: Seq<char>)
    requires
        is_flavor(flavor),
        escaped(state) == state,
        is_printable(state),
    ensures
        string_field(
            state_head(flavor) + state_key() + (seq!['"'] + state + (seq!['"'] + behind)),
            "state"@,
        ) == Some(state),
{
    lemma_keys();
    let rest = seq!['"'] + state + (seq!['"'] + behind);
    let head = state_head(flavor);
    let line = head + state_key() + rest;
    lemma_state_key_is_first(flavor, rest);
    assert(line.skip(head.len() as int + 8) =~= rest);
    assert(rest[0] == '"');
    assert(rest.skip(1) =~= state + (seq!['"'] + behind));
    lemma_string_reads_back(state, behind);
}

/// The value behind the key `available`.
proof fn lemma_reads_available(
    flavor: Seq<char>,
    state: Seq<char>,
    available: Option<Seq<char>>,
    behind: Seq<char>,
)
    requires
        is_flavor(flavor),
        forall|i: int| 0 <= i < state.len() ==> is_alpha(#[trigger] state[i]),
        available is Some ==> is_printable(available->Some_0),
    ensures
        string_field(
            available_head(flavor, state) + available_key() + (json_or_null(available) + behind),
            "available"@,
        ) == available,
{
    lemma_keys();
    let tail = json_or_null(available) + behind;
    let head = available_head(flavor, state);
    let line = head + available_key() + tail;
    lemma_available_key_is_first(flavor, state, tail);
    assert(line.skip(head.len() as int + 12) =~= tail);
    reveal_strlit("\"");
    reveal_strlit("null");
    match available {
        Some(text) => {
            assert(tail.skip(1) =~= escaped(text) + (seq!['"'] + behind));
            assert(tail[0] == '"');
            lemma_string_reads_back(text, behind);
        },
        None => {
            assert(tail[0] == 'n');
        },
    }
}

/// The two fields the settings window reads come back as they were written: the
/// state, which is made of letters, and the available version, which is any
/// printable text or none.
pub proof fn law_json_line_reads_back(
    packaged: bool,
    store_flavor: bool,
    state: Seq<char>,
    available: Option<Seq<char>>,
    auto_update: bool,
    last_check: Option<u64>,
    route: Option<Seq<char>>,
    action: Option<Seq<char>>,
    detail: Option<Seq<char>>,
)
    requires
        forall|i: int| 0 <= i < state.len() ==> is_alpha(#[trigger] state[i]),
        available is Some ==> is_printable(available->Some_0),
    ensures
        ({
            let line = json_line(
                flavor_text(packaged, store_flavor),
                state,
                available,
                auto_update,
                last_check,
                route,
                action,
                detail,
            );
            &&& string_field(line, "state"@) == Some(state)
            &&& string_field(line, "available"@) == available
        }),
{
    let flavor = flavor_text(packaged, store_flavor);
    lemma_flavor(packaged, store_flavor);
    lemma_letters_escape_to_themselves(flavor);
    lemma_letters_escape_to_themselves(state);
    lemma_line_parts(flavor, state, available, auto_update, last_check, route, action, detail);
    lemma_front(flavor, state);
    let behind = line_tail(available, auto_update, last_check, route, action, detail);
    let tail = json_or_null(available) + behind;
    lemma_reads_available(flavor, state, available, behind);
    lemma_regroup(state_head(flavor), state_key(), state, available_key(), tail);
    lemma_reads_state(flavor, state, seq![','] + available_key() + tail);
}

// ---------------------------------------------------------------------------
// From the program's mouth to the window's ear
// ---------------------------------------------------------------------------

spec fn one_line(text: Seq<char>) -> bool {
    !text.contains('\n')
}

proof fn lemma_one_line_concat(a: Seq<char>, b: Seq<char>)
    requires
        one_line(a),
        one_line(b),
    ensures
        one_line(a + b),
{
    let s = a + b;
    if s.contains('\n') {
        let j = choose|j: int| 0 <= j < s.len() && s[j] == '\n';
        if j < a.len() {
            assert(a[j] == '\n');
        } else {
            assert(b[j - a.len()] == '\n');
        }
    }
}

proof fn lemma_escaped_one_line(text: Seq<char>)
    ensures
        one_line(escaped(text)),
    decreases text.len(),
{
    if text.len() > 0 {
        lemma_escaped_one_line(text.drop_last());
        let c = text.last();
        lemma_hex_lower(c as u32 as nat, 4);
        assert(one_line(escaped_char(c))) by {
            let s = escaped_char(c);
            if s.contains('\n') {
                let j = choose|j: int| 0 <= j < s.len() && s[j] == '\n';
                if s.len() == 6 {
                    if j >= 2 {
                        assert(s[j] == hex_lower(c as u32 as nat, 4)[j - 2]);
                        assert(is_hex(hex_lower(c as u32 as nat, 4)[j - 2]));
                    }
                }
            }
        }
        lemma_one_line_concat(escaped(text.drop_last()), escaped_char(c));
    }
}

proof fn lemma_json_string_one_line(text: Seq<char>)
    ensures
        one_line(json_string(text)),
{
    reveal_strlit("\"");
    lemma_escaped_one_line(text);
    lemma_one_line_concat("\""@, escaped(text));
    lemma_one_line_concat("\""@ + escaped(text), "\""@);
}

proof fn lemma_or_null_one_line(text: Option<Seq<char>>)
    ensures
        one_line(json_or_null(text)),
{
    reveal_strlit("null");
    match text {
        Some(value) => {
            lemma_json_string_one_line(value);
        },
        None => {},
    }
}

proof fn lemma_number_one_line(value: Option<u64>)
    ensures
        one_line(json_number_or_null(value)),
{
    reveal_strlit("null");
    match value {
        Some(number) => {
            law_decimal_round_trip(number as nat);
            let s = crate::text::decimal(number as nat);
            if s.contains('\n') {
                let j = choose|j: int| 0 <= j < s.len() && s[j] == '\n';
                assert(is_digit(s[j]));
            }
        },
        None => {},
    }
}

/// The JSON line is one line.
pub proof fn law_json_is_one_line(
    flavor: Seq<char>,
    state: Seq<char>,
    available: Option<Seq<char>>,
    auto_update: bool,
    last_check: Option<u64>,
    route: Option<Seq<char>>,
    action: Option<Seq<char>>,
    detail: Option<Seq<char>>,
)
    ensures
        ({
            let line = json_line(
                flavor,
                state,
                available,
                auto_update,
                last_check,
                route,
                action,
                detail,
            );
            &&& !line.contains('\n')
            &&& line.len() > 0
            &&& line.last() == '}'
        }),
{
    reveal_strlit("{\"flavor\":");
    reveal_strlit(",\"state\":");
    reveal_strlit(",\"available\":");
    reveal_strlit(",\"autoUpdate\":");
    reveal_strlit(",\"lastUpdateCheck\":");
    reveal_strlit(",\"route\":");
    reveal_strlit(",\"action\":");
    reveal_strlit(",\"detail\":");
    reveal_strlit("}");
    reveal_strlit("true");
    reveal_strlit("false");
    lemma_json_string_one_line(flavor);
    lemma_json_string_one_line(state);
    lemma_or_null_one_line(available);
    lemma_number_one_line(last_check);
    lemma_or_null_one_line(route);
    lemma_or_null_one_line(action);
    lemma_or_null_one_line(detail);
    let a = "{\"flavor\":"@;
    lemma_one_line_concat(a, json_string(flavor));
    let b = a + json_string(flavor);
    lemma_one_line_concat(b, ",\"state\":"@);
    let c = b + ",\"state\":"@;
    lemma_one_line_concat(c, json_string(state));
    let d = c + json_string(state);
    lemma_one_line_concat(d, ",\"available\":"@);
    let e = d + ",\"available\":"@;
    lemma_one_line_concat(e, json_or_null(available));
    let f = e + json_or_null(available);
    lemma_one_line_concat(f, ",\"autoUpdate\":"@);
    let g = f + ",\"autoUpdate\":"@;
    lemma_one_line_concat(g, json_bool(auto_update));
    let h = g + json_bool(auto_update);
    lemma_one_line_concat(h, ",\"lastUpdateCheck\":"@);
    let i = h + ",\"lastUpdateCheck\":"@;
    lemma_one_line_concat(i, json_number_or_null(last_check));
    let j = i + json_number_or_null(last_check);
    lemma_one_line_concat(j, ",\"route\":"@);
    let k = j + ",\"route\":"@;
    lemma_one_line_concat(k, json_or_null(route));
    let l = k + json_or_null(route);
    lemma_one_line_concat(l, ",\"action\":"@);
    let m = l + ",\"action\":"@;
    lemma_one_line_concat(m, json_or_null(action));
    let n = m + json_or_null(action);
    lemma_one_line_concat(n, ",\"detail\":"@);
    let o = n + ",\"detail\":"@;
    lemma_one_line_concat(o, json_or_null(detail));
    lemma_one_line_concat(o + json_or_null(detail), "}"@);
}

/// A printed line is the last line of what was printed.
proof fn lemma_last_line(line: Seq<char>)
    requires
        !line.contains('\n'),
        line.len() > 0,
        line.last() != '\r',
    ensures
        last_line(line + "\n"@) == line,
{
    reveal_strlit("\n");
    let none = Seq::<char>::empty();
    let text = line + "\n"@;
    assert(text =~= line.push('\n') + none);
    lemma_split_one(line, '\n');
    lemma_split_concat(line, none, '\n');
    let parts = split(text, '\n');
    assert(parts =~= seq![line, none]);
    assert(parts.drop_last() =~= seq![line]);
    let ended = parts.drop_last().map_values(|l: Seq<char>| without_return(l));
    assert(ended =~= seq![line]);
    assert(lines_of(text) == ended);
}

/// What a GitHub check concluded reaches the settings window unchanged: ready with
/// its tag, up to date, or not due; everything else arrives as "unavailable". A tag
/// is any printable text that is not empty.
pub proof fn law_check_answers_reach_the_window(
    outcome: OutcomeText,
    folded: Option<Seq<char>>,
    installation: Installation,
)
    requires
        outcome is Ready ==> outcome->Ready_0.len() > 0 && is_printable(outcome->Ready_0),
    ensures
        ({
            let report = github_check_report(outcome);
            check_meaning(report.code, printed_text(report, true, folded, installation))
                == match outcome {
                OutcomeText::VerificationFailed(_) => OutcomeText::Unavailable,
                other => other,
            }
        }),
{
    let report = github_check_report(outcome);
    reveal_strlit("notDue");
    reveal_strlit("unavailable");
    reveal_strlit("error");
    reveal_strlit("upToDate");
    reveal_strlit("available");
    assert forall|i: int| 0 <= i < report.state.len() implies is_alpha(#[trigger] report.state[i]) by {}
    let flavor = flavor_text(installation.packaged, installation.store_flavor);
    let detail = told_detail(report, folded);
    let line = json_line(
        flavor,
        report.state,
        report.available,
        installation.auto_update,
        installation.last_check,
        route_text(report.route),
        report.action,
        detail,
    );
    law_json_line_reads_back(
        installation.packaged,
        installation.store_flavor,
        report.state,
        report.available,
        installation.auto_update,
        installation.last_check,
        route_text(report.route),
        report.action,
        detail,
    );
    law_json_is_one_line(
        flavor,
        report.state,
        report.available,
        installation.auto_update,
        installation.last_check,
        route_text(report.route),
        report.action,
        detail,
    );
    lemma_last_line(line);
    assert("notDue"@.len() == 6 && "upToDate"@.len() == 8 && "error"@.len() == 5
        && "unavailable"@.len() == 11 && "available"@.len() == 9);
}

}
