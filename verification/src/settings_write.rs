//! The one writer for the settings key.
//!
//! A packaged process writes the registry into its package's private hive, which
//! the shell adapters, running without package identity, never see. So a packaged
//! write goes to both hives: to the real one through a child process, and to the
//! package's own, whose stale copy would otherwise shadow the real one. This
//! module decides what is written where; the caller performs the writes.

use crate::path::text_in;
use crate::text::{
    begins, chars_of, decimal, digit_value, find, first_occurrence, is_digit,
    law_decimal_round_trip, lines, lines_of, parse_unsigned, part, push_decimal, radix_value,
    same, same_ignoring_case, same_text_ignoring_case, starts_with, string_of, trim, trimmed,
    unsigned_number,
};
use crate::update::{
    auto_update_setting, AUTO_UPDATE_VALUE, AVAILABLE_UPDATE_VALUE, LAST_UPDATE_CHECK_VALUE,
};
use vstd::prelude::*;

verus! {

/// The settings key, and every value name under it.
pub const FSW_SETTINGS_KEY: &'static str = r"Software\ForwardSlashWindows\Settings";

pub const FSW_DISABLED_VALUE: &'static str = "Disabled";

pub const FSW_BARE_SLASH_MODE_VALUE: &'static str = "BareSlashMode";

pub const FSW_BARE_SLASH_DISTRIBUTION_VALUE: &'static str = "BareSlashDistribution";

/// Custom bare-slash root: an absolute Windows path that `/` opens and everything
/// that names no distribution resolves under.
pub const FSW_BARE_SLASH_ROOT_VALUE: &'static str = "BareSlashRoot";

/// Where one settings write has to land.
#[derive(Debug, Clone, Copy, PartialEq, Eq, Structural)]
pub enum WritePlan {
    /// Unpackaged: the in-process registry writes the real hive already.
    RealOnly,
    /// Packaged: the real hive and the package's private hive.
    Both,
}

/// The decision behind every settings write.
#[must_use]
pub fn write_plan(packaged: bool) -> (r: WritePlan)
    ensures
        r == if packaged {
            WritePlan::Both
        } else {
            WritePlan::RealOnly
        },
{
    if packaged {
        WritePlan::Both
    } else {
        WritePlan::RealOnly
    }
}

/// A settings value in the only three shapes this key ever stores.
#[derive(Debug, Clone, PartialEq, Eq)]
pub enum SettingValue {
    /// `REG_DWORD`: `Disabled`, `BareSlashMode`, `AutoUpdate`.
    Dword(u32),
    /// `REG_QWORD`: `LastUpdateCheck`.
    Qword(u64),
    /// `REG_SZ`: `BareSlashDistribution`, `BareSlashRoot`, `AvailableUpdate`.
    Sz(String),
}

/// A settings value as plain text.
pub enum SettingText {
    Dword(u32),
    Qword(u64),
    Sz(Seq<char>),
}

impl View for SettingValue {
    type V = SettingText;

    open spec fn view(&self) -> SettingText {
        match self {
            SettingValue::Dword(value) => SettingText::Dword(*value),
            SettingValue::Qword(value) => SettingText::Qword(*value),
            SettingValue::Sz(text) => SettingText::Sz(text@),
        }
    }
}

/// One value exactly as `reg query` printed it: the type token and the data text,
/// both untouched.
#[derive(Debug, Clone, PartialEq, Eq)]
pub struct RawSetting {
    pub kind: String,
    pub data: String,
}

/// A raw setting as plain text.
pub struct RawText {
    pub kind: Seq<char>,
    pub data: Seq<char>,
}

impl View for RawSetting {
    type V = RawText;

    open spec fn view(&self) -> RawText {
        RawText { kind: self.kind@, data: self.data@ }
    }
}

impl SettingText {
    /// The type token for `reg add`.
    pub open spec fn reg_type(self) -> Seq<char> {
        match self {
            SettingText::Dword(_) => "REG_DWORD"@,
            SettingText::Qword(_) => "REG_QWORD"@,
            SettingText::Sz(_) => "REG_SZ"@,
        }
    }

    /// The data argument for `reg add`: numbers in decimal.
    pub open spec fn reg_data(self) -> Seq<char> {
        match self {
            SettingText::Dword(value) => decimal(value as nat),
            SettingText::Qword(value) => decimal(value as nat),
            SettingText::Sz(text) => text,
        }
    }

    /// Whether a raw setting holds this exact value.
    pub open spec fn matches(self, raw: RawText) -> bool {
        raw.kind == self.reg_type() && match self {
            SettingText::Dword(value) => reg_number(raw.data) == Some(value as nat),
            SettingText::Qword(value) => reg_number(raw.data) == Some(value as nat),
            SettingText::Sz(text) => raw.data == text,
        }
    }
}

impl SettingValue {
    /// The `/t` token for `reg add`.
    #[must_use]
    pub fn reg_type(&self) -> (r: &'static str)
        ensures
            r@ == self@.reg_type(),
    {
        match self {
            SettingValue::Dword(_) => "REG_DWORD",
            SettingValue::Qword(_) => "REG_QWORD",
            SettingValue::Sz(_) => "REG_SZ",
        }
    }

    /// The `/d` argument for `reg add`. Numbers go out in decimal, which `reg.exe`
    /// accepts for both integer types.
    #[must_use]
    pub fn reg_data(&self) -> (r: String)
        ensures
            r@ == self@.reg_data(),
    {
        match self {
            SettingValue::Dword(value) => {
                let mut text: String = String::new();
                push_decimal(&mut text, *value as u64);
                assert(text@ =~= decimal(*value as nat));
                text
            },
            SettingValue::Qword(value) => {
                let mut text: String = String::new();
                push_decimal(&mut text, *value);
                assert(text@ =~= decimal(*value as nat));
                text
            },
            SettingValue::Sz(text) => text.clone(),
        }
    }

    /// Whether the real hive already holds this exact value, as `reg query`
    /// rendered it.
    #[must_use]
    pub fn matches_raw(&self, raw: &RawSetting) -> (r: bool)
        ensures
            r == self@.matches(raw@),
    {
        if !same(raw.kind.as_str(), self.reg_type()) {
            return false;
        }
        match self {
            SettingValue::Dword(value) => match parse_reg_number(raw.data.as_str()) {
                Some(number) => number == *value as u64,
                None => false,
            },
            SettingValue::Qword(value) => match parse_reg_number(raw.data.as_str()) {
                Some(number) => number == *value,
                None => false,
            },
            SettingValue::Sz(text) => same(raw.data.as_str(), text.as_str()),
        }
    }
}

// ---------------------------------------------------------------------------
// Reading `reg query`
// ---------------------------------------------------------------------------

/// A number as `reg query` prints it: `0x` and hexadecimal digits, or decimal.
pub open spec fn reg_number(text: Seq<char>) -> Option<nat> {
    let number = trimmed(text);
    if begins(number, "0x"@) || begins(number, "0X"@) {
        unsigned_number(number.skip(2), 16)
    } else {
        unsigned_number(number, 10)
    }
}

/// `reg query` renders integers as `0x…`; decimal is accepted too, since nothing
/// guarantees the rendering across Windows builds.
#[must_use]
pub fn parse_reg_number(text: &str) -> (r: Option<u64>)
    ensures
        match r {
            Some(value) => reg_number(text@) == Some(value as nat),
            None => reg_number(text@) is None,
        },
{
    let chars = chars_of(text);
    let number = trim(chars.as_slice());
    proof {
        reveal_strlit("0x");
        reveal_strlit("0X");
    }
    if starts_with(number, "0x") || starts_with(number, "0X") {
        let digits = part(number, 2, number.len());
        assert(digits@ =~= number@.skip(2));
        parse_unsigned(digits, 16)
    } else {
        parse_unsigned(number, 10)
    }
}

/// Every type token `reg query` can print. Only the first three are ever written
/// here; the rest are recognised so that a foreign value on the key is parsed and
/// compared rather than mistaken for part of another line.
pub const REG_TYPES: [&'static str; 7] = [
    "REG_SZ",
    "REG_DWORD",
    "REG_QWORD",
    "REG_EXPAND_SZ",
    "REG_MULTI_SZ",
    "REG_BINARY",
    "REG_NONE",
];

/// The separator between name, type and data.
pub open spec fn gap() -> Seq<char> {
    "    "@
}

/// Where a type token splits a line, and how much it takes. A value with empty
/// data prints the type with nothing after it.
pub open spec fn type_split(line: Seq<char>, kind: Seq<char>) -> Option<(int, int)> {
    let separated = gap() + kind + gap();
    let bare = gap() + kind;
    match first_occurrence(line, separated) {
        Some(at) => Some((at, separated.len() as int)),
        None => match first_occurrence(line, bare) {
            Some(at) => if trimmed(line.skip(at + bare.len())).len() == 0 {
                Some((at, bare.len() as int))
            } else {
                None
            },
            None => None,
        },
    }
}

/// The leftmost split among the first `n` type tokens: the token's index, where it
/// stands, and how much it takes.
pub open spec fn best_split(line: Seq<char>, n: nat) -> Option<(int, int, int)>
    decreases n,
{
    if n == 0 {
        None
    } else {
        let before = best_split(line, (n - 1) as nat);
        match type_split(line, REG_TYPES@[n - 1]@) {
            Some((at, taken)) => if before is None || at < before->Some_0.1 {
                Some((n - 1, at, taken))
            } else {
                before
            },
            None => before,
        }
    }
}

/// A line of `reg query` output as a name, a type and data; `None` for a line that
/// holds no value.
pub open spec fn value_line(line: Seq<char>) -> Option<(Seq<char>, RawText)> {
    match best_split(line, 7) {
        None => None,
        Some((kind, at, taken)) => {
            let name = trimmed(line.take(at));
            if name.len() == 0 {
                None
            } else {
                Some((name, RawText { kind: REG_TYPES@[kind]@, data: line.skip(at + taken) }))
            }
        },
    }
}

/// The values in some lines, in order.
pub open spec fn line_values(lines: Seq<Seq<char>>) -> Seq<(Seq<char>, RawText)>
    decreases lines.len(),
{
    if lines.len() == 0 {
        Seq::empty()
    } else {
        let before = line_values(lines.drop_last());
        match value_line(lines.last()) {
            Some(value) => before.push(value),
            None => before,
        }
    }
}

/// The values that `reg query` output lists.
pub open spec fn query_values(output: Seq<char>) -> Seq<(Seq<char>, RawText)> {
    line_values(lines_of(output))
}

/// Listed values as plain text.
pub open spec fn values_text(values: Seq<(String, RawSetting)>) -> Seq<(Seq<char>, RawText)> {
    values.map_values(|value: (String, RawSetting)| (value.0@, value.1@))
}

fn find_type_split(line: &[char], kind: &str) -> (r: Option<(usize, usize)>)
    ensures
        match r {
            Some((at, taken)) => type_split(line@, kind@) == Some((at as int, taken as int)) && at
                + taken <= line@.len(),
            None => type_split(line@, kind@) is None,
        },
{
    let mut bare: String = "    ".to_owned();
    bare.push_str(kind);
    let mut separated: String = bare.clone();
    separated.push_str("    ");
    let bare = chars_of(bare.as_str());
    let separated = chars_of(separated.as_str());
    match find(line, separated.as_slice()) {
        Some(at) => Some((at, separated.len())),
        None => match find(line, bare.as_slice()) {
            Some(at) => {
                let rest = part(line, at + bare.len(), line.len());
                assert(rest@ =~= line@.skip(at + bare@.len()));
                if trim(rest).len() == 0 {
                    Some((at, bare.len()))
                } else {
                    None
                }
            },
            None => None,
        },
    }
}

/// Splits one `name    TYPE    data` line. `None` for anything that is not a value
/// line.
pub fn split_value_line(line: &[char]) -> (r: Option<(String, RawSetting)>)
    ensures
        match r {
            Some((name, raw)) => value_line(line@) == Some((name@, raw@)),
            None => value_line(line@) is None,
        },
{
    let mut best: Option<(usize, usize, usize)> = None;
    for i in 0..7usize
        invariant
            match best {
                Some((kind, at, taken)) => {
                    &&& best_split(line@, i as nat) == Some((kind as int, at as int, taken as int))
                    &&& kind < 7
                    &&& at + taken <= line@.len()
                },
                None => best_split(line@, i as nat) is None,
            },
    {
        match find_type_split(line, REG_TYPES[i]) {
            Some((at, taken)) => {
                let better = match best {
                    Some((_, previous, _)) => at < previous,
                    None => true,
                };
                if better {
                    best = Some((i, at, taken));
                }
            },
            None => {},
        }
    }
    match best {
        None => None,
        Some((kind, at, taken)) => {
            let front = part(line, 0, at);
            assert(front@ =~= line@.take(at as int));
            let name = trim(front);
            if name.len() == 0 {
                return None;
            }
            let n: usize = line.len();
            let data = part(line, at + taken, n);
            assert(data@ =~= line@.skip(at + taken));
            Some(
                (
                    string_of(name),
                    RawSetting { kind: REG_TYPES[kind].to_owned(), data: string_of(data) },
                ),
            )
        },
    }
}

/// Parses `reg query <key>` output into its `(name, value)` pairs.
///
/// The key header, subkey lines, blank lines and `reg.exe`'s own `ERROR:` text
/// carry no type token and are skipped, so a missing key or value simply yields
/// nothing. The *leftmost* type token between its gaps splits the line, so a value
/// name or a data string containing spaces survives intact.
#[must_use]
pub fn parse_reg_query(output: &str) -> (r: Vec<(String, RawSetting)>)
    ensures
        values_text(r@) == query_values(output@),
{
    let all = lines(chars_of(output).as_slice());
    let ghost text = lines_of(output@);
    let mut values: Vec<(String, RawSetting)> = Vec::new();
    assert(values_text(values@) =~= line_values(text.take(0)));
    for i in 0..all.len()
        invariant
            all@.len() == text.len(),
            forall|j: int| 0 <= j < all@.len() ==> (#[trigger] all@[j])@ == text[j],
            values_text(values@) == line_values(text.take(i as int)),
    {
        proof {
            assert(text.take(i + 1).drop_last() =~= text.take(i as int));
            assert(text.take(i + 1).last() == text[i as int]);
        }
        let ghost before = values_text(values@);
        match split_value_line(all[i].as_slice()) {
            Some((name, raw)) => {
                values.push((name, raw));
                assert(values_text(values@) =~= before.push((name@, raw@)));
            },
            None => {},
        }
    }
    assert(text.take(all@.len() as int) =~= text);
    values
}

// ---------------------------------------------------------------------------
// Mirroring
// ---------------------------------------------------------------------------

/// The first value of that name; registry value names are case-insensitive.
pub open spec fn value_named(values: Seq<(Seq<char>, RawText)>, name: Seq<char>) -> Option<RawText>
    decreases values.len(),
{
    if values.len() == 0 {
        None
    } else if same_ignoring_case(values[0].0, name) {
        Some(values[0].1)
    } else {
        value_named(values.skip(1), name)
    }
}

/// Whether the real hive's copy of a value is missing or different.
pub open spec fn needs_mirroring(
    name: Seq<char>,
    value: SettingText,
    actual: Seq<(Seq<char>, RawText)>,
) -> bool {
    match value_named(actual, name) {
        Some(raw) => !value.matches(raw),
        None => true,
    }
}

/// The names whose real-hive copy is missing or different, in order.
pub open spec fn names_to_mirror(
    merged: Seq<(Seq<char>, SettingText)>,
    actual: Seq<(Seq<char>, RawText)>,
) -> Seq<Seq<char>>
    decreases merged.len(),
{
    if merged.len() == 0 {
        Seq::empty()
    } else {
        let before = names_to_mirror(merged.drop_last(), actual);
        if needs_mirroring(merged.last().0, merged.last().1, actual) {
            before.push(merged.last().0)
        } else {
            before
        }
    }
}

/// Merged settings as plain text.
pub open spec fn merged_text(merged: Seq<(&str, SettingValue)>) -> Seq<(Seq<char>, SettingText)> {
    merged.map_values(|value: (&str, SettingValue)| (value.0@, value.1@))
}

/// Some names as plain text.
pub open spec fn names_text(names: Seq<&str>) -> Seq<Seq<char>> {
    names.map_values(|name: &str| name@)
}

fn is_stale(name: &str, value: &SettingValue, actual: &[(String, RawSetting)]) -> (r: bool)
    ensures
        r == needs_mirroring(name@, value@, values_text(actual@)),
{
    let ghost all = values_text(actual@);
    assert(all.skip(0) =~= all);
    for i in 0..actual.len()
        invariant
            all == values_text(actual@),
            value_named(all, name@) == value_named(all.skip(i as int), name@),
    {
        proof {
            assert(all.skip(i as int)[0] == all[i as int]);
            assert(all.skip(i as int).skip(1) =~= all.skip(i + 1));
        }
        if same_text_ignoring_case(actual[i].0.as_str(), name) {
            return !value.matches_raw(&actual[i].1);
        }
    }
    true
}

/// The names whose real-hive copy is missing or different, in `merged` order.
/// Absence in `merged` is never a delete: a value the packaged app does not hold
/// is simply left alone.
#[must_use]
pub fn sync_plan<'a>(merged: &'a [(&'a str, SettingValue)], actual: &[(String, RawSetting)]) -> (r:
    Vec<&'a str>)
    ensures
        names_text(r@) == names_to_mirror(merged_text(merged@), values_text(actual@)),
{
    let ghost all = merged_text(merged@);
    let ghost hive = values_text(actual@);
    let mut names: Vec<&'a str> = Vec::new();
    assert(names_text(names@) =~= names_to_mirror(all.take(0), hive));
    for i in 0..merged.len()
        invariant
            all == merged_text(merged@),
            hive == values_text(actual@),
            names_text(names@) == names_to_mirror(all.take(i as int), hive),
    {
        proof {
            assert(all.take(i + 1).drop_last() =~= all.take(i as int));
            assert(all.take(i + 1).last() == all[i as int]);
        }
        let ghost before = names_text(names@);
        let name: &'a str = merged[i].0;
        if is_stale(name, &merged[i].1, actual) {
            names.push(name);
            assert(names_text(names@) =~= before.push(name@));
        }
    }
    assert(all.take(all.len() as int) =~= all);
    names
}

// ---------------------------------------------------------------------------
// Writes
// ---------------------------------------------------------------------------

/// One settings write: a value to store under a name, or none to remove it.
#[derive(Debug, Clone, PartialEq, Eq)]
pub struct SettingWrite {
    pub name: String,
    pub value: Option<SettingValue>,
}

/// A settings write as plain text.
pub struct WriteText {
    pub name: Seq<char>,
    pub value: Option<SettingText>,
}

impl View for SettingWrite {
    type V = WriteText;

    open spec fn view(&self) -> WriteText {
        WriteText {
            name: self.name@,
            value: match self.value {
                Some(value) => Some(value@),
                None => None,
            },
        }
    }
}

pub open spec fn write_of(name: Seq<char>, value: SettingText) -> WriteText {
    WriteText { name, value: Some(value) }
}

pub open spec fn removal_of(name: Seq<char>) -> WriteText {
    WriteText { name, value: None }
}

/// The write that stores a `REG_DWORD`.
pub fn set_setting_u32(name: &str, value: u32) -> (r: SettingWrite)
    ensures
        r@ == write_of(name@, SettingText::Dword(value)),
{
    SettingWrite { name: name.to_owned(), value: Some(SettingValue::Dword(value)) }
}

/// The write that stores a `REG_QWORD`.
pub fn set_setting_u64(name: &str, value: u64) -> (r: SettingWrite)
    ensures
        r@ == write_of(name@, SettingText::Qword(value)),
{
    SettingWrite { name: name.to_owned(), value: Some(SettingValue::Qword(value)) }
}

/// The write that stores a `REG_SZ`.
pub fn set_setting_string(name: &str, value: &str) -> (r: SettingWrite)
    ensures
        r@ == write_of(name@, SettingText::Sz(value@)),
{
    SettingWrite { name: name.to_owned(), value: Some(SettingValue::Sz(value.to_owned())) }
}

/// The write that removes a value from every hive [`write_plan`] names. Removing
/// an absent value is success.
pub fn delete_setting(name: &str) -> (r: SettingWrite)
    ensures
        r@ == removal_of(name@),
{
    SettingWrite { name: name.to_owned(), value: None }
}

/// Some argument lists as plain text.
pub open spec fn arguments_text(arguments: Seq<String>) -> Seq<Seq<char>> {
    arguments.map_values(|argument: String| argument@)
}

/// The settings key as `reg.exe` names it.
pub open spec fn key_text() -> Seq<char> {
    "HKCU\\"@ + FSW_SETTINGS_KEY@
}

fn key_argument() -> (r: String)
    ensures
        r@ == key_text(),
{
    let mut key: String = "HKCU\\".to_owned();
    key.push_str(FSW_SETTINGS_KEY);
    key
}

/// The arguments with which `reg.exe` performs a write on the real hive.
pub open spec fn reg_argument_texts(write: WriteText) -> Seq<Seq<char>> {
    match write.value {
        Some(value) => seq![
            "add"@,
            key_text(),
            "/v"@,
            write.name,
            "/t"@,
            value.reg_type(),
            "/d"@,
            value.reg_data(),
            "/f"@,
        ],
        None => seq!["delete"@, key_text(), "/v"@, write.name, "/f"@],
    }
}

/// Whether a value stands in what `reg query` printed about it.
pub open spec fn is_printed(output: Option<Seq<char>>, name: Seq<char>) -> bool {
    output is Some && value_named(query_values(output->Some_0), name) is Some
}

/// What a write does to the real hive, for what `reg query` printed about its value:
/// the arguments of `reg.exe`, or nothing where the value to remove is absent.
pub open spec fn real_step(write: WriteText, output: Option<Seq<char>>) -> Option<Seq<Seq<char>>> {
    if write.value is None && !is_printed(output, write.name) {
        None
    } else {
        Some(reg_argument_texts(write))
    }
}

/// Whether a write changes the hive of this process, where its value is present or
/// not.
pub open spec fn changes_own_hive(write: WriteText, present: bool) -> bool {
    write.value is Some || present
}

impl SettingWrite {
    /// What this write does to the real hive, for what `reg query` printed about its
    /// value. `reg delete` fails on an absent value, so removing one does nothing.
    pub fn real_hive_step(&self, output: Option<&str>) -> (r: Option<Vec<String>>)
        ensures
            match r {
                None => real_step(self@, text_in(output)) is None,
                Some(arguments) => real_step(self@, text_in(output)) == Some(
                    arguments_text(arguments@),
                ),
            },
    {
        if self.value.is_none() && !is_present(output, self.name.as_str()) {
            return None;
        }
        Some(self.reg_arguments())
    }

    /// Whether this write changes the hive of this process, where its value is
    /// present or not. Removing an absent value does nothing.
    pub fn own_hive_step(&self, present: bool) -> (r: bool)
        ensures
            r == changes_own_hive(self@, present),
    {
        self.value.is_some() || present
    }

    /// The arguments with which `reg.exe` performs this write on the real hive.
    pub fn reg_arguments(&self) -> (r: Vec<String>)
        ensures
            arguments_text(r@) == reg_argument_texts(self@),
    {
        let mut arguments: Vec<String> = Vec::new();
        match &self.value {
            Some(value) => {
                arguments.push("add".to_owned());
                arguments.push(key_argument());
                arguments.push("/v".to_owned());
                arguments.push(self.name.clone());
                arguments.push("/t".to_owned());
                arguments.push(value.reg_type().to_owned());
                arguments.push("/d".to_owned());
                arguments.push(value.reg_data());
                arguments.push("/f".to_owned());
                assert(arguments_text(arguments@) =~= seq![
                    "add"@,
                    key_text(),
                    "/v"@,
                    self@.name,
                    "/t"@,
                    value@.reg_type(),
                    "/d"@,
                    value@.reg_data(),
                    "/f"@,
                ]);
            },
            None => {
                arguments.push("delete".to_owned());
                arguments.push(key_argument());
                arguments.push("/v".to_owned());
                arguments.push(self.name.clone());
                arguments.push("/f".to_owned());
                assert(arguments_text(arguments@) =~= seq![
                    "delete"@,
                    key_text(),
                    "/v"@,
                    self@.name,
                    "/f"@,
                ]);
            },
        }
        arguments
    }
}

/// The arguments with which `reg.exe` lists the settings key, or one value of it.
pub fn query_arguments(name: Option<&str>) -> (r: Vec<String>)
    ensures
        arguments_text(r@) == match name {
            Some(name) => seq!["query"@, key_text(), "/v"@, name@],
            None => seq!["query"@, key_text()],
        },
{
    let mut arguments: Vec<String> = Vec::new();
    arguments.push("query".to_owned());
    arguments.push(key_argument());
    match name {
        Some(name) => {
            arguments.push("/v".to_owned());
            arguments.push(name.to_owned());
            assert(arguments_text(arguments@) =~= seq!["query"@, key_text(), "/v"@, name@]);
        },
        None => {
            assert(arguments_text(arguments@) =~= seq!["query"@, key_text()]);
        },
    }
    arguments
}

/// Whether the real hive holds a value of that name, for what `reg query` printed
/// about it (`None` where it gave no answer). `reg delete` reports a failure for
/// an absent value, so a removal asks first.
pub fn is_present(output: Option<&str>, name: &str) -> (r: bool)
    ensures
        r == is_printed(text_in(output), name@),
{
    match output {
        None => false,
        Some(text) => {
            let values = parse_reg_query(text);
            let ghost all = values_text(values@);
            assert(all.skip(0) =~= all);
            for i in 0..values.len()
                invariant
                    all == values_text(values@),
                    all == query_values(text@),
                    output == Some(text),
                    value_named(all, name@) == value_named(all.skip(i as int), name@),
            {
                proof {
                    assert(all.skip(i as int)[0] == all[i as int]);
                    assert(all.skip(i as int).skip(1) =~= all.skip(i + 1));
                }
                if same_text_ignoring_case(values[i].0.as_str(), name) {
                    return true;
                }
            }
            false
        },
    }
}

/// The first failure among some results.
pub open spec fn first_failure(results: Seq<Result<(), u32>>) -> Result<(), u32>
    decreases results.len(),
{
    if results.len() == 0 {
        Ok(())
    } else if results[0] is Err {
        results[0]
    } else {
        first_failure(results.skip(1))
    }
}

/// What the caller of a write hears when every part of it was attempted: the first
/// failure. A half-applied write is worse than a reported error, so no part is
/// skipped because another failed. With no hive to write, nothing fails.
pub fn settle(results: &[Result<(), u32>]) -> (r: Result<(), u32>)
    ensures
        r == first_failure(results@),
{
    assert(results@.skip(0) =~= results@);
    for i in 0..results.len()
        invariant
            first_failure(results@) == first_failure(results@.skip(i as int)),
    {
        proof {
            assert(results@.skip(i as int).skip(1) =~= results@.skip(i + 1));
        }
        if let Err(code) = results[i] {
            return Err(code);
        }
    }
    Ok(())
}

/// How a write on one hive ended, where nothing to do is success.
pub open spec fn ended(answer: Option<Result<(), u32>>) -> Result<(), u32> {
    match answer {
        Some(result) => result,
        None => Ok(()),
    }
}

/// What the caller of a write hears: a packaged process writes the real hive and then
/// its own, any other its own alone, which is the real one.
pub open spec fn write_result(
    packaged: bool,
    real_hive: Option<Result<(), u32>>,
    own_hive: Option<Result<(), u32>>,
) -> Result<(), u32> {
    if packaged {
        first_failure(seq![ended(real_hive), ended(own_hive)])
    } else {
        first_failure(seq![ended(own_hive)])
    }
}

/// Settles a write from how it ended on each hive that was to be written (`None`
/// where there was nothing to do): what the caller hears, and whether the write is
/// announced. Each hive is written whatever became of the other.
pub fn finish_write(
    packaged: bool,
    real_hive: Option<Result<(), u32>>,
    own_hive: Option<Result<(), u32>>,
) -> (r: (Result<(), u32>, bool))
    ensures
        r.0 == write_result(packaged, real_hive, own_hive),
        r.1 == (r.0 is Ok),
{
    let own = match own_hive {
        Some(result) => result,
        None => Ok(()),
    };
    let result = match write_plan(packaged) {
        WritePlan::RealOnly => {
            let results = vec![own];
            assert(results@ =~= seq![ended(own_hive)]);
            settle(results.as_slice())
        },
        WritePlan::Both => {
            let other = match real_hive {
                Some(result) => result,
                None => Ok(()),
            };
            let results = vec![other, own];
            assert(results@ =~= seq![ended(real_hive), ended(own_hive)]);
            settle(results.as_slice())
        },
    };
    let announced = is_announced(&result);
    (result, announced)
}

/// Whether a write is announced to the other components: exactly one that landed.
/// Re-reading after a failed write would show the same state twice while claiming
/// that something changed.
pub fn is_announced(result: &Result<(), u32>) -> (r: bool)
    ensures
        r == (*result is Ok),
{
    match result {
        Ok(_) => true,
        Err(_) => false,
    }
}

/// The raw values of the settings key, as far as they are there.
#[derive(Debug, Clone, PartialEq, Eq)]
pub struct StoredSettings {
    pub disabled: Option<u32>,
    pub bare_slash_mode: Option<u32>,
    pub auto_update: Option<u32>,
    pub last_update_check: Option<u64>,
    pub bare_slash_distribution: Option<String>,
    pub bare_slash_root: Option<String>,
    pub available_update: Option<String>,
}

impl Default for StoredSettings {
    fn default() -> (r: Self)
        ensures
            r == (StoredSettings {
                disabled: None,
                bare_slash_mode: None,
                auto_update: None,
                last_update_check: None,
                bare_slash_distribution: None,
                bare_slash_root: None,
                available_update: None,
            }),
    {
        StoredSettings {
            disabled: None,
            bare_slash_mode: None,
            auto_update: None,
            last_update_check: None,
            bare_slash_distribution: None,
            bare_slash_root: None,
            available_update: None,
        }
    }
}

pub open spec fn dword_entry(name: Seq<char>, value: Option<u32>) -> Seq<(Seq<char>, SettingText)> {
    match value {
        Some(data) => seq![(name, SettingText::Dword(data))],
        None => Seq::empty(),
    }
}

pub open spec fn qword_entry(name: Seq<char>, value: Option<u64>) -> Seq<(Seq<char>, SettingText)> {
    match value {
        Some(data) => seq![(name, SettingText::Qword(data))],
        None => Seq::empty(),
    }
}

/// An empty string counts as absent, as every reader has it.
pub open spec fn text_entry(name: Seq<char>, value: Option<String>) -> Seq<
    (Seq<char>, SettingText),
> {
    match value {
        Some(data) => if data@.len() == 0 {
            Seq::empty()
        } else {
            seq![(name, SettingText::Sz(data@))]
        },
        None => Seq::empty(),
    }
}

/// Everything the merged view holds, in the order in which it is mirrored.
pub open spec fn merged_entries(stored: StoredSettings) -> Seq<(Seq<char>, SettingText)> {
    dword_entry(FSW_DISABLED_VALUE@, stored.disabled) + dword_entry(
        FSW_BARE_SLASH_MODE_VALUE@,
        stored.bare_slash_mode,
    ) + dword_entry(AUTO_UPDATE_VALUE@, stored.auto_update) + qword_entry(
        LAST_UPDATE_CHECK_VALUE@,
        stored.last_update_check,
    ) + text_entry(FSW_BARE_SLASH_DISTRIBUTION_VALUE@, stored.bare_slash_distribution) + text_entry(
        FSW_BARE_SLASH_ROOT_VALUE@,
        stored.bare_slash_root,
    ) + text_entry(AVAILABLE_UPDATE_VALUE@, stored.available_update)
}

fn add_dword(values: &mut Vec<(&'static str, SettingValue)>, name: &'static str, value: Option<u32>)
    ensures
        merged_text(final(values)@) == merged_text(old(values)@) + dword_entry(name@, value),
{
    let ghost before = merged_text(values@);
    if let Some(data) = value {
        values.push((name, SettingValue::Dword(data)));
    }
    assert(merged_text(values@) =~= before + dword_entry(name@, value));
}

fn add_qword(values: &mut Vec<(&'static str, SettingValue)>, name: &'static str, value: Option<u64>)
    ensures
        merged_text(final(values)@) == merged_text(old(values)@) + qword_entry(name@, value),
{
    let ghost before = merged_text(values@);
    if let Some(data) = value {
        values.push((name, SettingValue::Qword(data)));
    }
    assert(merged_text(values@) =~= before + qword_entry(name@, value));
}

fn add_text(
    values: &mut Vec<(&'static str, SettingValue)>,
    name: &'static str,
    value: &Option<String>,
)
    ensures
        merged_text(final(values)@) == merged_text(old(values)@) + text_entry(name@, *value),
{
    let ghost before = merged_text(values@);
    if let Some(data) = value {
        if !data.as_str().is_empty() {
            values.push((name, SettingValue::Sz(data.clone())));
        }
    }
    assert(merged_text(values@) =~= before + text_entry(name@, *value));
}

/// Everything the merged view holds, in the order in which it is mirrored. Values
/// that are absent, or an empty string, are left out, so that mirroring can never
/// invent one.
pub fn merged_settings(stored: &StoredSettings) -> (r: Vec<(&'static str, SettingValue)>)
    ensures
        merged_text(r@) == merged_entries(*stored),
{
    let mut values: Vec<(&'static str, SettingValue)> = Vec::new();
    assert(merged_text(values@) =~= Seq::empty());
    add_dword(&mut values, FSW_DISABLED_VALUE, stored.disabled);
    add_dword(&mut values, FSW_BARE_SLASH_MODE_VALUE, stored.bare_slash_mode);
    add_dword(&mut values, AUTO_UPDATE_VALUE, stored.auto_update);
    add_qword(&mut values, LAST_UPDATE_CHECK_VALUE, stored.last_update_check);
    add_text(&mut values, FSW_BARE_SLASH_DISTRIBUTION_VALUE, &stored.bare_slash_distribution);
    add_text(&mut values, FSW_BARE_SLASH_ROOT_VALUE, &stored.bare_slash_root);
    add_text(&mut values, AVAILABLE_UPDATE_VALUE, &stored.available_update);
    assert(merged_text(values@) =~= merged_entries(*stored));
    values
}

/// The writes that mirror some merged settings, each where the real hive's copy is
/// missing or different, in order.
pub open spec fn mirror_writes(
    merged: Seq<(Seq<char>, SettingText)>,
    actual: Seq<(Seq<char>, RawText)>,
) -> Seq<WriteText>
    decreases merged.len(),
{
    if merged.len() == 0 {
        Seq::empty()
    } else {
        let before = mirror_writes(merged.drop_last(), actual);
        let (name, value) = merged.last();
        if needs_mirroring(name, value, actual) {
            before.push(write_of(name, value))
        } else {
            before
        }
    }
}

/// Some writes as plain text.
pub open spec fn writes_text(writes: Seq<SettingWrite>) -> Seq<WriteText> {
    writes.map_values(|write: SettingWrite| write@)
}

fn copy_value(value: &SettingValue) -> (r: SettingValue)
    ensures
        r@ == value@,
{
    match value {
        SettingValue::Dword(data) => SettingValue::Dword(*data),
        SettingValue::Qword(data) => SettingValue::Qword(*data),
        SettingValue::Sz(text) => SettingValue::Sz(text.clone()),
    }
}

/// The real-hive writes that bring it in step with the packaged app's settings, so
/// that the unpackaged shell adapters read what the app actually holds.
///
/// Only a packaged process has both views; unpackaged there is one hive and
/// nothing to mirror. The merged view wins on purpose: the packaged app wrote it.
/// Nothing is ever removed.
pub fn sync_settings_to_real_hive(
    packaged: bool,
    stored: &StoredSettings,
    actual: &[(String, RawSetting)],
) -> (r: Vec<SettingWrite>)
    ensures
        writes_text(r@) == if packaged {
            mirror_writes(merged_entries(*stored), values_text(actual@))
        } else {
            Seq::empty()
        },
{
    let mut writes: Vec<SettingWrite> = Vec::new();
    if !packaged {
        assert(writes_text(writes@) =~= Seq::empty());
        return writes;
    }
    let merged = merged_settings(stored);
    let ghost all = merged_text(merged@);
    let ghost hive = values_text(actual@);
    assert(writes_text(writes@) =~= mirror_writes(all.take(0), hive));
    for i in 0..merged.len()
        invariant
            all == merged_text(merged@),
            hive == values_text(actual@),
            writes_text(writes@) == mirror_writes(all.take(i as int), hive),
    {
        proof {
            assert(all.take(i + 1).drop_last() =~= all.take(i as int));
            assert(all.take(i + 1).last() == all[i as int]);
        }
        let ghost before = writes_text(writes@);
        let name: &'static str = merged[i].0;
        if is_stale(name, &merged[i].1, actual) {
            let write = SettingWrite {
                name: name.to_owned(),
                value: Some(copy_value(&merged[i].1)),
            };
            assert(write@ == write_of(all[i as int].0, all[i as int].1));
            writes.push(write);
            assert(writes_text(writes@) =~= before.push(write@));
        }
    }
    assert(all.take(all.len() as int) =~= all);
    writes
}

/// The pause flag as it is written: one for paused, zero for not.
pub open spec fn disabled_write(disabled: bool) -> WriteText {
    write_of(
        FSW_DISABLED_VALUE@,
        SettingText::Dword(
            if disabled {
                1
            } else {
                0
            },
        ),
    )
}

/// The Automatic updates switch as it is written: one for off, zero for on.
pub open spec fn auto_update_write(enabled: bool) -> WriteText {
    write_of(
        AUTO_UPDATE_VALUE@,
        SettingText::Dword(
            if enabled {
                0
            } else {
                1
            },
        ),
    )
}

/// The recorded update as it is written, or taken away.
pub open spec fn offer_write(tag: Option<Seq<char>>) -> WriteText {
    match tag {
        Some(text) => write_of(AVAILABLE_UPDATE_VALUE@, SettingText::Sz(text)),
        None => removal_of(AVAILABLE_UPDATE_VALUE@),
    }
}

/// The time of a check as it is written.
pub open spec fn attempt_write(now: u64) -> WriteText {
    write_of(LAST_UPDATE_CHECK_VALUE@, SettingText::Qword(now))
}

/// The write that persists the global pause flag.
pub fn persist_disabled(disabled: bool) -> (r: SettingWrite)
    ensures
        r@ == write_of(
            FSW_DISABLED_VALUE@,
            SettingText::Dword(
                if disabled {
                    1
                } else {
                    0
                },
            ),
        ),
        r@ == disabled_write(disabled),
{
    set_setting_u32(
        FSW_DISABLED_VALUE,
        if disabled {
            1
        } else {
            0
        },
    )
}

/// The writes of the three bare-slash settings, in order.
pub open spec fn bare_slash_writes(
    default_mode: bool,
    pinned_distribution: Seq<char>,
    root: Option<Seq<char>>,
) -> Seq<WriteText> {
    seq![
        write_of(
            FSW_BARE_SLASH_MODE_VALUE@,
            SettingText::Dword(
                if default_mode {
                    1
                } else {
                    0
                },
            ),
        ),
        if default_mode && pinned_distribution.len() > 0 {
            write_of(FSW_BARE_SLASH_DISTRIBUTION_VALUE@, SettingText::Sz(pinned_distribution))
        } else {
            removal_of(FSW_BARE_SLASH_DISTRIBUTION_VALUE@)
        },
        if root is Some && root->Some_0.len() > 0 {
            write_of(FSW_BARE_SLASH_ROOT_VALUE@, SettingText::Sz(root->Some_0))
        } else {
            removal_of(FSW_BARE_SLASH_ROOT_VALUE@)
        },
    ]
}

/// The writes that update the bare-slash settings: the mode, the pin, and the
/// root. All three are attempted whatever the others do.
pub fn write_bare_slash_settings(default_mode: bool, pinned_distribution: &str, root: Option<&str>) -> (r:
    Vec<SettingWrite>)
    ensures
        writes_text(r@) == bare_slash_writes(default_mode, pinned_distribution@, text_in(root)),
{
    let mode = set_setting_u32(
        FSW_BARE_SLASH_MODE_VALUE,
        if default_mode {
            1
        } else {
            0
        },
    );
    let pinned = if default_mode && !pinned_distribution.is_empty() {
        set_setting_string(FSW_BARE_SLASH_DISTRIBUTION_VALUE, pinned_distribution)
    } else {
        delete_setting(FSW_BARE_SLASH_DISTRIBUTION_VALUE)
    };
    let configured_root = match root {
        Some(path) => if !path.is_empty() {
            set_setting_string(FSW_BARE_SLASH_ROOT_VALUE, path)
        } else {
            delete_setting(FSW_BARE_SLASH_ROOT_VALUE)
        },
        None => delete_setting(FSW_BARE_SLASH_ROOT_VALUE),
    };
    let ghost expected = seq![mode@, pinned@, configured_root@];
    let mut writes: Vec<SettingWrite> = Vec::new();
    writes.push(mode);
    writes.push(pinned);
    writes.push(configured_root);
    assert(writes_text(writes@) =~= expected);
    writes
}

/// The write that records the Automatic updates switch, stored as the disabled
/// flag.
pub fn set_auto_update_enabled(enabled: bool) -> (r: SettingWrite)
    ensures
        r@ == write_of(
            AUTO_UPDATE_VALUE@,
            SettingText::Dword(
                if enabled {
                    0
                } else {
                    1
                },
            ),
        ),
        r@ == auto_update_write(enabled),
{
    set_setting_u32(
        AUTO_UPDATE_VALUE,
        if enabled {
            0
        } else {
            1
        },
    )
}

/// The write that clears the persisted update notice when the user dismisses it.
pub fn dismiss_update() -> (r: SettingWrite)
    ensures
        r@ == removal_of(AVAILABLE_UPDATE_VALUE@),
        r@ == offer_write(None),
{
    delete_setting(AVAILABLE_UPDATE_VALUE)
}

/// The write that clears the cached tag when the running version is current.
pub fn clear_cached_update_tag() -> (r: SettingWrite)
    ensures
        r@ == removal_of(AVAILABLE_UPDATE_VALUE@),
        r@ == offer_write(None),
{
    delete_setting(AVAILABLE_UPDATE_VALUE)
}

/// The write that records the tag (GitHub) or version (Store) an update would move
/// to.
pub fn set_cached_update_tag(tag: &str) -> (r: SettingWrite)
    ensures
        r@ == write_of(AVAILABLE_UPDATE_VALUE@, SettingText::Sz(tag@)),
        r@ == offer_write(Some(tag@)),
{
    set_setting_string(AVAILABLE_UPDATE_VALUE, tag)
}

/// The write that records a check attempt, whatever its outcome: an offline or
/// rate-limited launch must not retry per launch.
pub fn note_check_attempt(now: u64) -> (r: SettingWrite)
    ensures
        r@ == write_of(LAST_UPDATE_CHECK_VALUE@, SettingText::Qword(now)),
        r@ == attempt_write(now),
{
    set_setting_u64(LAST_UPDATE_CHECK_VALUE, now)
}

// ---------------------------------------------------------------------------
// Laws
// ---------------------------------------------------------------------------

/// Removing a setting that is absent from every hive changes none of them, and is
/// success.
pub proof fn law_removing_an_absent_setting_is_success(
    name: Seq<char>,
    output: Option<Seq<char>>,
    packaged: bool,
)
    requires
        !is_printed(output, name),
    ensures
        real_step(removal_of(name), output) is None,
        !changes_own_hive(removal_of(name), false),
        write_result(packaged, None, None) is Ok,
{
    reveal_with_fuel(first_failure, 3);
    let fine: Result<(), u32> = Ok(());
    assert(seq![fine, fine].skip(1) =~= seq![fine]);
}

/// A write that failed on the real hive is reported as that failure, else as the
/// failure on the process's own, and only a write that failed on neither succeeds.
pub proof fn law_the_first_failing_hive_is_reported(
    real_hive: Option<Result<(), u32>>,
    own_hive: Option<Result<(), u32>>,
)
    ensures
        write_result(true, real_hive, own_hive) == if ended(real_hive) is Err {
            ended(real_hive)
        } else {
            ended(own_hive)
        },
        write_result(false, real_hive, own_hive) == ended(own_hive),
{
    reveal_with_fuel(first_failure, 3);
    let both = seq![ended(real_hive), ended(own_hive)];
    assert(both.skip(1) =~= seq![ended(own_hive)]);
    assert(seq![ended(own_hive)].skip(1) =~= Seq::<Result<(), u32>>::empty());
    let last = seq![ended(own_hive)];
    assert(last[0] == ended(own_hive));
    assert(first_failure(last) == ended(own_hive)) by {
        if let Ok(done) = ended(own_hive) {
            assert(done == ());
        }
    }
}

proof fn lemma_decimal_digits(value: nat)
    ensures
        radix_value(decimal(value), 10) == value,
        forall|i: int|
            0 <= i < decimal(value).len() ==> digit_value(#[trigger] decimal(value)[i]) < 10,
    decreases value,
{
    let s = decimal(value);
    law_decimal_round_trip(value);
    assert forall|i: int| 0 <= i < s.len() implies digit_value(#[trigger] s[i]) < 10 by {
        assert(is_digit(s[i]));
    }
    if value < 10 {
        assert(s.drop_last() =~= Seq::<char>::empty());
        assert(radix_value(Seq::<char>::empty(), 10) == 0);
    } else {
        lemma_decimal_digits(value / 10);
        assert(s.drop_last() =~= decimal(value / 10));
    }
}

proof fn lemma_decimal_reads_back(value: nat)
    requires
        value <= u64::MAX,
    ensures
        reg_number(decimal(value)) == Some(value),
{
    let s = decimal(value);
    law_decimal_round_trip(value);
    lemma_decimal_digits(value);
    assert(is_digit(s[0]));
    assert(is_digit(s[s.len() - 1]));
    assert(trimmed(s) == s);
    reveal_strlit("0x");
    reveal_strlit("0X");
    if begins(s, "0x"@) {
        assert(s.subrange(0, 2)[1] == 'x');
        assert(is_digit(s[1]));
    }
    if begins(s, "0X"@) {
        assert(s.subrange(0, 2)[1] == 'X');
        assert(is_digit(s[1]));
    }
}

/// A value that was written with its `reg add` arguments is recognised as the same
/// value when it is read back that way.
pub proof fn law_written_values_match(value: SettingText)
    ensures
        value.matches(RawText { kind: value.reg_type(), data: value.reg_data() }),
{
    match value {
        SettingText::Dword(data) => {
            lemma_decimal_reads_back(data as nat);
        },
        SettingText::Qword(data) => {
            lemma_decimal_reads_back(data as nat);
        },
        SettingText::Sz(_) => {},
    }
}

/// Mirroring writes nothing exactly when every merged value already stands in the
/// real hive, and it only ever writes: it removes nothing.
pub proof fn law_mirroring_stops_when_the_hives_agree(
    merged: Seq<(Seq<char>, SettingText)>,
    actual: Seq<(Seq<char>, RawText)>,
)
    ensures
        mirror_writes(merged, actual).len() == 0 <==> forall|i: int|
            0 <= i < merged.len() ==> !needs_mirroring(
                (#[trigger] merged[i]).0,
                merged[i].1,
                actual,
            ),
        forall|i: int|
            0 <= i < mirror_writes(merged, actual).len() ==> (#[trigger] mirror_writes(
                merged,
                actual,
            )[i]).value is Some,
    decreases merged.len(),
{
    if merged.len() > 0 {
        let init = merged.drop_last();
        law_mirroring_stops_when_the_hives_agree(init, actual);
        assert(forall|i: int| 0 <= i < init.len() ==> init[i] == merged[i]);
        if mirror_writes(merged, actual).len() == 0 {
            assert forall|i: int| 0 <= i < merged.len() implies !needs_mirroring(
                (#[trigger] merged[i]).0,
                merged[i].1,
                actual,
            ) by {
                if i < init.len() {
                    assert(init[i] == merged[i]);
                }
            }
        }
        if forall|i: int|
            0 <= i < merged.len() ==> !needs_mirroring(
                (#[trigger] merged[i]).0,
                merged[i].1,
                actual,
            ) {
            assert(!needs_mirroring(
                merged[merged.len() - 1].0,
                merged[merged.len() - 1].1,
                actual,
            ));
        }
    }
}

/// The names of the mirroring writes are the names whose copy differs.
pub proof fn law_mirroring_writes_the_planned_names(
    merged: Seq<(Seq<char>, SettingText)>,
    actual: Seq<(Seq<char>, RawText)>,
)
    ensures
        mirror_writes(merged, actual).map_values(|write: WriteText| write.name)
            == names_to_mirror(merged, actual),
    decreases merged.len(),
{
    if merged.len() > 0 {
        law_mirroring_writes_the_planned_names(merged.drop_last(), actual);
    }
    assert(mirror_writes(merged, actual).map_values(|write: WriteText| write.name)
        =~= names_to_mirror(merged, actual));
}

/// The switch reads back as it was recorded, for either flavor.
pub proof fn law_auto_update_round_trip(enabled: bool, store_flavor: bool)
    ensures
        auto_update_setting(
            Some(
                if enabled {
                    0u32
                } else {
                    1u32
                },
            ),
            store_flavor,
        ) == enabled,
{
}

}
