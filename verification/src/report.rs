//! What an update verb answers: one line of JSON, or a few for a person.

use crate::options::Route;
use crate::text::{chars_of, decimal, hex_lower, push_decimal, push_hex_lower, string_in};
use vstd::prelude::*;

verus! {

// ---------------------------------------------------------------------------
// JSON
// ---------------------------------------------------------------------------

/// A character inside a JSON string.
pub open spec fn escaped_char(c: char) -> Seq<char> {
    if c == '"' {
        seq!['\\', '"']
    } else if c == '\\' {
        seq!['\\', '\\']
    } else if c == '\n' {
        seq!['\\', 'n']
    } else if c == '\r' {
        seq!['\\', 'r']
    } else if c == '\t' {
        seq!['\\', 't']
    } else if c <= '\u{1f}' {
        seq!['\\', 'u'] + hex_lower(c as u32 as nat, 4)
    } else {
        seq![c]
    }
}

/// A text inside a JSON string.
pub open spec fn escaped(text: Seq<char>) -> Seq<char>
    decreases text.len(),
{
    if text.len() == 0 {
        Seq::empty()
    } else {
        escaped(text.drop_last()) + escaped_char(text.last())
    }
}

fn push_escaped(s: &mut String, text: &str)
    ensures
        final(s)@ == old(s)@ + escaped(text@),
{
    let chars = chars_of(text);
    for i in 0..chars.len()
        invariant
            chars@ == text@,
            s@ == old(s)@ + escaped(text@.take(i as int)),
    {
        let c = chars[i];
        let ghost before = s@;
        proof {
            assert(text@.take(i + 1).drop_last() =~= text@.take(i as int));
            assert(text@.take(i + 1).last() == c);
        }
        if c == '"' || c == '\\' {
            s.push('\\');
            s.push(c);
            assert(s@ =~= before + escaped_char(c));
        } else if c == '\n' {
            s.push('\\');
            s.push('n');
            assert(s@ =~= before + escaped_char(c));
        } else if c == '\r' {
            s.push('\\');
            s.push('r');
            assert(s@ =~= before + escaped_char(c));
        } else if c == '\t' {
            s.push('\\');
            s.push('t');
            assert(s@ =~= before + escaped_char(c));
        } else if c <= '\u{1f}' {
            s.push('\\');
            s.push('u');
            push_hex_lower(s, c as u32 as u64, 4);
            assert(s@ =~= before + escaped_char(c));
        } else {
            s.push(c);
            assert(s@ =~= before + escaped_char(c));
        }
        assert(s@ =~= old(s)@ + escaped(text@.take(i + 1)));
    }
    assert(text@.take(text@.len() as int) =~= text@);
}

/// A text as the inside of a JSON string.
pub fn json_escape(text: &str) -> (r: String)
    ensures
        r@ == escaped(text@),
{
    let mut s: String = String::new();
    push_escaped(&mut s, text);
    assert(s@ =~= escaped(text@));
    s
}

/// The one JSON line every `--json` verb prints. Field order is part of the
/// contract.
#[derive(Debug, Clone)]
pub struct UpdateJson<'a> {
    pub flavor: &'a str,
    pub state: &'a str,
    pub available: Option<&'a str>,
    pub auto_update: bool,
    pub last_check: Option<u64>,
    pub route: Option<&'a str>,
    pub action: Option<&'a str>,
    pub detail: Option<&'a str>,
}

/// A JSON string.
pub open spec fn json_string(text: Seq<char>) -> Seq<char> {
    "\""@ + escaped(text) + "\""@
}

/// A JSON string, or `null`.
pub open spec fn json_or_null(text: Option<Seq<char>>) -> Seq<char> {
    match text {
        Some(value) => json_string(value),
        None => "null"@,
    }
}

pub open spec fn json_bool(value: bool) -> Seq<char> {
    if value {
        "true"@
    } else {
        "false"@
    }
}

pub open spec fn json_number_or_null(value: Option<u64>) -> Seq<char> {
    match value {
        Some(number) => decimal(number as nat),
        None => "null"@,
    }
}

/// The JSON line of some fields.
pub open spec fn json_line(
    flavor: Seq<char>,
    state: Seq<char>,
    available: Option<Seq<char>>,
    auto_update: bool,
    last_check: Option<u64>,
    route: Option<Seq<char>>,
    action: Option<Seq<char>>,
    detail: Option<Seq<char>>,
) -> Seq<char> {
    "{\"flavor\":"@ + json_string(flavor) + ",\"state\":"@ + json_string(state)
        + ",\"available\":"@ + json_or_null(available) + ",\"autoUpdate\":"@ + json_bool(
        auto_update,
    ) + ",\"lastUpdateCheck\":"@ + json_number_or_null(last_check) + ",\"route\":"@
        + json_or_null(route) + ",\"action\":"@ + json_or_null(action) + ",\"detail\":"@
        + json_or_null(detail) + "}"@
}

fn push_string(s: &mut String, text: &str)
    ensures
        final(s)@ == old(s)@ + json_string(text@),
{
    s.push_str("\"");
    push_escaped(s, text);
    s.push_str("\"");
    assert(s@ =~= old(s)@ + json_string(text@));
}

fn push_string_or_null(s: &mut String, text: Option<&str>)
    ensures
        final(s)@ == old(s)@ + json_or_null(crate::path::text_in(text)),
{
    match text {
        Some(value) => push_string(s, value),
        None => s.push_str("null"),
    }
}

/// Renders the JSON line.
#[must_use]
pub fn render_json(fields: &UpdateJson) -> (r: String)
    ensures
        r@ == json_line(
            fields.flavor@,
            fields.state@,
            crate::path::text_in(fields.available),
            fields.auto_update,
            fields.last_check,
            crate::path::text_in(fields.route),
            crate::path::text_in(fields.action),
            crate::path::text_in(fields.detail),
        ),
{
    let mut s: String = "{\"flavor\":".to_owned();
    push_string(&mut s, fields.flavor);
    s.push_str(",\"state\":");
    push_string(&mut s, fields.state);
    s.push_str(",\"available\":");
    push_string_or_null(&mut s, fields.available);
    s.push_str(",\"autoUpdate\":");
    s.push_str(
        if fields.auto_update {
            "true"
        } else {
            "false"
        },
    );
    s.push_str(",\"lastUpdateCheck\":");
    match fields.last_check {
        Some(number) => push_decimal(&mut s, number),
        None => s.push_str("null"),
    }
    s.push_str(",\"route\":");
    push_string_or_null(&mut s, fields.route);
    s.push_str(",\"action\":");
    push_string_or_null(&mut s, fields.action);
    s.push_str(",\"detail\":");
    push_string_or_null(&mut s, fields.detail);
    s.push_str("}");
    s
}

/// The flavor's name.
pub open spec fn flavor_text(packaged: bool, store_flavor: bool) -> Seq<char> {
    if !packaged {
        "unpackaged"@
    } else if store_flavor {
        "store"@
    } else {
        "github"@
    }
}

/// `store` / `github` / `unpackaged`: the discriminator every caller keys on.
#[must_use]
pub fn flavor_name(packaged: bool, store_flavor: bool) -> (r: &'static str)
    ensures
        r@ == flavor_text(packaged, store_flavor),
{
    if !packaged {
        "unpackaged"
    } else if store_flavor {
        "store"
    } else {
        "github"
    }
}

// ---------------------------------------------------------------------------
// Reports
// ---------------------------------------------------------------------------

/// One verb's answer: what it says, and the exit code.
#[derive(Debug, Clone, PartialEq, Eq)]
pub struct Report {
    pub state: &'static str,
    pub available: Option<String>,
    pub route: Option<Route>,
    pub action: Option<&'static str>,
    pub detail: Option<String>,
    pub code: i32,
}

/// A report as plain text.
pub struct ReportText {
    pub state: Seq<char>,
    pub available: Option<Seq<char>>,
    pub route: Option<Route>,
    pub action: Option<Seq<char>>,
    pub detail: Option<Seq<char>>,
    pub code: i32,
}

impl View for Report {
    type V = ReportText;

    open spec fn view(&self) -> ReportText {
        ReportText {
            state: self.state@,
            available: string_in(self.available),
            route: self.route,
            action: crate::path::text_in(self.action),
            detail: string_in(self.detail),
            code: self.code,
        }
    }
}

/// A report with nothing but a state and a code.
pub open spec fn plain_report(state: Seq<char>, code: i32) -> ReportText {
    ReportText { state, available: None, route: None, action: None, detail: None, code }
}

/// What a report says: its own detail outranks what the helper's result file had
/// to say.
pub open spec fn told_detail(report: ReportText, folded: Option<Seq<char>>) -> Option<Seq<char>> {
    if report.detail is Some {
        report.detail
    } else {
        folded
    }
}

pub open spec fn route_text(route: Option<Route>) -> Option<Seq<char>> {
    match route {
        Some(route) => Some(route.name_text()),
        None => None,
    }
}

/// A line for a person, where there is something to say.
pub open spec fn line_if(label: Seq<char>, text: Option<Seq<char>>) -> Seq<char> {
    match text {
        Some(value) => label + value + "\n"@,
        None => Seq::empty(),
    }
}

/// The lines for a person.
pub open spec fn human_text(report: ReportText, folded: Option<Seq<char>>) -> Seq<char> {
    "state: "@ + report.state + "\n"@ + line_if("available: "@, report.available) + line_if(
        "route: "@,
        route_text(report.route),
    ) + line_if(""@, told_detail(report, folded))
}

/// What the installation knows of itself when a verb answers.
#[derive(Debug, Clone, Copy, PartialEq, Eq)]
pub struct Installation {
    pub packaged: bool,
    pub store_flavor: bool,
    pub auto_update: bool,
    pub last_check: Option<u64>,
}

/// What a verb prints.
pub open spec fn printed_text(
    report: ReportText,
    json: bool,
    folded: Option<Seq<char>>,
    installation: Installation,
) -> Seq<char> {
    if json {
        json_line(
            flavor_text(installation.packaged, installation.store_flavor),
            report.state,
            report.available,
            installation.auto_update,
            installation.last_check,
            route_text(report.route),
            report.action,
            told_detail(report, folded),
        ) + "\n"@
    } else {
        human_text(report, folded)
    }
}

fn push_line(s: &mut String, label: &str, text: Option<&str>)
    ensures
        final(s)@ == old(s)@ + line_if(label@, crate::path::text_in(text)),
{
    match text {
        Some(value) => {
            s.push_str(label);
            s.push_str(value);
            s.push_str("\n");
            assert(s@ =~= old(s)@ + line_if(label@, Some(value@)));
        },
        None => {
            assert(s@ =~= old(s)@ + line_if(label@, None));
        },
    }
}

impl Report {
    pub fn new(state: &'static str, code: i32) -> (r: Self)
        ensures
            r@ == plain_report(state@, code),
    {
        Report { state, available: None, route: None, action: None, detail: None, code }
    }

    pub fn route(self, route: Route) -> (r: Self)
        ensures
            r@ == (ReportText { route: Some(route), ..self@ }),
    {
        Report { route: Some(route), ..self }
    }

    pub fn action(self, action: &'static str) -> (r: Self)
        ensures
            r@ == (ReportText { action: Some(action@), ..self@ }),
    {
        Report { action: Some(action), ..self }
    }

    pub fn detail(self, detail: String) -> (r: Self)
        ensures
            r@ == (ReportText { detail: Some(detail@), ..self@ }),
    {
        Report { detail: Some(detail), ..self }
    }

    pub fn available(self, available: Option<String>) -> (r: Self)
        ensures
            r@ == (ReportText { available: string_in(available), ..self@ }),
    {
        Report { available, ..self }
    }

    /// What the verb prints. `folded` is whatever the helper's result file had to
    /// say; the report's own detail outranks it.
    pub fn emit(&self, json: bool, folded: Option<&str>, installation: &Installation) -> (r: String)
        ensures
            r@ == printed_text(self@, json, crate::path::text_in(folded), *installation),
    {
        let detail = match &self.detail {
            Some(text) => Some(text.as_str()),
            None => folded,
        };
        let available = match &self.available {
            Some(text) => Some(text.as_str()),
            None => None,
        };
        let route = match self.route {
            Some(route) => Some(route.name()),
            None => None,
        };
        if json {
            let mut s = render_json(
                &UpdateJson {
                    flavor: flavor_name(installation.packaged, installation.store_flavor),
                    state: self.state,
                    available,
                    auto_update: installation.auto_update,
                    last_check: installation.last_check,
                    route,
                    action: self.action,
                    detail,
                },
            );
            s.push_str("\n");
            return s;
        }
        let mut s: String = "state: ".to_owned();
        s.push_str(self.state);
        s.push_str("\n");
        push_line(&mut s, "available: ", available);
        push_line(&mut s, "route: ", route);
        push_line(&mut s, "", detail);
        s
    }
}

}
