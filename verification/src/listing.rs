//! What the commands print: the models of a provider and the saved sessions.
use crate::session::{SessionSummary, SummaryModel};
use crate::text::{concat2, concat3, decimal, decimal_of, join, joined, owned};
use crate::types::{ModelProfile, ProfileModel};
use crate::words::{char_count, first, first_chars, repeat, repeated, shorten, shortened};
use vstd::prelude::*;

verus! {

pub const MODELS_HEADING: &'static str = "MODEL                            CONTEXT     OUTPUT   EFFORTS";

pub const SESSIONS_HEADING: &'static str = "ID                                    UPDATED     PROVIDER/MODEL                 TITLE";

/// A text with blanks behind it up to a number of characters.
pub open spec fn padded(s: Seq<char>, n: nat) -> Seq<char> {
    s + repeat(" "@, if s.len() < n {
        (n - s.len()) as nat
    } else {
        0
    })
}

pub fn pad(s: &str, n: usize) -> (r: String)
    ensures
        r@ == padded(s@, n as nat),
{
    let count: usize = char_count(s);
    let blanks: usize = n.saturating_sub(count);
    concat2(s, repeated(" ", blanks).as_str())
}

/// A text with blanks in front of it up to a number of characters.
pub open spec fn indented(s: Seq<char>, n: nat) -> Seq<char> {
    repeat(" "@, if s.len() < n {
        (n - s.len()) as nat
    } else {
        0
    }) + s
}

fn indent(s: &str, n: usize) -> (r: String)
    ensures
        r@ == indented(s@, n as nat),
{
    let count: usize = char_count(s);
    let blanks: usize = n.saturating_sub(count);
    concat2(repeated(" ", blanks).as_str(), s)
}

pub fn truncate_with_ellipsis(value: &str, max_chars: usize) -> (r: String)
    ensures
        r@ == shortened(value@, max_chars as nat),
{
    shorten(value, max_chars)
}

/// A model in the list of models.
pub open spec fn model_row(model: ProfileModel) -> Seq<char> {
    padded(shortened(model.id, 32), 32) + " "@ + indented(decimal(model.context_window as nat), 10)
        + " "@ + indented(decimal(model.max_output_tokens as nat), 10) + "   "@ + join(
        model.effort_names(),
        ","@,
    )
}

pub fn describe_model(model: &ModelProfile) -> (r: String)
    ensures
        r@ == model_row(model.deep_view()),
{
    let id = pad(truncate_with_ellipsis(model.id.as_str(), 32).as_str(), 32);
    let context = indent(decimal_of(model.context_window as u64).as_str(), 10);
    let output = indent(decimal_of(model.max_output_tokens as u64).as_str(), 10);
    let row = concat3(id.as_str(), " ", context.as_str());
    let row = concat3(row.as_str(), " ", output.as_str());
    concat3(row.as_str(), "   ", joined(&model.effort_names(), ",").as_str())
}

/// `chrono::NaiveDateTime`, a date and a time of day, is carried through.
#[verifier::external_type_specification]
#[verifier::external_body]
pub struct ExNaiveDateTime(chrono::NaiveDateTime);

/// The moment that lies a number of seconds after the beginning of 1970, where the calendar
/// reaches it.
pub uninterp spec fn moment_at(seconds: i64) -> Option<chrono::NaiveDateTime>;

/// A moment in the form of RFC 3339.
pub uninterp spec fn rfc3339_text(moment: chrono::NaiveDateTime) -> Seq<char>;

/// `chrono::DateTime::from_timestamp` gives the moment that lies a number of seconds after the
/// beginning of 1970, where the calendar reaches it, which depends on the seconds alone; the moment
/// is handed on as its date and time of day in UTC.
#[verifier::external_body]
fn utc_moment(seconds: i64) -> (r: Option<chrono::NaiveDateTime>)
    ensures
        r == moment_at(seconds),
{
    chrono::DateTime::from_timestamp(seconds, 0).map(|moment| moment.naive_utc())
}

/// `chrono::DateTime::to_rfc3339` gives the text of a moment in UTC, which depends on the moment
/// alone.
#[verifier::external_body]
fn rfc3339_of(moment: &chrono::NaiveDateTime) -> (r: String)
    ensures
        r@ == rfc3339_text(*moment),
{
    moment.and_utc().to_rfc3339()
}

/// A moment in the form of RFC 3339, where the calendar reaches it, by the seconds since 1970.
pub open spec fn rfc3339(seconds: i64) -> Option<Seq<char>> {
    match moment_at(seconds) {
        Some(moment) => Some(rfc3339_text(moment)),
        None => None,
    }
}

fn utc_time(seconds: i64) -> (r: Option<String>)
    ensures
        r.deep_view() == rfc3339(seconds),
{
    match utc_moment(seconds) {
        Some(moment) => Some(rfc3339_of(&moment)),
        None => None,
    }
}

/// A count of seconds as a signed number of the same bits.
pub open spec fn signed(value: u64) -> i64 {
    if value <= i64::MAX {
        value as i64
    } else {
        (value - 0x1_0000_0000_0000_0000) as i64
    }
}

/// A time as it is printed, given what the calendar makes of it.
pub open spec fn time_text(value: u64, moment: Option<Seq<char>>) -> Seq<char> {
    match moment {
        Some(text) => text,
        None => decimal(value as nat),
    }
}

/// A time as it is printed, given what the calendar makes of it.
pub fn time_or_number(value: u64, moment: Option<String>) -> (r: String)
    ensures
        r@ == time_text(value, moment.deep_view()),
{
    match moment {
        Some(text) => text,
        None => decimal_of(value),
    }
}

pub fn format_unix_time(value: u64) -> (r: String)
    ensures
        r@ == time_text(value, rfc3339(signed(value))),
{
    let seconds: i64 = if value <= i64::MAX as u64 {
        value as i64
    } else {
        (value as i128 - 0x1_0000_0000_0000_0000) as i64
    };
    time_or_number(value, utc_time(seconds))
}

/// Where the models of a provider come from, and how old they are.
#[derive(Debug)]
pub struct CatalogStatus {
    pub source: String,
    pub refreshed_at: Option<u64>,
    pub stale: bool,
    pub next_refresh_at: Option<u64>,
    pub message: Option<String>,
}

pub open spec fn moment_or(moment: Option<u64>, otherwise: Seq<char>) -> Seq<char> {
    match moment {
        Some(value) => time_text(value, rfc3339(signed(value))),
        None => otherwise,
    }
}

fn time_or(moment: Option<u64>, otherwise: &str) -> (r: String)
    ensures
        r@ == moment_or(moment, otherwise@),
{
    match moment {
        Some(value) => format_unix_time(value),
        None => owned(otherwise),
    }
}

impl CatalogStatus {
    /// The lines that describe the catalog.
    pub open spec fn described(self) -> Seq<Seq<char>> {
        let first = "    catalog: source="@ + self.source@ + ", refreshed="@ + moment_or(
            self.refreshed_at,
            "never"@,
        ) + ", stale="@ + (if self.stale {
            "true"@
        } else {
            "false"@
        }) + ", next_refresh="@ + moment_or(self.next_refresh_at, "manual only"@);
        match self.message {
            Some(message) => seq![first, "    status: "@ + message@],
            None => seq![first],
        }
    }

    pub fn lines(&self) -> (r: Vec<String>)
        ensures
            r.deep_view() == self.described(),
    {
        let refreshed = time_or(self.refreshed_at, "never");
        let next = time_or(self.next_refresh_at, "manual only");
        let stale = if self.stale {
            "true"
        } else {
            "false"
        };
        let text = concat3("    catalog: source=", self.source.as_str(), ", refreshed=");
        let text = concat3(text.as_str(), refreshed.as_str(), ", stale=");
        let text = concat3(text.as_str(), stale, ", next_refresh=");
        let text = concat2(text.as_str(), next.as_str());
        let mut lines: Vec<String> = Vec::new();
        lines.push(text);
        match &self.message {
            Some(message) => {
                lines.push(concat2("    status: ", message.as_str()));
            },
            None => {},
        }
        assert(lines.deep_view() =~= self.described());
        lines
    }
}

/// A session in the list of sessions: its row, and its workspace where all workspaces are listed.
pub open spec fn session_rows(session: SummaryModel, all: bool) -> Seq<Seq<char>> {
    let row = padded(session.id, 36) + "  "@ + padded(first(session.updated_at, 10), 10) + "  "@
        + padded(session.provider + "/"@ + session.model, 30) + "  "@ + session.title;
    if all {
        seq![row, "                                      workspace: "@ + session.workspace_root]
    } else {
        seq![row]
    }
}

pub fn describe_session(session: &SessionSummary, all: bool) -> (r: Vec<String>)
    ensures
        r.deep_view() == session_rows(session.deep_view(), all),
{
    let date = first_chars(session.updated_at.as_str(), 10);
    let model = concat3(session.provider.as_str(), "/", session.model.as_str());
    let row = concat3(
        pad(session.id.as_str(), 36).as_str(),
        "  ",
        pad(date.as_str(), 10).as_str(),
    );
    let row = concat3(row.as_str(), "  ", pad(model.as_str(), 30).as_str());
    let row = concat3(row.as_str(), "  ", session.title.as_str());
    let mut rows: Vec<String> = Vec::new();
    rows.push(row);
    if all {
        rows.push(
            concat2(
                "                                      workspace: ",
                session.workspace_root.as_str(),
            ),
        );
    }
    assert(rows.deep_view() =~= session_rows(session.deep_view(), all));
    rows
}

/// What is printed of a key: only whether there is one.
pub fn redact(api_key: Option<&str>) -> (r: Option<&'static str>)
    ensures
        match r {
            Some(text) => api_key is Some && text@ == "***redacted***"@,
            None => api_key is None,
        },
{
    match api_key {
        Some(_) => Some("***redacted***"),
        None => None,
    }
}

/// A provider in the description of the configuration.
pub fn describe_provider(name: &str, has_key: bool) -> (r: String)
    ensures
        r@ == "  Provider '"@ + name@ + "': api_key="@ + (if has_key {
            "configured"@
        } else {
            "not set"@
        }),
{
    let state = if has_key {
        "configured"
    } else {
        "not set"
    };
    let head = concat3("  Provider '", name, "': api_key=");
    concat2(head.as_str(), state)
}

proof fn lemma_blanks(n: nat)
    ensures
        repeat(" "@, n).len() == n,
    decreases n,
{
    reveal_strlit(" ");
    if n > 0 {
        lemma_blanks((n - 1) as nat);
    }
}

/// A padded text fills its column, and is not cut where it does not fit.
pub proof fn law_padding_keeps_the_text(s: Seq<char>, n: nat)
    ensures
        s.is_prefix_of(padded(s, n)),
        padded(s, n).len() == if s.len() < n {
            n
        } else {
            s.len()
        },
{
    lemma_blanks(
        if s.len() < n {
            (n - s.len()) as nat
        } else {
            0
        },
    );
}

} // verus!
