//! What the `audit list`, `session list` and `export-audit` commands print
//! and how they end, decided from their arguments and from what was fetched.
//! The binary prints the lines in order, each on its stream, and exits with
//! the status given.

use vstd::prelude::*;
use crate::audit::{
    audit_compact_ok, audit_csv_row, audit_list_csv, audit_list_text, audit_list_text_spec,
    audit_pages, export_csv, export_csv_rows, export_format_spec, fetch_audit_entries,
    fetch_audit_logs_by_session, list_format_spec, parse_export_format, parse_list_format,
    walk_pages, AuditEntry, AuditLogEntry, ExportFormat, ListFormat, AUDIT_CSV_HEADER,
    AUDIT_PAGE_SIZE, EXPORT_CSV_HEADER,
};
use crate::session::{
    fetch_sessions_from_chain, session_csv_row, session_list_csv, session_list_limit,
    session_list_text, session_list_text_spec, SessionRecord, DEFAULT_SESSION_LIMIT,
    SESSION_CSV_HEADER,
};
use crate::text::{dec, push_dec, string_rows};

verus! {

/// The stream a report line is printed on.
#[derive(Debug, Clone, Copy, PartialEq, Eq, Structural)]
pub enum Stream {
    Stdout,
    Stderr,
}

/// One line of a command's report, without its newline.
#[derive(Debug)]
pub struct OutputLine {
    pub stream: Stream,
    pub text: String,
}

/// Report lines as the contracts see them: stream and text.
pub open spec fn lines_view(ls: Seq<OutputLine>) -> Seq<(Stream, Seq<char>)> {
    ls.map_values(|l: OutputLine| (l.stream, l.text@))
}

/// Text lines, all on standard output.
pub open spec fn on_out(rows: Seq<Seq<char>>) -> Seq<(Stream, Seq<char>)> {
    rows.map_values(|r: Seq<char>| (Stream::Stdout, r))
}

/// What a listing command prints and how it ends: its lines, then the rows
/// to print as one JSON document (`--format json` only), and its exit status.
#[derive(Debug)]
pub struct ListReport<T> {
    pub lines: Vec<OutputLine>,
    pub json_rows: Option<Vec<T>>,
    pub exit_code: i32,
}

/// What a command prints and how it ends.
#[derive(Debug)]
pub struct Outcome {
    pub lines: Vec<OutputLine>,
    pub exit_code: i32,
}

fn line(stream: Stream, text: String) -> (l: OutputLine)
    ensures
        l.stream == stream,
        l.text@ == text@,
{
    OutputLine { stream, text }
}

/// Appends the text lines `rows`, all on standard output.
fn push_out_rows(lines: &mut Vec<OutputLine>, rows: &Vec<String>)
    ensures
        lines_view(final(lines)@) == lines_view(old(lines)@) + on_out(string_rows(rows@)),
{
    let ghost start = lines_view(lines@);
    let n = rows.len();
    let mut i: usize = 0;
    assert(start + on_out(string_rows(rows@.take(0))) =~= start);
    while i < n
        invariant
            n == rows@.len(),
            i <= n,
            lines_view(lines@) == start + on_out(string_rows(rows@.take(i as int))),
        decreases n - i,
    {
        let text = rows[i].clone();
        let ghost prev = lines@;
        let l = line(Stream::Stdout, text);
        lines.push(l);
        assert(lines_view(lines@) =~= lines_view(prev).push((Stream::Stdout, rows@[i as int]@)));
        assert(rows@.take(i + 1) =~= rows@.take(i as int).push(rows@[i as int]));
        assert(string_rows(rows@.take(i + 1)) =~= string_rows(rows@.take(i as int)).push(
            rows@[i as int]@,
        ));
        i = i + 1;
        assert(lines_view(lines@) =~= start + on_out(string_rows(rows@.take(i as int))));
    }
    assert(rows@.take(n as int) =~= rows@);
}

/// The error line for a `--format` that a list command does not know.
pub open spec fn list_format_error(format: Seq<char>) -> Seq<char> {
    "error: unsupported format '"@ + format + "'. Use 'text', 'json', or 'csv'"@
}

fn list_format_error_line(format: &str) -> (l: OutputLine)
    ensures
        l.stream == Stream::Stderr,
        l.text@ == list_format_error(format@),
{
    let mut t = String::from_str("error: unsupported format '");
    t.append(format);
    t.append("'. Use 'text', 'json', or 'csv'");
    line(Stream::Stderr, t)
}

// ---------------------------------------------------------------------------
// audit list
// ---------------------------------------------------------------------------

/// First line of `audit list`.
pub open spec fn audit_list_head(session: u64) -> Seq<char> {
    "◈ Fetching audit logs for session "@ + dec(session as nat)
}

/// What `audit list` prints once the entries of the session are in hand.
pub open spec fn audit_list_body(session: u64, kind: ListFormat, es: Seq<AuditLogEntry>) -> Seq<
    (Stream, Seq<char>),
> {
    if es.len() == 0 {
        on_out(
            seq![
                Seq::<char>::empty(),
                "✗ No audit log entries found for session "@ + dec(session as nat),
            ],
        )
    } else {
        on_out(
            seq![Seq::<char>::empty()] + match kind {
                ListFormat::Text => audit_list_text_spec(session, es),
                ListFormat::Json => Seq::<Seq<char>>::empty(),
                ListFormat::Csv => seq![AUDIT_CSV_HEADER@] + es.map_values(
                    |e: AuditLogEntry| audit_csv_row(e),
                ),
            },
        )
    }
}

/// The report of `audit list` for the entries found for `session`: a note
/// when there are none, else a blank line and the listing in the format
/// asked for (JSON rows are handed back to be printed after the lines).
pub fn audit_list_report(session: u64, kind: ListFormat, entries: Vec<AuditLogEntry>) -> (r:
    ListReport<AuditLogEntry>)
    requires
        kind == ListFormat::Text ==> forall|i: int|
            0 <= i < entries@.len() ==> audit_compact_ok(#[trigger] entries@[i]),
    ensures
        lines_view(r.lines@) == audit_list_body(session, kind, entries@),
        r.exit_code == 0,
        r.json_rows is Some <==> (kind == ListFormat::Json && entries@.len() > 0),
        r.json_rows matches Some(rows) ==> rows@ == entries@,
{
    let mut lines: Vec<OutputLine> = Vec::new();
    lines.push(line(Stream::Stdout, String::new()));
    if entries.len() == 0 {
        let mut t = String::from_str("✗ No audit log entries found for session ");
        push_dec(&mut t, session);
        lines.push(line(Stream::Stdout, t));
        assert(lines_view(lines@) =~= audit_list_body(session, kind, entries@));
        return ListReport { lines, json_rows: None, exit_code: 0 };
    }
    let ghost first = lines_view(lines@);
    assert(first =~= on_out(seq![Seq::<char>::empty()]));
    match kind {
        ListFormat::Text => {
            let rows = audit_list_text(session, &entries);
            push_out_rows(&mut lines, &rows);
            assert(lines_view(lines@) =~= audit_list_body(session, kind, entries@));
            ListReport { lines, json_rows: None, exit_code: 0 }
        },
        ListFormat::Json => {
            assert(lines_view(lines@) =~= audit_list_body(session, kind, entries@));
            ListReport { lines, json_rows: Some(entries), exit_code: 0 }
        },
        ListFormat::Csv => {
            let rows = audit_list_csv(&entries);
            push_out_rows(&mut lines, &rows);
            assert(lines_view(lines@) =~= audit_list_body(session, kind, entries@));
            ListReport { lines, json_rows: None, exit_code: 0 }
        },
    }
}

/// `audit list`: announces the session, refuses an unknown `--format`
/// (status 1) before anything is fetched, else fetches the session's
/// entries and reports them.
pub fn audit_list_outcome(session: u64, format: &str, from: Option<u64>, to: Option<u64>) -> (r:
    ListReport<AuditLogEntry>)
    ensures
        list_format_spec(format@) is None ==> {
            &&& lines_view(r.lines@) == seq![
                (Stream::Stdout, audit_list_head(session)),
                (Stream::Stderr, list_format_error(format@)),
            ]
            &&& r.exit_code == 1
            &&& r.json_rows is None
        },
        list_format_spec(format@) matches Some(kind) ==> {
            &&& lines_view(r.lines@) == seq![(Stream::Stdout, audit_list_head(session))]
                + audit_list_body(session, kind, Seq::empty())
            &&& r.exit_code == 0
            &&& r.json_rows is None
        },
{
    let mut head = String::from_str("◈ Fetching audit logs for session ");
    push_dec(&mut head, session);
    let mut lines: Vec<OutputLine> = Vec::new();
    lines.push(line(Stream::Stdout, head));
    match parse_list_format(format) {
        None => {
            lines.push(list_format_error_line(format));
            assert(lines_view(lines@) =~= seq![
                (Stream::Stdout, audit_list_head(session)),
                (Stream::Stderr, list_format_error(format@)),
            ]);
            ListReport { lines, json_rows: None, exit_code: 1 }
        },
        Some(kind) => {
            let entries = fetch_audit_logs_by_session(session, from, to);
            let mut report = audit_list_report(session, kind, entries);
            let ghost body = lines_view(report.lines@);
            let ghost top = lines_view(lines@);
            lines.append(&mut report.lines);
            assert(entries@ =~= Seq::<AuditLogEntry>::empty());
            assert(lines_view(lines@) =~= top + body);
            ListReport { lines, json_rows: report.json_rows, exit_code: 0 }
        },
    }
}

// ---------------------------------------------------------------------------
// session list
// ---------------------------------------------------------------------------

/// The number of sessions `session list` asks for.
pub open spec fn effective_limit(limit: Option<u64>) -> u64 {
    match limit {
        Some(l) => l,
        None => DEFAULT_SESSION_LIMIT,
    }
}

/// First line of `session list`.
pub open spec fn session_list_head(limit: u64) -> Seq<char> {
    "◈ Fetching sessions (limit: "@ + dec(limit as nat) + ")"@
}

/// The notes `session list` prints on standard error before it fetches.
pub open spec fn session_list_notes(limit: u64, rpc_url: Seq<char>) -> Seq<(Stream, Seq<char>)> {
    seq![
        (Stream::Stderr, "ℹ  Listing sessions (max "@ + dec(limit as nat) + ")"@),
        (Stream::Stderr, "ℹ  Using RPC endpoint: "@ + rpc_url),
    ]
}

/// What `session list` prints once the sessions are in hand.
pub open spec fn session_list_body(kind: ListFormat, ss: Seq<SessionRecord>) -> Seq<
    (Stream, Seq<char>),
> {
    if ss.len() == 0 {
        on_out(seq![Seq::<char>::empty(), "✗ No sessions found"@])
    } else {
        on_out(
            seq![Seq::<char>::empty()] + match kind {
                ListFormat::Text => session_list_text_spec(ss),
                ListFormat::Json => Seq::<Seq<char>>::empty(),
                ListFormat::Csv => seq![SESSION_CSV_HEADER@] + ss.map_values(
                    |s: SessionRecord| session_csv_row(s),
                ),
            },
        )
    }
}

/// The report of `session list` for the sessions found: a note when there
/// are none, else a blank line and the listing in the format asked for
/// (JSON rows are handed back to be printed after the lines).
pub fn session_list_report(kind: ListFormat, sessions: Vec<SessionRecord>) -> (r: ListReport<
    SessionRecord,
>)
    ensures
        lines_view(r.lines@) == session_list_body(kind, sessions@),
        r.exit_code == 0,
        r.json_rows is Some <==> (kind == ListFormat::Json && sessions@.len() > 0),
        r.json_rows matches Some(rows) ==> rows@ == sessions@,
{
    let mut lines: Vec<OutputLine> = Vec::new();
    lines.push(line(Stream::Stdout, String::new()));
    if sessions.len() == 0 {
        lines.push(line(Stream::Stdout, String::from_str("✗ No sessions found")));
        assert(lines_view(lines@) =~= session_list_body(kind, sessions@));
        return ListReport { lines, json_rows: None, exit_code: 0 };
    }
    let ghost first = lines_view(lines@);
    assert(first =~= on_out(seq![Seq::<char>::empty()]));
    match kind {
        ListFormat::Text => {
            let rows = session_list_text(&sessions);
            push_out_rows(&mut lines, &rows);
            assert(lines_view(lines@) =~= session_list_body(kind, sessions@));
            ListReport { lines, json_rows: None, exit_code: 0 }
        },
        ListFormat::Json => {
            assert(lines_view(lines@) =~= session_list_body(kind, sessions@));
            ListReport { lines, json_rows: Some(sessions), exit_code: 0 }
        },
        ListFormat::Csv => {
            let rows = session_list_csv(&sessions);
            push_out_rows(&mut lines, &rows);
            assert(lines_view(lines@) =~= session_list_body(kind, sessions@));
            ListReport { lines, json_rows: None, exit_code: 0 }
        },
    }
}

/// `session list`: announces the limit, refuses an unknown `--format`
/// (status 1) before anything is fetched, else notes the limit and the RPC
/// endpoint on standard error, fetches the sessions and reports them.
pub fn session_list_outcome(format: &str, limit: Option<u64>, rpc_url: &str) -> (r: ListReport<
    SessionRecord,
>)
    ensures
        list_format_spec(format@) is None ==> {
            &&& lines_view(r.lines@) == seq![
                (Stream::Stdout, session_list_head(effective_limit(limit))),
                (Stream::Stderr, list_format_error(format@)),
            ]
            &&& r.exit_code == 1
            &&& r.json_rows is None
        },
        list_format_spec(format@) matches Some(kind) ==> {
            &&& lines_view(r.lines@) == seq![
                (Stream::Stdout, session_list_head(effective_limit(limit))),
            ] + session_list_notes(effective_limit(limit), rpc_url@) + session_list_body(
                kind,
                Seq::empty(),
            )
            &&& r.exit_code == 0
            &&& r.json_rows is None
        },
{
    let l = session_list_limit(limit);
    let mut head = String::from_str("◈ Fetching sessions (limit: ");
    push_dec(&mut head, l);
    head.append(")");
    let mut lines: Vec<OutputLine> = Vec::new();
    lines.push(line(Stream::Stdout, head));
    match parse_list_format(format) {
        None => {
            lines.push(list_format_error_line(format));
            assert(lines_view(lines@) =~= seq![
                (Stream::Stdout, session_list_head(effective_limit(limit))),
                (Stream::Stderr, list_format_error(format@)),
            ]);
            ListReport { lines, json_rows: None, exit_code: 1 }
        },
        Some(kind) => {
            let mut note = String::from_str("ℹ  Listing sessions (max ");
            push_dec(&mut note, l);
            note.append(")");
            lines.push(line(Stream::Stderr, note));
            let mut endpoint = String::from_str("ℹ  Using RPC endpoint: ");
            endpoint.append(rpc_url);
            lines.push(line(Stream::Stderr, endpoint));
            let sessions = fetch_sessions_from_chain(l);
            let mut report = session_list_report(kind, sessions);
            let ghost body = lines_view(report.lines@);
            let ghost top = lines_view(lines@);
            lines.append(&mut report.lines);
            assert(sessions@ =~= Seq::<SessionRecord>::empty());
            assert(top =~= seq![(Stream::Stdout, session_list_head(effective_limit(limit)))]
                + session_list_notes(effective_limit(limit), rpc_url@));
            assert(lines_view(lines@) =~= top + body);
            ListReport { lines, json_rows: report.json_rows, exit_code: 0 }
        },
    }
}

// ---------------------------------------------------------------------------
// export-audit
// ---------------------------------------------------------------------------

/// The error line for a `--format` that `export-audit` does not know.
pub open spec fn export_format_error(format: Seq<char>) -> Seq<char> {
    "error: unsupported format '"@ + format + "'. Use 'json' or 'csv'"@
}

/// The first half of `export-audit`: what it prints before writing, the
/// records to write, the CSV text when CSV was asked for (JSON is rendered
/// by the binary from `entries`), and the exit status when it stops here.
#[derive(Debug)]
pub struct ExportPlan {
    pub lines: Vec<OutputLine>,
    pub entries: Vec<AuditEntry>,
    pub csv: Option<String>,
    pub exit_code: i32,
}

/// `export-audit` up to the write: refuses an unknown `--format` (status 1)
/// before anything is fetched; else fetches all records and, for CSV,
/// renders them.
pub fn export_audit_plan(format: &str) -> (r: ExportPlan)
    ensures
        export_format_spec(format@) is None ==> {
            &&& lines_view(r.lines@) == seq![(Stream::Stderr, export_format_error(format@))]
            &&& r.exit_code == 1
            &&& r.entries@.len() == 0
            &&& r.csv is None
        },
        export_format_spec(format@) matches Some(kind) ==> {
            &&& r.entries@ == walk_pages(audit_pages(), 0, AUDIT_PAGE_SIZE)
            &&& lines_view(r.lines@) == seq![(Stream::Stdout, "Fetching audit log entries..."@)]
                + (if r.entries@.len() > 0 {
                seq![(Stream::Stderr, Seq::<char>::empty())]
            } else {
                Seq::empty()
            })
            &&& r.exit_code == 0
            &&& (r.csv is Some <==> kind == ExportFormat::Csv)
            &&& (r.csv matches Some(c) ==> c@ == EXPORT_CSV_HEADER@ + export_csv_rows(r.entries@))
        },
{
    let mut lines: Vec<OutputLine> = Vec::new();
    match parse_export_format(format) {
        None => {
            let mut t = String::from_str("error: unsupported format '");
            t.append(format);
            t.append("'. Use 'json' or 'csv'");
            lines.push(line(Stream::Stderr, t));
            assert(lines_view(lines@) =~= seq![(Stream::Stderr, export_format_error(format@))]);
            ExportPlan { lines, entries: Vec::new(), csv: None, exit_code: 1 }
        },
        Some(kind) => {
            lines.push(line(Stream::Stdout, String::from_str("Fetching audit log entries...")));
            let entries = fetch_audit_entries();
            if entries.len() > 0 {
                lines.push(line(Stream::Stderr, String::new()));
            }
            let csv = match kind {
                ExportFormat::Csv => Some(export_csv(&entries)),
                ExportFormat::Json => None,
            };
            assert(lines_view(lines@) =~= seq![(Stream::Stdout, "Fetching audit log entries..."@)]
                + (if entries@.len() > 0 {
                seq![(Stream::Stderr, Seq::<char>::empty())]
            } else {
                Seq::empty()
            }));
            ExportPlan { lines, entries, csv, exit_code: 0 }
        },
    }
}

/// The last line of `export-audit`, once the file was written or failed to
/// be: `write_error` is the reason the write failed, if it did.
pub fn export_audit_finish(total: usize, output: &str, format: &str, write_error: Option<String>) -> (r:
    Outcome)
    ensures
        write_error matches Some(e) ==> {
            &&& lines_view(r.lines@) == seq![
                (Stream::Stderr, "error: cannot write to "@ + output@ + ": "@ + e@),
            ]
            &&& r.exit_code == 1
        },
        write_error is None ==> {
            &&& lines_view(r.lines@) == seq![
                (
                    Stream::Stdout,
                    "✔ Exported "@ + dec(total as nat) + " audit log entries to "@ + output@
                        + " ("@ + format@ + ")"@,
                ),
            ]
            &&& r.exit_code == 0
        },
{
    let mut lines: Vec<OutputLine> = Vec::new();
    match write_error {
        Some(e) => {
            let mut t = String::from_str("error: cannot write to ");
            t.append(output);
            t.append(": ");
            t.append(e.as_str());
            lines.push(line(Stream::Stderr, t));
            assert(lines_view(lines@) =~= seq![
                (Stream::Stderr, "error: cannot write to "@ + output@ + ": "@ + e@),
            ]);
            Outcome { lines, exit_code: 1 }
        },
        None => {
            let mut t = String::from_str("✔ Exported ");
            push_dec(&mut t, total as u64);
            t.append(" audit log entries to ");
            t.append(output);
            t.append(" (");
            t.append(format);
            t.append(")");
            lines.push(line(Stream::Stdout, t));
            assert(lines_view(lines@) =~= seq![
                (
                    Stream::Stdout,
                    "✔ Exported "@ + dec(total as nat) + " audit log entries to "@ + output@
                        + " ("@ + format@ + ")"@,
                ),
            ]);
            Outcome { lines, exit_code: 0 }
        },
    }
}

} // verus!
