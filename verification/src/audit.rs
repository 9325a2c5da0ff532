//! Audit log entries: fetching them (the contract is not wired yet) and
//! rendering them as text blocks and CSV.

use vstd::prelude::*;
use crate::text::{
    byte_prefix, byte_prefix_ok, dec, push_byte_prefix, push_char, push_dec, same_text,
    string_rows,
};
use crate::timefmt::{format_timestamp, timestamp_text};
use crate::ledger::{lemma_pages_empty, page_contents};

verus! {

/// An audit record as `export-audit` writes it.
#[derive(Debug, Clone, PartialEq, Eq)]
pub struct AuditEntry {
    pub id: u64,
    pub operation: String,
    pub actor: String,
    pub timestamp: u64,
    pub result: String,
}

/// An audit log entry as stored on-chain, with its operation context.
#[derive(Debug, Clone, PartialEq, Eq)]
pub struct AuditLogEntry {
    pub log_id: u64,
    pub session_id: u64,
    pub actor: String,
    pub operation_type: String,
    pub operation_index: u64,
    pub timestamp: u64,
    pub status: String,
    pub result: String,
}

/// Output format of `export-audit`.
#[derive(Debug, Clone, Copy, PartialEq, Eq, Structural)]
pub enum ExportFormat {
    Json,
    Csv,
}

/// Output format of the `list` commands.
#[derive(Debug, Clone, Copy, PartialEq, Eq, Structural)]
pub enum ListFormat {
    Text,
    Json,
    Csv,
}

/// The export format a `--format` value names, if any.
pub open spec fn export_format_spec(format: Seq<char>) -> Option<ExportFormat> {
    if format == "json"@ {
        Some(ExportFormat::Json)
    } else if format == "csv"@ {
        Some(ExportFormat::Csv)
    } else {
        None
    }
}

/// Reads the `--format` of `export-audit`: `json` or `csv`.
pub fn parse_export_format(format: &str) -> (r: Option<ExportFormat>)
    ensures
        r == export_format_spec(format@),
{
    if same_text(format, "json") {
        Some(ExportFormat::Json)
    } else if same_text(format, "csv") {
        Some(ExportFormat::Csv)
    } else {
        None
    }
}

/// The list format a `--format` value names, if any.
pub open spec fn list_format_spec(format: Seq<char>) -> Option<ListFormat> {
    if format == "text"@ {
        Some(ListFormat::Text)
    } else if format == "json"@ {
        Some(ListFormat::Json)
    } else if format == "csv"@ {
        Some(ListFormat::Csv)
    } else {
        None
    }
}

/// Reads the `--format` of a `list` command: `text`, `json` or `csv`.
pub fn parse_list_format(format: &str) -> (r: Option<ListFormat>)
    ensures
        r == list_format_spec(format@),
{
    if same_text(format, "text") {
        Some(ListFormat::Text)
    } else if same_text(format, "json") {
        Some(ListFormat::Json)
    } else if same_text(format, "csv") {
        Some(ListFormat::Csv)
    } else {
        None
    }
}

// ---------------------------------------------------------------------------
// Fetching
// ---------------------------------------------------------------------------

/// Number of entries asked for per page by `fetch_audit_entries`.
pub const AUDIT_PAGE_SIZE: u64 = 50;

/// One page of audit records, as the contract's range query returns it.
/// The query is not wired yet, so every page is empty.
pub fn fetch_page(page: u64, page_size: u64) -> (batch: Vec<AuditEntry>)
    ensures
        batch@ == page_contents(page, page_size),
        batch@.len() == 0,
{
    proof {
        lemma_pages_empty(page, page_size);
    }
    Vec::new()
}

/// The records gathered by walking the pages of `pages` from `page` on:
/// each page is taken in order, and the walk stops after the first page that
/// is shorter than `page_size` (or at the last page number).
pub open spec fn walk_pages(
    pages: spec_fn(u64) -> Seq<AuditEntry>,
    page: u64,
    page_size: u64,
) -> Seq<AuditEntry>
    decreases u64::MAX - page,
{
    let p = pages(page);
    if p.len() < page_size || page == u64::MAX {
        p
    } else {
        p + walk_pages(pages, (page + 1) as u64, page_size)
    }
}

/// A full page does not end the walk: its records are followed by the walk
/// from the next page.
pub proof fn lemma_full_page_continues(
    pages: spec_fn(u64) -> Seq<AuditEntry>,
    page: u64,
    page_size: u64,
)
    requires
        page < u64::MAX,
        pages(page).len() >= page_size,
    ensures
        walk_pages(pages, page, page_size) == pages(page) + walk_pages(
            pages,
            (page + 1) as u64,
            page_size,
        ),
{
}

/// A short page ends the walk: its records are the last ones gathered.
pub proof fn lemma_short_page_ends(
    pages: spec_fn(u64) -> Seq<AuditEntry>,
    page: u64,
    page_size: u64,
)
    requires
        pages(page).len() < page_size,
    ensures
        walk_pages(pages, page, page_size) == pages(page),
{
}

/// When pages `start` to `last - 1` are full and page `last` is short, the
/// walk from `start` gathers exactly the records of pages `start` to `last`,
/// in page order.
pub proof fn lemma_walk_gathers_pages(
    pages: spec_fn(u64) -> Seq<AuditEntry>,
    start: u64,
    last: u64,
    page_size: u64,
)
    requires
        start <= last,
        forall|p: u64| start <= p < last ==> (#[trigger] pages(p)).len() >= page_size,
        pages(last).len() < page_size,
    ensures
        walk_pages(pages, start, page_size) == Seq::new(
            (last - start + 1) as nat,
            |j: int| pages((start + j) as u64),
        ).flatten(),
    decreases last - start,
{
    let s = Seq::new((last - start + 1) as nat, |j: int| pages((start + j) as u64));
    if start == last {
        assert(s.drop_first() =~= Seq::<Seq<AuditEntry>>::empty());
        assert(s.first() == pages(start));
        assert(s.drop_first().flatten() =~= Seq::<AuditEntry>::empty());
        assert(s.flatten() =~= pages(start));
    } else {
        lemma_walk_gathers_pages(pages, (start + 1) as u64, last, page_size);
        let t = Seq::new((last - (start + 1) + 1) as nat, |j: int| pages((start + 1 + j) as u64));
        assert(s.drop_first() =~= t);
        assert(pages(start).len() >= page_size);
        assert(s.first() == pages(start));
    }
}

/// Gathers records page by page from page 0, asking `fetch` for each page,
/// until a page comes back shorter than `page_size`. Whatever pages `fetch`
/// gives (`pages`), the records come out in page order, each page whole.
pub fn collect_pages<F: Fn(u64) -> Vec<AuditEntry>>(
    fetch: F,
    page_size: u64,
    Ghost(pages): Ghost<spec_fn(u64) -> Seq<AuditEntry>>,
) -> (entries: Vec<AuditEntry>)
    requires
        forall|p: u64| call_requires(fetch, (p,)),
        forall|p: u64, batch: Vec<AuditEntry>| #[trigger]
            call_ensures(fetch, (p,), batch) ==> batch@ == pages(p),
    ensures
        entries@ == walk_pages(pages, 0, page_size),
{
    let mut entries: Vec<AuditEntry> = Vec::new();
    let mut page: u64 = 0;
    assert(entries@ + walk_pages(pages, 0, page_size) =~= walk_pages(pages, 0, page_size));
    loop
        invariant_except_break
            forall|p: u64| call_requires(fetch, (p,)),
            forall|p: u64, batch: Vec<AuditEntry>| #[trigger]
                call_ensures(fetch, (p,), batch) ==> batch@ == pages(p),
            walk_pages(pages, 0, page_size) == entries@ + walk_pages(pages, page, page_size),
        ensures
            walk_pages(pages, 0, page_size) == entries@,
        decreases u64::MAX - page,
    {
        let mut batch = fetch(page);
        let ghost before = entries@;
        let ghost got = batch@;
        assert(got == pages(page));
        let done = (batch.len() as u64) < page_size;
        entries.append(&mut batch);
        assert(entries@ == before + got);
        if done || page == u64::MAX {
            assert(walk_pages(pages, page, page_size) == got);
            break;
        }
        assert(walk_pages(pages, page, page_size) == got + walk_pages(
            pages,
            (page + 1) as u64,
            page_size,
        ));
        assert(before + (got + walk_pages(pages, (page + 1) as u64, page_size)) =~= entries@
            + walk_pages(pages, (page + 1) as u64, page_size));
        page = page + 1;
    }
    entries
}

/// The pages of the contract's audit log, `AUDIT_PAGE_SIZE` records each.
pub open spec fn audit_pages() -> spec_fn(u64) -> Seq<AuditEntry> {
    |p: u64| page_contents(p, AUDIT_PAGE_SIZE)
}

/// All audit records, page by page from page 0, until a page comes back
/// short. Since every page is empty, the first page ends the walk.
pub fn fetch_audit_entries() -> (entries: Vec<AuditEntry>)
    ensures
        entries@ == walk_pages(audit_pages(), 0, AUDIT_PAGE_SIZE),
        entries@.len() == 0,
{
    let fetch = |p: u64| -> (batch: Vec<AuditEntry>)
        ensures
            batch@ == page_contents(p, AUDIT_PAGE_SIZE),
        { fetch_page(p, AUDIT_PAGE_SIZE) };
    let entries = collect_pages(fetch, AUDIT_PAGE_SIZE, Ghost(audit_pages()));
    proof {
        lemma_pages_empty(0, AUDIT_PAGE_SIZE);
        assert(audit_pages()(0) == page_contents(0, AUDIT_PAGE_SIZE));
    }
    entries
}

/// Fetch a single audit log entry from on-chain storage. The contract query
/// is not wired yet, so no entry is found.
pub fn fetch_audit_log_entry(log_id: u64) -> (r: Option<AuditLogEntry>)
    ensures
        r is None,
{
    None
}

/// Fetch audit logs filtered by session ID, in the range `[from, to]`.
/// Every entry returned belongs to the session; the contract query is not
/// wired yet, so none is returned.
pub fn fetch_audit_logs_by_session(session_id: u64, from: Option<u64>, to: Option<u64>) -> (r: Vec<AuditLogEntry>)
    ensures
        r@.len() == 0,
        forall|i: int| 0 <= i < r@.len() ==> (#[trigger] r@[i]).session_id == session_id,
{
    Vec::new()
}

// ---------------------------------------------------------------------------
// Export
// ---------------------------------------------------------------------------

/// Header line of the exported CSV.
pub const EXPORT_CSV_HEADER: &'static str = "id,operation,actor,timestamp,result\n";

/// One exported CSV line, with its newline.
pub open spec fn export_csv_row(e: AuditEntry) -> Seq<char> {
    dec(e.id as nat) + ","@ + e.operation@ + ","@ + e.actor@ + ","@ + dec(e.timestamp as nat) + ","@
        + e.result@ + "\n"@
}

/// The exported CSV lines of `es`, in order.
pub open spec fn export_csv_rows(es: Seq<AuditEntry>) -> Seq<char>
    decreases es.len(),
{
    if es.len() == 0 {
        seq![]
    } else {
        export_csv_rows(es.drop_last()) + export_csv_row(es.last())
    }
}

/// Each record is written once, in order: adding a record adds its line
/// after the lines already there.
pub proof fn lemma_export_csv_rows_push(es: Seq<AuditEntry>, e: AuditEntry)
    ensures
        export_csv_rows(es.push(e)) == export_csv_rows(es) + export_csv_row(e),
{
    assert(es.push(e).drop_last() =~= es);
}

/// Renders audit records as the CSV file that `export-audit` writes.
pub fn export_csv(entries: &Vec<AuditEntry>) -> (r: String)
    ensures
        r@ == EXPORT_CSV_HEADER@ + export_csv_rows(entries@),
{
    let mut out = String::from_str(EXPORT_CSV_HEADER);
    let n = entries.len();
    let mut i: usize = 0;
    while i < n
        invariant
            n == entries@.len(),
            i <= n,
            out@ == EXPORT_CSV_HEADER@ + export_csv_rows(entries@.take(i as int)),
        decreases n - i,
    {
        let e = &entries[i];
        let ghost before = out@;
        push_dec(&mut out, e.id);
        out.append(",");
        out.append(e.operation.as_str());
        out.append(",");
        out.append(e.actor.as_str());
        out.append(",");
        push_dec(&mut out, e.timestamp);
        out.append(",");
        out.append(e.result.as_str());
        out.append("\n");
        assert(entries@.take(i + 1).drop_last() =~= entries@.take(i as int));
        assert(out@ =~= before + export_csv_row(entries@[i as int]));
        i = i + 1;
    }
    assert(entries@.take(n as int) =~= entries@);
    out
}

// ---------------------------------------------------------------------------
// Listing
// ---------------------------------------------------------------------------

/// Header line of the audit CSV listing.
pub const AUDIT_CSV_HEADER: &'static str =
    "log_id,session_id,actor,operation_type,operation_index,timestamp,status,result";

/// `s` with each `"` doubled.
pub open spec fn csv_double_quotes(s: Seq<char>) -> Seq<char>
    decreases s.len(),
{
    if s.len() == 0 {
        seq![]
    } else {
        csv_double_quotes(s.drop_last()) + (if s.last() == '"' {
            seq!['"', '"']
        } else {
            seq![s.last()]
        })
    }
}

/// A CSV field must be quoted: it holds a comma, a quote or a newline.
pub open spec fn csv_needs_quotes(s: Seq<char>) -> bool {
    exists|i: int| 0 <= i < s.len() && (#[trigger] s[i] == ',' || s[i] == '"' || s[i] == '\n')
}

/// `s` as a CSV field: as it is, or, when it must be quoted, between quotes
/// with each inner quote doubled.
pub open spec fn csv_field(s: Seq<char>) -> Seq<char> {
    if csv_needs_quotes(s) {
        seq!['"'] + csv_double_quotes(s) + seq!['"']
    } else {
        s
    }
}

/// Doubling quotes replaces each `"` by two of them and keeps every other
/// character, in order.
pub proof fn lemma_double_quotes_each_char(s: Seq<char>)
    ensures
        csv_double_quotes(s) == s.map_values(
            |c: char|
                if c == '"' {
                    seq!['"', '"']
                } else {
                    seq![c]
                },
        ).flatten(),
    decreases s.len(),
{
    let f = |c: char|
        if c == '"' {
            seq!['"', '"']
        } else {
            seq![c]
        };
    let m = s.map_values(f);
    m.lemma_flatten_and_flatten_alt_are_equivalent();
    if s.len() > 0 {
        lemma_double_quotes_each_char(s.drop_last());
        let m0 = s.drop_last().map_values(f);
        m0.lemma_flatten_and_flatten_alt_are_equivalent();
        assert(m.drop_last() =~= m0);
        assert(m.last() == f(s.last()));
    } else {
        assert(m =~= Seq::<Seq<char>>::empty());
    }
}

/// A field with no comma, quote or newline is written as it is.
pub proof fn lemma_csv_field_plain(s: Seq<char>)
    requires
        forall|i: int| 0 <= i < s.len() ==> #[trigger] s[i] != ',' && s[i] != '"' && s[i] != '\n',
    ensures
        csv_field(s) == s,
{
}

/// A field with a comma, a quote or a newline is written between quotes,
/// with its quotes doubled.
pub proof fn lemma_csv_field_quoted(s: Seq<char>, i: int)
    requires
        0 <= i < s.len(),
        s[i] == ',' || s[i] == '"' || s[i] == '\n',
    ensures
        csv_field(s) == seq!['"'] + csv_double_quotes(s) + seq!['"'],
{
}

/// Reading a field back: a doubled quote stands for one quote.
pub open spec fn csv_undouble(t: Seq<char>) -> Seq<char>
    decreases t.len(),
{
    if t.len() == 0 {
        seq![]
    } else if t.len() >= 2 && t[0] == '"' && t[1] == '"' {
        seq!['"'] + csv_undouble(t.skip(2))
    } else {
        seq![t[0]] + csv_undouble(t.skip(1))
    }
}

/// Reading a CSV field back: a quoted field loses its quotes and has its
/// doubled quotes undone; any other field is taken as it is.
pub open spec fn csv_unquote(f: Seq<char>) -> Seq<char> {
    if f.len() >= 2 && f[0] == '"' && f.last() == '"' {
        csv_undouble(f.subrange(1, f.len() - 1))
    } else {
        f
    }
}

/// Doubling quotes, described from the front.
proof fn lemma_double_quotes_front(s: Seq<char>)
    requires
        s.len() > 0,
    ensures
        csv_double_quotes(s) == (if s[0] == '"' {
            seq!['"', '"']
        } else {
            seq![s[0]]
        }) + csv_double_quotes(s.drop_first()),
    decreases s.len(),
{
    if s.len() > 1 {
        lemma_double_quotes_front(s.drop_last());
        assert(s.drop_last().drop_first() =~= s.drop_first().drop_last());
        assert(s.drop_last()[0] == s[0]);
        assert(s.drop_first().last() == s.last());
    } else {
        assert(s.drop_last() =~= Seq::<char>::empty());
        assert(s.drop_first() =~= Seq::<char>::empty());
    }
}

/// Undoing the doubling gives the text back.
proof fn lemma_undouble_double(s: Seq<char>)
    ensures
        csv_undouble(csv_double_quotes(s)) == s,
    decreases s.len(),
{
    if s.len() == 0 {
        assert(csv_double_quotes(s) =~= Seq::<char>::empty());
    } else {
        lemma_double_quotes_front(s);
        lemma_undouble_double(s.drop_first());
        let rest = csv_double_quotes(s.drop_first());
        if s[0] == '"' {
            let t = seq!['"', '"'] + rest;
            assert(t.skip(2) =~= rest);
        } else {
            let t = seq![s[0]] + rest;
            assert(t.skip(1) =~= rest);
        }
        assert(seq![s[0]] + s.drop_first() =~= s);
    }
}

/// A result written into the CSV as a field reads back unchanged.
pub proof fn lemma_csv_field_reads_back(s: Seq<char>)
    ensures
        csv_unquote(csv_field(s)) == s,
{
    if csv_needs_quotes(s) {
        let f = seq!['"'] + csv_double_quotes(s) + seq!['"'];
        assert(f.subrange(1, f.len() - 1) =~= csv_double_quotes(s));
        lemma_undouble_double(s);
    } else if s.len() >= 2 && s[0] == '"' {
        assert(csv_needs_quotes(s));
    }
}

/// One line of the audit CSV listing; the result is a CSV field.
pub open spec fn audit_csv_row(e: AuditLogEntry) -> Seq<char> {
    dec(e.log_id as nat) + ","@ + dec(e.session_id as nat) + ","@ + e.actor@ + ","@
        + e.operation_type@ + ","@ + dec(e.operation_index as nat) + ","@ + dec(e.timestamp as nat)
        + ","@ + e.status@ + ","@ + csv_field(e.result@)
}

/// Whether `s` must be quoted as a CSV field.
fn needs_quotes(s: &Vec<char>) -> (r: bool)
    ensures
        r == csv_needs_quotes(s@),
{
    let n = s.len();
    let mut i: usize = 0;
    while i < n
        invariant
            n == s@.len(),
            i <= n,
            forall|k: int| 0 <= k < i ==> !(#[trigger] s@[k] == ',' || s@[k] == '"' || s@[k] == '\n'),
        decreases n - i,
    {
        let c = s[i];
        if c == ',' || c == '"' || c == '\n' {
            assert(s@[i as int] == ',' || s@[i as int] == '"' || s@[i as int] == '\n');
            return true;
        }
        i = i + 1;
    }
    false
}

/// Appends `s` as a CSV field.
pub fn push_csv_field(r: &mut String, s: &str)
    ensures
        final(r)@ == old(r)@ + csv_field(s@),
{
    let cs = crate::text::chars_of(s);
    if !needs_quotes(&cs) {
        r.append(s);
        return;
    }
    push_char(r, '"');
    let ghost start = r@;
    let n = cs.len();
    let mut i: usize = 0;
    assert(cs@.take(0) =~= Seq::<char>::empty());
    while i < n
        invariant
            n == cs@.len(),
            cs@ == s@,
            i <= n,
            r@ == start + csv_double_quotes(cs@.take(i as int)),
        decreases n - i,
    {
        let c = cs[i];
        if c == '"' {
            push_char(r, '"');
        }
        push_char(r, c);
        assert(cs@.take(i + 1).drop_last() =~= cs@.take(i as int));
        i = i + 1;
        assert(r@ =~= start + csv_double_quotes(cs@.take(i as int)));
    }
    assert(cs@.take(n as int) =~= cs@);
    push_char(r, '"');
    assert(r@ =~= old(r)@ + csv_field(s@));
}

/// The audit CSV listing: header, then one line per entry.
pub fn audit_list_csv(entries: &Vec<AuditLogEntry>) -> (lines: Vec<String>)
    ensures
        string_rows(lines@) == seq![AUDIT_CSV_HEADER@] + entries@.map_values(
            |e: AuditLogEntry| audit_csv_row(e),
        ),
{
    let mut lines: Vec<String> = Vec::new();
    lines.push(String::from_str(AUDIT_CSV_HEADER));
    let n = entries.len();
    let mut i: usize = 0;
    assert(string_rows(lines@) =~= seq![AUDIT_CSV_HEADER@] + entries@.take(0).map_values(
        |e: AuditLogEntry| audit_csv_row(e),
    ));
    while i < n
        invariant
            n == entries@.len(),
            i <= n,
            string_rows(lines@) == seq![AUDIT_CSV_HEADER@] + entries@.take(i as int).map_values(
                |e: AuditLogEntry| audit_csv_row(e),
            ),
        decreases n - i,
    {
        let e = &entries[i];
        let mut line = String::new();
        push_dec(&mut line, e.log_id);
        line.append(",");
        push_dec(&mut line, e.session_id);
        line.append(",");
        line.append(e.actor.as_str());
        line.append(",");
        line.append(e.operation_type.as_str());
        line.append(",");
        push_dec(&mut line, e.operation_index);
        line.append(",");
        push_dec(&mut line, e.timestamp);
        line.append(",");
        line.append(e.status.as_str());
        line.append(",");
        push_csv_field(&mut line, e.result.as_str());
        assert(line@ =~= audit_csv_row(entries@[i as int]));
        let ghost before = string_rows(lines@);
        lines.push(line);
        assert(string_rows(lines@) =~= before.push(audit_csv_row(entries@[i as int])));
        assert(entries@.take(i + 1).map_values(|e: AuditLogEntry| audit_csv_row(e))
            =~= entries@.take(i as int).map_values(|e: AuditLogEntry| audit_csv_row(e)).push(
            audit_csv_row(entries@[i as int]),
        ));
        i = i + 1;
    }
    assert(entries@.take(n as int) =~= entries@);
    lines
}

/// The lines that describe one entry in full (`audit get`).
pub open spec fn audit_entry_lines_spec(e: AuditLogEntry) -> Seq<Seq<char>> {
    seq![
        "  Log ID:          "@ + dec(e.log_id as nat),
        "  Session ID:      "@ + dec(e.session_id as nat),
        "  Actor:           "@ + e.actor@,
        "  Operation:       "@ + e.operation_type@ + " (index: "@ + dec(e.operation_index as nat)
            + ")"@,
        "  Timestamp:       "@ + dec(e.timestamp as nat) + " ("@ + timestamp_text(
            e.timestamp as nat,
        ) + ")"@,
        "  Status:          "@ + e.status@,
        "  Result:          "@ + e.result@,
    ]
}

/// Describes one entry in full, one field per line.
pub fn audit_entry_lines(entry: &AuditLogEntry) -> (lines: Vec<String>)
    ensures
        string_rows(lines@) == audit_entry_lines_spec(*entry),
{
    let mut l1 = String::from_str("  Log ID:          ");
    push_dec(&mut l1, entry.log_id);
    let mut l2 = String::from_str("  Session ID:      ");
    push_dec(&mut l2, entry.session_id);
    let mut l3 = String::from_str("  Actor:           ");
    l3.append(entry.actor.as_str());
    let mut l4 = String::from_str("  Operation:       ");
    l4.append(entry.operation_type.as_str());
    l4.append(" (index: ");
    push_dec(&mut l4, entry.operation_index);
    l4.append(")");
    let mut l5 = String::from_str("  Timestamp:       ");
    push_dec(&mut l5, entry.timestamp);
    l5.append(" (");
    let ts = format_timestamp(entry.timestamp);
    l5.append(ts.as_str());
    l5.append(")");
    let mut l6 = String::from_str("  Status:          ");
    l6.append(entry.status.as_str());
    let mut l7 = String::from_str("  Result:          ");
    l7.append(entry.result.as_str());
    let lines = vec![l1, l2, l3, l4, l5, l6, l7];
    assert(string_rows(lines@) =~= audit_entry_lines_spec(*entry));
    lines
}

/// The compact entry block cuts the actor and result on character boundaries.
pub open spec fn audit_compact_ok(e: AuditLogEntry) -> bool {
    byte_prefix_ok(e.actor@, 24) && byte_prefix_ok(e.result@, 50)
}

/// The four lines of the compact entry block used by `audit list`: the
/// actor is cut to 24 bytes and the result to 50.
pub open spec fn audit_compact_lines_spec(e: AuditLogEntry) -> Seq<Seq<char>> {
    seq![
        "  │ Log ID:     "@ + dec(e.log_id as nat) + " │ Op: "@ + e.operation_type@ + " │ Status: "@
            + e.status@,
        "  │ Session:    "@ + dec(e.session_id as nat) + " │ Actor: "@ + byte_prefix(e.actor@, 24),
        "  │ Timestamp:  "@ + timestamp_text(e.timestamp as nat) + " (op_index: "@ + dec(
            e.operation_index as nat,
        ) + ")"@,
        "  │ Result:     "@ + byte_prefix(e.result@, 50),
    ]
}

/// Describes one entry in the compact form of `audit list`.
pub fn audit_entry_compact_lines(entry: &AuditLogEntry) -> (lines: Vec<String>)
    requires
        audit_compact_ok(*entry),
    ensures
        string_rows(lines@) == audit_compact_lines_spec(*entry),
{
    let mut l1 = String::from_str("  │ Log ID:     ");
    push_dec(&mut l1, entry.log_id);
    l1.append(" │ Op: ");
    l1.append(entry.operation_type.as_str());
    l1.append(" │ Status: ");
    l1.append(entry.status.as_str());
    let mut l2 = String::from_str("  │ Session:    ");
    push_dec(&mut l2, entry.session_id);
    l2.append(" │ Actor: ");
    push_byte_prefix(&mut l2, entry.actor.as_str(), 24);
    let mut l3 = String::from_str("  │ Timestamp:  ");
    let ts = format_timestamp(entry.timestamp);
    l3.append(ts.as_str());
    l3.append(" (op_index: ");
    push_dec(&mut l3, entry.operation_index);
    l3.append(")");
    let mut l4 = String::from_str("  │ Result:     ");
    push_byte_prefix(&mut l4, entry.result.as_str(), 50);
    let lines = vec![l1, l2, l3, l4];
    assert(string_rows(lines@) =~= audit_compact_lines_spec(*entry));
    lines
}

/// First line of the `audit list` text block, before the session id.
pub const AUDIT_LIST_HEAD: &'static str = "┌─ Audit Log Entries (Session ";

/// First line of the `audit list` text block, after the session id.
pub const AUDIT_LIST_HEAD_END: &'static str = ") ──────────────────────────────";

/// Line between two entries of the `audit list` text block.
pub const AUDIT_LIST_SEPARATOR: &'static str = "├───────────────────────────────────────────────────────────";

/// Last line of the `audit list` text block.
pub const AUDIT_LIST_FOOT: &'static str = "└───────────────────────────────────────────────────────────────";

/// The compact blocks of `es`, separated by separator lines.
pub open spec fn audit_blocks(es: Seq<AuditLogEntry>) -> Seq<Seq<char>>
    decreases es.len(),
{
    if es.len() == 0 {
        seq![]
    } else {
        audit_blocks(es.drop_last()) + (if es.len() > 1 {
            seq![AUDIT_LIST_SEPARATOR@]
        } else {
            seq![]
        }) + audit_compact_lines_spec(es.last())
    }
}

/// The listing shows each entry once, in order: adding an entry to the list
/// adds a separator (when there was an entry before it) and that entry's own
/// block, after the blocks already there.
pub proof fn lemma_audit_blocks_push(es: Seq<AuditLogEntry>, e: AuditLogEntry)
    ensures
        audit_blocks(es.push(e)) == audit_blocks(es) + (if es.len() > 0 {
            seq![AUDIT_LIST_SEPARATOR@]
        } else {
            Seq::<Seq<char>>::empty()
        }) + audit_compact_lines_spec(e),
{
    assert(es.push(e).drop_last() =~= es);
}

/// Every block of the listing is four lines and blocks are one separator
/// line apart: `n` entries take `5 n - 1` lines.
pub proof fn lemma_audit_blocks_len(es: Seq<AuditLogEntry>)
    ensures
        audit_blocks(es).len() == (if es.len() == 0 {
            0
        } else {
            5 * es.len() - 1
        }),
    decreases es.len(),
{
    if es.len() > 0 {
        lemma_audit_blocks_len(es.drop_last());
    }
}

/// The closing count line.
pub open spec fn audit_count_line(n: nat) -> Seq<char> {
    "✔ Retrieved "@ + dec(n) + " audit log entries"@
}

/// The whole `audit list` text block for a session.
pub open spec fn audit_list_text_spec(session: u64, es: Seq<AuditLogEntry>) -> Seq<Seq<char>> {
    seq![AUDIT_LIST_HEAD@ + dec(session as nat) + AUDIT_LIST_HEAD_END@] + audit_blocks(es) + seq![
        AUDIT_LIST_FOOT@,
        Seq::<char>::empty(),
        audit_count_line(es.len()),
    ]
}

/// Renders the `audit list` text block: a framed list of compact entries
/// and a count.
pub fn audit_list_text(session: u64, entries: &Vec<AuditLogEntry>) -> (lines: Vec<String>)
    requires
        forall|i: int| 0 <= i < entries@.len() ==> audit_compact_ok(#[trigger] entries@[i]),
    ensures
        string_rows(lines@) == audit_list_text_spec(session, entries@),
{
    let mut lines: Vec<String> = Vec::new();
    let mut head = String::from_str(AUDIT_LIST_HEAD);
    push_dec(&mut head, session);
    head.append(AUDIT_LIST_HEAD_END);
    lines.push(head);
    let ghost top = seq![AUDIT_LIST_HEAD@ + dec(session as nat) + AUDIT_LIST_HEAD_END@];
    let n = entries.len();
    let mut i: usize = 0;
    assert(string_rows(lines@) =~= top + audit_blocks(entries@.take(0)));
    while i < n
        invariant
            n == entries@.len(),
            i <= n,
            forall|k: int| 0 <= k < entries@.len() ==> audit_compact_ok(#[trigger] entries@[k]),
            string_rows(lines@) == top + audit_blocks(entries@.take(i as int)),
        decreases n - i,
    {
        let ghost before = string_rows(lines@);
        if i > 0 {
            lines.push(String::from_str(AUDIT_LIST_SEPARATOR));
            assert(string_rows(lines@) =~= before.push(AUDIT_LIST_SEPARATOR@));
        } else {
            assert(string_rows(lines@) =~= before);
        }
        let ghost mid = string_rows(lines@);
        let ghost mid_lines = lines@;
        let mut block = audit_entry_compact_lines(&entries[i]);
        let ghost block_lines = block@;
        lines.append(&mut block);
        assert(lines@ =~= mid_lines + block_lines);
        assert(string_rows(lines@) =~= mid + string_rows(block_lines));
        assert(entries@.take(i + 1).drop_last() =~= entries@.take(i as int));
        assert(entries@.take(i + 1).last() == entries@[i as int]);
        i = i + 1;
        assert(string_rows(lines@) =~= top + audit_blocks(entries@.take(i as int)));
    }
    assert(entries@.take(n as int) =~= entries@);
    lines.push(String::from_str(AUDIT_LIST_FOOT));
    lines.push(String::new());
    let mut count = String::from_str("✔ Retrieved ");
    push_dec(&mut count, n as u64);
    count.append(" audit log entries");
    lines.push(count);
    assert(string_rows(lines@) =~= audit_list_text_spec(session, entries@));
    lines
}

} // verus!
