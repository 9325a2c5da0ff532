//! Session records: fetching them through the RPC client and rendering them.

use vstd::prelude::*;
use crate::rpc::{get_session_rpc, list_sessions_rpc, SessionData};
use crate::text::{char_prefix, dec, push_char_prefix, push_dec, string_rows};
use crate::timefmt::{format_timestamp, timestamp_text};

verus! {

/// CLI representation of a session
#[derive(Debug, Clone, PartialEq, Eq)]
pub struct SessionRecord {
    pub session_id: u64,
    pub initiator: String,
    pub created_at: u64,
    pub nonce: u64,
    pub operation_count: u64,
    pub expires_at: u64,
}

/// The record holds the same fields as the contract's session data.
pub open spec fn record_matches(r: SessionRecord, d: SessionData) -> bool {
    &&& r.session_id == d.session_id
    &&& r.initiator@ == d.initiator@
    &&& r.created_at == d.created_at
    &&& r.nonce == d.nonce
    &&& r.operation_count == d.operation_count
    &&& r.expires_at == d.expires_at
}

/// The CLI record of the contract's session data, field by field.
pub fn session_record_from(d: SessionData) -> (r: SessionRecord)
    ensures
        record_matches(r, d),
{
    SessionRecord {
        session_id: d.session_id,
        initiator: d.initiator,
        created_at: d.created_at,
        nonce: d.nonce,
        operation_count: d.operation_count,
        expires_at: d.expires_at,
    }
}

/// Looks a session up on-chain; a failed lookup gives `None`. Lookups are
/// not available yet, so there is never a session.
pub fn fetch_session_from_chain(session_id: u64) -> (r: Option<SessionRecord>)
    ensures
        r is None,
{
    match get_session_rpc(session_id) {
        Ok(session_data) => Some(session_record_from(session_data)),
        Err(_) => None,
    }
}

/// The CLI records of a list of contract session data, in order.
pub fn session_records_from(data: Vec<SessionData>) -> (r: Vec<SessionRecord>)
    ensures
        r@.len() == data@.len(),
        forall|i: int| 0 <= i < r@.len() ==> record_matches(#[trigger] r@[i], data@[i]),
{
    let ghost orig = data@;
    let mut rest = data;
    let mut out: Vec<SessionRecord> = Vec::new();
    while rest.len() > 0
        invariant
            out@.len() + rest@.len() == orig.len(),
            rest@ == orig.subrange(out@.len() as int, orig.len() as int),
            forall|i: int| 0 <= i < out@.len() ==> record_matches(#[trigger] out@[i], orig[i]),
        decreases rest@.len(),
    {
        let d = rest.remove(0);
        out.push(session_record_from(d));
        assert(rest@ =~= orig.subrange(out@.len() as int, orig.len() as int));
    }
    out
}

/// Lists at most `limit` sessions on-chain; a failed listing gives no
/// sessions. Sessions are not enumerable yet, so the list is empty.
pub fn fetch_sessions_from_chain(limit: u64) -> (r: Vec<SessionRecord>)
    ensures
        r@.len() == 0,
{
    match list_sessions_rpc(limit) {
        Ok(sessions) => session_records_from(sessions),
        Err(_) => Vec::new(),
    }
}

/// Number of sessions `session list` asks for when no `--limit` is given.
pub const DEFAULT_SESSION_LIMIT: u64 = 100;

/// The `--limit` of `session list`, or the default.
pub fn session_list_limit(limit: Option<u64>) -> (r: u64)
    ensures
        r == (match limit {
            Some(l) => l,
            None => DEFAULT_SESSION_LIMIT,
        }),
{
    match limit {
        Some(l) => l,
        None => DEFAULT_SESSION_LIMIT,
    }
}

/// The lines that describe one session in full (`session get`).
pub open spec fn session_lines_spec(s: SessionRecord) -> Seq<Seq<char>> {
    seq![
        "  Session ID:       "@ + dec(s.session_id as nat),
        "  Initiator:        "@ + s.initiator@,
        "  Created At:       "@ + dec(s.created_at as nat) + " ("@ + timestamp_text(
            s.created_at as nat,
        ) + ")"@,
        "  Nonce:            "@ + dec(s.nonce as nat),
        "  Operation Count:  "@ + dec(s.operation_count as nat),
        "  Expires At:       "@ + dec(s.expires_at as nat) + " ("@ + timestamp_text(
            s.expires_at as nat,
        ) + ")"@,
    ]
}

/// Describes one session in full, one field per line.
pub fn session_lines(session: &SessionRecord) -> (lines: Vec<String>)
    ensures
        string_rows(lines@) == session_lines_spec(*session),
{
    let mut l1 = String::from_str("  Session ID:       ");
    push_dec(&mut l1, session.session_id);
    let mut l2 = String::from_str("  Initiator:        ");
    l2.append(session.initiator.as_str());
    let mut l3 = String::from_str("  Created At:       ");
    push_dec(&mut l3, session.created_at);
    l3.append(" (");
    let created = format_timestamp(session.created_at);
    l3.append(created.as_str());
    l3.append(")");
    let mut l4 = String::from_str("  Nonce:            ");
    push_dec(&mut l4, session.nonce);
    let mut l5 = String::from_str("  Operation Count:  ");
    push_dec(&mut l5, session.operation_count);
    let mut l6 = String::from_str("  Expires At:       ");
    push_dec(&mut l6, session.expires_at);
    l6.append(" (");
    let expires = format_timestamp(session.expires_at);
    l6.append(expires.as_str());
    l6.append(")");
    let lines = vec![l1, l2, l3, l4, l5, l6];
    assert(string_rows(lines@) =~= session_lines_spec(*session));
    lines
}

/// The two lines of the compact session block used by `session list`; the
/// initiator is cut to its first 16 characters.
pub open spec fn session_compact_lines_spec(s: SessionRecord) -> Seq<Seq<char>> {
    seq![
        "│ Session: "@ + dec(s.session_id as nat) + "  Initiator: "@ + char_prefix(s.initiator@, 16)
            + "..."@,
        "│ Created: "@ + dec(s.created_at as nat) + "  Operations: "@ + dec(
            s.operation_count as nat,
        ) + "  Expires: "@ + dec(s.expires_at as nat),
    ]
}

/// Describes one session in the compact form of `session list`.
pub fn session_compact_lines(session: &SessionRecord) -> (lines: Vec<String>)
    ensures
        string_rows(lines@) == session_compact_lines_spec(*session),
{
    let mut l1 = String::from_str("│ Session: ");
    push_dec(&mut l1, session.session_id);
    l1.append("  Initiator: ");
    push_char_prefix(&mut l1, session.initiator.as_str(), 16);
    l1.append("...");
    let mut l2 = String::from_str("│ Created: ");
    push_dec(&mut l2, session.created_at);
    l2.append("  Operations: ");
    push_dec(&mut l2, session.operation_count);
    l2.append("  Expires: ");
    push_dec(&mut l2, session.expires_at);
    let lines = vec![l1, l2];
    assert(string_rows(lines@) =~= session_compact_lines_spec(*session));
    lines
}

/// First line of the `session list` text block.
pub const SESSION_LIST_HEAD: &'static str = "┌─ Active Sessions ──────────────────────────────────────────────";

/// Line between two sessions of the `session list` text block.
pub const SESSION_LIST_SEPARATOR: &'static str = "├───────────────────────────────────────────────────────────────";

/// Last line of the `session list` text block.
pub const SESSION_LIST_FOOT: &'static str = "└───────────────────────────────────────────────────────────────────";

/// The compact blocks of `ss`, separated by separator lines.
pub open spec fn session_blocks(ss: Seq<SessionRecord>) -> Seq<Seq<char>>
    decreases ss.len(),
{
    if ss.len() == 0 {
        seq![]
    } else {
        session_blocks(ss.drop_last()) + (if ss.len() > 1 {
            seq![SESSION_LIST_SEPARATOR@]
        } else {
            seq![]
        }) + session_compact_lines_spec(ss.last())
    }
}

/// The listing shows each session once, in order: adding a session to the
/// list adds a separator (when there was a session before it) and that
/// session's own block, after the blocks already there.
pub proof fn lemma_session_blocks_push(ss: Seq<SessionRecord>, s: SessionRecord)
    ensures
        session_blocks(ss.push(s)) == session_blocks(ss) + (if ss.len() > 0 {
            seq![SESSION_LIST_SEPARATOR@]
        } else {
            Seq::<Seq<char>>::empty()
        }) + session_compact_lines_spec(s),
{
    assert(ss.push(s).drop_last() =~= ss);
}

/// Every block of the listing is two lines and blocks are one separator
/// line apart: `n` sessions take `3 n - 1` lines.
pub proof fn lemma_session_blocks_len(ss: Seq<SessionRecord>)
    ensures
        session_blocks(ss).len() == (if ss.len() == 0 {
            0
        } else {
            3 * ss.len() - 1
        }),
    decreases ss.len(),
{
    if ss.len() > 0 {
        lemma_session_blocks_len(ss.drop_last());
    }
}

/// The closing count line: `session` for one, `sessions` otherwise.
pub open spec fn session_count_line(n: nat) -> Seq<char> {
    "✔ Retrieved "@ + dec(n) + " session"@ + (if n == 1 {
        Seq::<char>::empty()
    } else {
        "s"@
    })
}

/// The whole `session list` text block.
pub open spec fn session_list_text_spec(ss: Seq<SessionRecord>) -> Seq<Seq<char>> {
    seq![SESSION_LIST_HEAD@] + session_blocks(ss) + seq![
        SESSION_LIST_FOOT@,
        Seq::<char>::empty(),
        session_count_line(ss.len()),
    ]
}

/// Renders the `session list` text block: a framed list of compact
/// sessions and a count.
pub fn session_list_text(sessions: &Vec<SessionRecord>) -> (lines: Vec<String>)
    ensures
        string_rows(lines@) == session_list_text_spec(sessions@),
{
    let mut lines: Vec<String> = Vec::new();
    lines.push(String::from_str(SESSION_LIST_HEAD));
    let ghost top = seq![SESSION_LIST_HEAD@];
    let n = sessions.len();
    let mut i: usize = 0;
    assert(string_rows(lines@) =~= top + session_blocks(sessions@.take(0)));
    while i < n
        invariant
            n == sessions@.len(),
            i <= n,
            string_rows(lines@) == top + session_blocks(sessions@.take(i as int)),
        decreases n - i,
    {
        let ghost before = string_rows(lines@);
        if i > 0 {
            lines.push(String::from_str(SESSION_LIST_SEPARATOR));
            assert(string_rows(lines@) =~= before.push(SESSION_LIST_SEPARATOR@));
        } else {
            assert(string_rows(lines@) =~= before);
        }
        let ghost mid = string_rows(lines@);
        let ghost mid_lines = lines@;
        let mut block = session_compact_lines(&sessions[i]);
        let ghost block_lines = block@;
        lines.append(&mut block);
        assert(lines@ =~= mid_lines + block_lines);
        assert(string_rows(lines@) =~= mid + string_rows(block_lines));
        assert(sessions@.take(i + 1).drop_last() =~= sessions@.take(i as int));
        assert(sessions@.take(i + 1).last() == sessions@[i as int]);
        i = i + 1;
        assert(string_rows(lines@) =~= top + session_blocks(sessions@.take(i as int)));
    }
    assert(sessions@.take(n as int) =~= sessions@);
    lines.push(String::from_str(SESSION_LIST_FOOT));
    lines.push(String::new());
    let mut count = String::from_str("✔ Retrieved ");
    push_dec(&mut count, n as u64);
    count.append(" session");
    if n != 1 {
        count.append("s");
    }
    lines.push(count);
    assert(string_rows(lines@) =~= session_list_text_spec(sessions@));
    lines
}

/// Header line of the session CSV listing.
pub const SESSION_CSV_HEADER: &'static str =
    "session_id,initiator,created_at,operation_count,expires_at";

/// One line of the session CSV listing.
pub open spec fn session_csv_row(s: SessionRecord) -> Seq<char> {
    dec(s.session_id as nat) + ","@ + s.initiator@ + ","@ + dec(s.created_at as nat) + ","@ + dec(
        s.operation_count as nat,
    ) + ","@ + dec(s.expires_at as nat)
}

/// The session CSV listing: header, then one line per session.
pub fn session_list_csv(sessions: &Vec<SessionRecord>) -> (lines: Vec<String>)
    ensures
        string_rows(lines@) == seq![SESSION_CSV_HEADER@] + sessions@.map_values(
            |s: SessionRecord| session_csv_row(s),
        ),
{
    let mut lines: Vec<String> = Vec::new();
    lines.push(String::from_str(SESSION_CSV_HEADER));
    let n = sessions.len();
    let mut i: usize = 0;
    assert(string_rows(lines@) =~= seq![SESSION_CSV_HEADER@] + sessions@.take(0).map_values(
        |s: SessionRecord| session_csv_row(s),
    ));
    while i < n
        invariant
            n == sessions@.len(),
            i <= n,
            string_rows(lines@) == seq![SESSION_CSV_HEADER@] + sessions@.take(i as int).map_values(
                |s: SessionRecord| session_csv_row(s),
            ),
        decreases n - i,
    {
        let s = &sessions[i];
        let mut line = String::new();
        push_dec(&mut line, s.session_id);
        line.append(",");
        line.append(s.initiator.as_str());
        line.append(",");
        push_dec(&mut line, s.created_at);
        line.append(",");
        push_dec(&mut line, s.operation_count);
        line.append(",");
        push_dec(&mut line, s.expires_at);
        assert(line@ =~= session_csv_row(sessions@[i as int]));
        let ghost before = string_rows(lines@);
        lines.push(line);
        assert(string_rows(lines@) =~= before.push(session_csv_row(sessions@[i as int])));
        assert(sessions@.take(i + 1).map_values(|s: SessionRecord| session_csv_row(s))
            =~= sessions@.take(i as int).map_values(|s: SessionRecord| session_csv_row(s)).push(
            session_csv_row(sessions@[i as int]),
        ));
        i = i + 1;
    }
    assert(sessions@.take(n as int) =~= sessions@);
    lines
}

} // verus!
