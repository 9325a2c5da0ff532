use anchorkit::audit::{AuditEntry, AuditLogEntry, ListFormat};
use anchorkit::commands::{
    audit_list_outcome, audit_list_report, export_audit_finish, export_audit_plan,
    session_list_outcome, session_list_report, OutputLine, Stream,
};
use anchorkit::session::SessionRecord;

fn shown(lines: &[OutputLine]) -> Vec<(bool, String)> {
    lines.iter().map(|l| (l.stream == Stream::Stderr, l.text.clone())).collect()
}

fn out(s: &str) -> (bool, String) {
    (false, s.to_string())
}

fn err(s: &str) -> (bool, String) {
    (true, s.to_string())
}

fn log_entry(log_id: u64, result: &str) -> AuditLogEntry {
    AuditLogEntry {
        log_id,
        session_id: 5,
        actor: "GXXX".to_string(),
        operation_type: "attest".to_string(),
        operation_index: 2,
        timestamp: 1234567900,
        status: "success".to_string(),
        result: result.to_string(),
    }
}

fn session(id: u64) -> SessionRecord {
    SessionRecord {
        session_id: id,
        initiator: "GA".to_string(),
        created_at: 86400,
        nonce: 9,
        operation_count: 3,
        expires_at: 172800,
    }
}

#[test]
fn audit_list_rejects_unknown_format_before_fetching() {
    let r = audit_list_outcome(5, "xml", None, None);
    assert_eq!(
        shown(&r.lines),
        vec![
            out("◈ Fetching audit logs for session 5"),
            err("error: unsupported format 'xml'. Use 'text', 'json', or 'csv'"),
        ]
    );
    assert_eq!(r.exit_code, 1);
    assert!(r.json_rows.is_none());
}

#[test]
fn audit_list_with_nothing_found() {
    for format in ["text", "json", "csv"] {
        let r = audit_list_outcome(7, format, Some(1), Some(3));
        assert_eq!(
            shown(&r.lines),
            vec![
                out("◈ Fetching audit logs for session 7"),
                out(""),
                out("✗ No audit log entries found for session 7"),
            ]
        );
        assert_eq!(r.exit_code, 0);
        assert!(r.json_rows.is_none());
    }
}

#[test]
fn audit_list_report_csv_one_entry() {
    let r = audit_list_report(5, ListFormat::Csv, vec![log_entry(42, "attestation_id=100")]);
    assert_eq!(
        shown(&r.lines),
        vec![
            out(""),
            out("log_id,session_id,actor,operation_type,operation_index,timestamp,status,result"),
            out("42,5,GXXX,attest,2,1234567900,success,attestation_id=100"),
        ]
    );
    assert_eq!(r.exit_code, 0);
    assert!(r.json_rows.is_none());
}

#[test]
fn audit_list_report_text_one_entry() {
    let r = audit_list_report(5, ListFormat::Text, vec![log_entry(42, "ok")]);
    let lines = shown(&r.lines);
    assert_eq!(lines.len(), 1 + 1 + 4 + 3);
    assert_eq!(lines[0], out(""));
    assert!(!lines.iter().any(|(_, t)| t.starts_with("├")));
    assert_eq!(lines[8], out("✔ Retrieved 1 audit log entries"));
}

#[test]
fn audit_list_report_json_hands_back_rows() {
    let r = audit_list_report(5, ListFormat::Json, vec![log_entry(1, "a"), log_entry(2, "b")]);
    assert_eq!(shown(&r.lines), vec![out("")]);
    let rows = r.json_rows.expect("rows");
    assert_eq!(rows.len(), 2);
    assert_eq!(rows[1].log_id, 2);
    let none = audit_list_report(5, ListFormat::Json, Vec::new());
    assert!(none.json_rows.is_none());
    assert_eq!(
        shown(&none.lines),
        vec![out(""), out("✗ No audit log entries found for session 5")]
    );
}

#[test]
fn session_list_rejects_unknown_format() {
    let r = session_list_outcome("yaml", None, "https://rpc.example");
    assert_eq!(
        shown(&r.lines),
        vec![
            out("◈ Fetching sessions (limit: 100)"),
            err("error: unsupported format 'yaml'. Use 'text', 'json', or 'csv'"),
        ]
    );
    assert_eq!(r.exit_code, 1);
}

#[test]
fn session_list_with_nothing_found() {
    let r = session_list_outcome("json", Some(10), "https://rpc.example");
    assert_eq!(
        shown(&r.lines),
        vec![
            out("◈ Fetching sessions (limit: 10)"),
            err("ℹ  Listing sessions (max 10)"),
            err("ℹ  Using RPC endpoint: https://rpc.example"),
            out(""),
            out("✗ No sessions found"),
        ]
    );
    assert_eq!(r.exit_code, 0);
    assert!(r.json_rows.is_none());
}

#[test]
fn session_list_report_csv_and_text() {
    let csv = session_list_report(ListFormat::Csv, vec![session(1)]);
    assert_eq!(
        shown(&csv.lines),
        vec![
            out(""),
            out("session_id,initiator,created_at,operation_count,expires_at"),
            out("1,GA,86400,3,172800"),
        ]
    );
    let text = session_list_report(ListFormat::Text, vec![session(1), session(2)]);
    let lines = shown(&text.lines);
    assert_eq!(lines.last().unwrap(), &out("✔ Retrieved 2 sessions"));
    let json = session_list_report(ListFormat::Json, vec![session(3)]);
    assert_eq!(json.json_rows.unwrap()[0].session_id, 3);
}

#[test]
fn export_plan_rejects_unknown_format() {
    let p = export_audit_plan("text");
    assert_eq!(shown(&p.lines), vec![err("error: unsupported format 'text'. Use 'json' or 'csv'")]);
    assert_eq!(p.exit_code, 1);
    assert!(p.entries.is_empty());
    assert!(p.csv.is_none());
}

#[test]
fn export_plan_csv_and_json() {
    let csv = export_audit_plan("csv");
    assert_eq!(shown(&csv.lines), vec![out("Fetching audit log entries...")]);
    assert_eq!(csv.exit_code, 0);
    assert_eq!(csv.csv.as_deref(), Some("id,operation,actor,timestamp,result\n"));
    let json = export_audit_plan("json");
    assert!(json.csv.is_none());
    let entries: Vec<AuditEntry> = json.entries;
    assert!(entries.is_empty());
}

#[test]
fn export_finish_lines() {
    let ok = export_audit_finish(0, "audit.csv", "csv", None);
    assert_eq!(shown(&ok.lines), vec![out("✔ Exported 0 audit log entries to audit.csv (csv)")]);
    assert_eq!(ok.exit_code, 0);
    let failed = export_audit_finish(3, "/nope/a.json", "json", Some("No such file or directory".to_string()));
    assert_eq!(
        shown(&failed.lines),
        vec![err("error: cannot write to /nope/a.json: No such file or directory")]
    );
    assert_eq!(failed.exit_code, 1);
}
