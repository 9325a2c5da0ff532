use anchorkit::audit::{
    audit_entry_compact_lines, audit_entry_lines, audit_list_csv, audit_list_text, export_csv,
    fetch_audit_entries, fetch_audit_log_entry, fetch_audit_logs_by_session, fetch_page,
    parse_export_format, parse_list_format, AuditEntry, AuditLogEntry, ExportFormat, ListFormat,
};
use anchorkit::session::{
    fetch_session_from_chain, fetch_sessions_from_chain, session_compact_lines, session_lines,
    session_list_csv, session_list_limit, session_list_text, session_record_from,
    session_records_from,
    SessionRecord,
};
use anchorkit::rpc::SessionData;

fn log_entry(log_id: u64, actor: &str, result: &str) -> AuditLogEntry {
    AuditLogEntry {
        log_id,
        session_id: 5,
        actor: actor.to_string(),
        operation_type: "attest".to_string(),
        operation_index: 2,
        timestamp: 1234567900,
        status: "success".to_string(),
        result: result.to_string(),
    }
}

fn session(id: u64, initiator: &str) -> SessionRecord {
    SessionRecord {
        session_id: id,
        initiator: initiator.to_string(),
        created_at: 86400,
        nonce: 9,
        operation_count: 3,
        expires_at: 172800,
    }
}

#[test]
fn formats() {
    assert_eq!(parse_export_format("json"), Some(ExportFormat::Json));
    assert_eq!(parse_export_format("csv"), Some(ExportFormat::Csv));
    assert_eq!(parse_export_format("text"), None);
    assert_eq!(parse_list_format("text"), Some(ListFormat::Text));
    assert_eq!(parse_list_format("json"), Some(ListFormat::Json));
    assert_eq!(parse_list_format("csv"), Some(ListFormat::Csv));
    assert_eq!(parse_list_format("invalid"), None);
    assert_eq!(parse_list_format("CSV"), None);
}

#[test]
fn fetchers_return_nothing_yet() {
    assert!(fetch_page(0, 50).is_empty());
    assert!(fetch_audit_entries().is_empty());
    assert!(fetch_audit_log_entry(42).is_none());
    assert!(fetch_audit_logs_by_session(5, Some(1), Some(9)).is_empty());
    assert!(fetch_session_from_chain(1).is_none());
    assert!(fetch_sessions_from_chain(100).is_empty());
}

#[test]
fn export_csv_rows() {
    let entries = vec![
        AuditEntry { id: 1, operation: "attest".into(), actor: "G1".into(), timestamp: 10, result: "ok".into() },
        AuditEntry { id: 2, operation: "quote".into(), actor: "G2".into(), timestamp: 20, result: "x".into() },
    ];
    assert_eq!(
        export_csv(&entries),
        "id,operation,actor,timestamp,result\n1,attest,G1,10,ok\n2,quote,G2,20,x\n"
    );
    assert_eq!(export_csv(&Vec::new()), "id,operation,actor,timestamp,result\n");
}

#[test]
fn audit_csv_escapes_quotes() {
    let lines = audit_list_csv(&vec![log_entry(42, "GX", "say \"hi\"")]);
    assert_eq!(
        lines,
        vec![
            "log_id,session_id,actor,operation_type,operation_index,timestamp,status,result".to_string(),
            "42,5,GX,attest,2,1234567900,success,\"say \"\"hi\"\"\"".to_string(),
        ]
    );
}

#[test]
fn audit_csv_result_bare_when_plain() {
    let lines = audit_list_csv(&vec![log_entry(42, "GXXX", "attestation_id=100")]);
    assert_eq!(lines[1], "42,5,GXXX,attest,2,1234567900,success,attestation_id=100");
    let comma = audit_list_csv(&vec![log_entry(7, "GA", "a,b")]);
    assert_eq!(comma[1], "7,5,GA,attest,2,1234567900,success,\"a,b\"");
    let newline = audit_list_csv(&vec![log_entry(8, "GA", "a\nb")]);
    assert_eq!(newline[1], "8,5,GA,attest,2,1234567900,success,\"a\nb\"");
    let empty = audit_list_csv(&vec![log_entry(9, "GA", "")]);
    assert_eq!(empty[1], "9,5,GA,attest,2,1234567900,success,");
}

#[test]
fn audit_entry_in_full() {
    let lines = audit_entry_lines(&log_entry(42, "GX", "attestation_id=100"));
    assert_eq!(
        lines,
        vec![
            "  Log ID:          42",
            "  Session ID:      5",
            "  Actor:           GX",
            "  Operation:       attest (index: 2)",
            "  Timestamp:       1234567900 (14288d 23h 31m 40s)",
            "  Status:          success",
            "  Result:          attestation_id=100",
        ]
    );
}

#[test]
fn audit_entry_compact_cuts_fields() {
    let actor = "GXXXXXXXXXXXXXXXXXXXXXXXXXXXXXXXXXXXXXXXXXXXXXXXXXXX";
    let result = "r".repeat(60);
    let lines = audit_entry_compact_lines(&log_entry(40, actor, &result));
    assert_eq!(lines[0], "  │ Log ID:     40 │ Op: attest │ Status: success");
    assert_eq!(lines[1], format!("  │ Session:    5 │ Actor: {}", &actor[..24]));
    assert_eq!(lines[2], "  │ Timestamp:  14288d 23h 31m 40s (op_index: 2)");
    assert_eq!(lines[3], format!("  │ Result:     {}", "r".repeat(50)));
    let short = audit_entry_compact_lines(&log_entry(1, "G", "ok"));
    assert_eq!(short[1], "  │ Session:    5 │ Actor: G");
    assert_eq!(short[3], "  │ Result:     ok");
}

#[test]
fn audit_list_text_block() {
    let lines = audit_list_text(5, &vec![log_entry(40, "GA", "a"), log_entry(41, "GB", "b")]);
    assert_eq!(lines.len(), 1 + 4 + 1 + 4 + 3);
    assert_eq!(lines[0], "┌─ Audit Log Entries (Session 5) ──────────────────────────────");
    assert_eq!(lines[5], "├───────────────────────────────────────────────────────────");
    assert_eq!(lines[10], "└───────────────────────────────────────────────────────────────");
    assert_eq!(lines[11], "");
    assert_eq!(lines[12], "✔ Retrieved 2 audit log entries");
    let one = audit_list_text(5, &vec![log_entry(40, "GA", "a")]);
    assert_eq!(one.len(), 1 + 4 + 3);
    assert_eq!(one[7], "✔ Retrieved 1 audit log entries");
}

#[test]
fn session_from_data() {
    let d = SessionData {
        session_id: 3,
        initiator: "GI".into(),
        created_at: 1,
        nonce: 2,
        operation_count: 4,
        expires_at: 5,
    };
    let r = session_record_from(d);
    assert_eq!(
        r,
        SessionRecord { session_id: 3, initiator: "GI".into(), created_at: 1, nonce: 2, operation_count: 4, expires_at: 5 }
    );
}

#[test]
fn session_limit_default() {
    assert_eq!(session_list_limit(None), 100);
    assert_eq!(session_list_limit(Some(7)), 7);
}

#[test]
fn session_in_full() {
    assert_eq!(
        session_lines(&session(7, "GINIT")),
        vec![
            "  Session ID:       7",
            "  Initiator:        GINIT",
            "  Created At:       86400 (1d 00h 00m 00s)",
            "  Nonce:            9",
            "  Operation Count:  3",
            "  Expires At:       172800 (2d 00h 00m 00s)",
        ]
    );
}

#[test]
fn session_compact_takes_sixteen_characters() {
    let lines = session_compact_lines(&session(7, "GABCDEFGHIJKLMNOPQRSTUVWXYZ"));
    assert_eq!(lines[0], "│ Session: 7  Initiator: GABCDEFGHIJKLMNO...");
    assert_eq!(lines[1], "│ Created: 86400  Operations: 3  Expires: 172800");
    let accented = session_compact_lines(&session(1, "ééééééééééééééééééé"));
    assert_eq!(accented[0], "│ Session: 1  Initiator: éééééééééééééééé...");
}

#[test]
fn session_list_blocks() {
    let lines = session_list_text(&vec![session(1, "GA"), session(2, "GB")]);
    assert_eq!(lines.len(), 1 + 2 + 1 + 2 + 3);
    assert_eq!(lines[0], "┌─ Active Sessions ──────────────────────────────────────────────");
    assert_eq!(lines[3], "├───────────────────────────────────────────────────────────────");
    assert_eq!(lines[6], "└───────────────────────────────────────────────────────────────────");
    assert_eq!(lines[8], "✔ Retrieved 2 sessions");
    let one = session_list_text(&vec![session(1, "GA")]);
    assert_eq!(one[5], "✔ Retrieved 1 session");
    let csv = session_list_csv(&vec![session(1, "GA")]);
    assert_eq!(
        csv,
        vec!["session_id,initiator,created_at,operation_count,expires_at", "1,GA,86400,3,172800"]
    );
}

#[test]
fn session_records_keep_order() {
    let data = vec![
        SessionData { session_id: 1, initiator: "GA".into(), created_at: 1, nonce: 1, operation_count: 1, expires_at: 1 },
        SessionData { session_id: 2, initiator: "GB".into(), created_at: 2, nonce: 2, operation_count: 2, expires_at: 2 },
    ];
    let records = session_records_from(data);
    assert_eq!(records.len(), 2);
    assert_eq!(records[0].session_id, 1);
    assert_eq!(records[1].initiator, "GB");
}
