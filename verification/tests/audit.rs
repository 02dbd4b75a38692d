use okx_pa_agent::audit::{
    apply_audit_deletion, audit_history_order, plan_audit_deletion, seen_signal_ids, AuditRow,
};

fn row(id: &str, ts_ms: i64, submitted: bool, error_code: Option<&str>, deleted: bool, signal: Option<&str>) -> AuditRow {
    AuditRow {
        id: id.to_string(),
        ts_ms,
        submitted,
        error_code: error_code.map(str::to_string),
        deleted,
        signal_id: signal.map(str::to_string),
    }
}

fn sample_log() -> Vec<AuditRow> {
    vec![
        row("a", 100, true, None, false, Some("sig-a")),
        row("b", 300, false, Some("SUBMISSION_UNCONFIRMED"), false, Some("sig-b")),
        row("c", 200, false, Some("RISK"), false, Some("sig-c")),
        row("d", 300, true, None, false, None),
    ]
}

#[test]
fn submitted_and_unconfirmed_signals_are_seen() {
    assert_eq!(seen_signal_ids(&sample_log()), vec!["sig-a".to_string(), "sig-b".to_string()]);
}

#[test]
fn deleting_a_submitted_entry_leaves_a_tombstone() {
    let mut log = sample_log();
    let plan = plan_audit_deletion(&log, "a").expect("entry a exists");
    assert_eq!(plan.index, 0);
    assert!(plan.tombstone);
    apply_audit_deletion(&mut log, &plan);
    assert_eq!(log.len(), 4);
    assert!(log[0].deleted && log[0].submitted);
    assert_eq!(log[0].signal_id.as_deref(), Some("sig-a"));
    assert_eq!(seen_signal_ids(&log), vec!["sig-a".to_string(), "sig-b".to_string()]);
    // A tombstone is no live entry: deleting again finds nothing.
    assert!(plan_audit_deletion(&log, "a").is_none());
}

#[test]
fn deleting_an_unsubmitted_entry_removes_it() {
    let mut log = sample_log();
    let plan = plan_audit_deletion(&log, "c").expect("entry c exists");
    assert!(!plan.tombstone);
    apply_audit_deletion(&mut log, &plan);
    assert_eq!(log.len(), 3);
    assert!(log.iter().all(|r| r.id != "c"));
}

#[test]
fn deleting_nothing_is_refused() {
    let log = sample_log();
    assert!(plan_audit_deletion(&log, "").is_none());
    assert!(plan_audit_deletion(&log, "zzz").is_none());
}

#[test]
fn history_lists_live_entries_newest_first() {
    let mut log = sample_log();
    log.push(row("e", 999, true, None, true, Some("sig-e")));
    // Newest first, ties in log order, tombstones hidden.
    assert_eq!(audit_history_order(&log, 10), vec![1, 3, 2, 0]);
    assert_eq!(audit_history_order(&log, 2), vec![1, 3]);
    assert_eq!(audit_history_order(&log, 0), Vec::<usize>::new());
}
