use okx_pa_agent::web::{
    contract_listing, is_popular_contract,
    automation_gate, automation_symbol,
    failure_message, in_backoff, note_tick, record_failure, record_success, retry_delay, set_phase, AnalyzeRequest,
    AutomationRuntime, CandlesQuery, InstrumentsQuery, LimitQuery,
};

#[test]
fn request_defaults() {
    assert_eq!(InstrumentsQuery::new().inst_type, "SPOT");
    let c = CandlesQuery::new();
    assert_eq!((c.inst_id.as_str(), c.timeframe.as_str(), c.limit), ("BTC-USDT", "15m", 120));
    assert_eq!(LimitQuery::new().limit, 50);
    let a = AnalyzeRequest::new();
    assert_eq!(a.bar_count, 100);
    assert!(!a.execute);
}

#[test]
fn backoff_doubles_up_to_four_minutes() {
    assert_eq!(retry_delay(0), 30_000);
    assert_eq!(retry_delay(1), 30_000);
    assert_eq!(retry_delay(2), 60_000);
    assert_eq!(retry_delay(3), 120_000);
    assert_eq!(retry_delay(4), 240_000);
    assert_eq!(retry_delay(50), 240_000);
}

#[test]
fn failures_schedule_a_retry_and_success_clears_it() {
    let mut rt = AutomationRuntime::default();
    note_tick(&mut rt, 1_000);
    assert_eq!(rt.last_tick_ms, Some(1_000));
    record_failure(&mut rt, "boom".to_string(), 1_000);
    assert_eq!(rt.consecutive_failures, 1);
    assert_eq!(rt.phase, "error");
    assert_eq!(rt.next_retry_ms, Some(31_000));
    assert!(in_backoff(&rt, 30_999));
    assert!(!in_backoff(&rt, 31_000));
    record_failure(&mut rt, "boom".to_string(), 40_000);
    assert_eq!(rt.next_retry_ms, Some(100_000));
    record_success(&mut rt, "决策已保存".to_string(), 200_000);
    assert_eq!(rt.consecutive_failures, 0);
    assert_eq!(rt.next_retry_ms, None);
    assert_eq!(rt.last_error, None);
    assert_eq!(rt.phase, "waiting_bar");
    set_phase(&mut rt, "disabled", "自动交易未启用");
    assert_eq!(rt.message, "自动交易未启用");
}

#[test]
fn failure_messages_are_scrubbed_and_cut() {
    let secrets = vec!["sk-123".to_string(), String::new()];
    assert_eq!(failure_message("bad key sk-123!", &secrets), "bad key [redacted]!");
    let long = "错".repeat(2500);
    assert_eq!(failure_message(&long, &secrets).chars().count(), 2000);
}

#[test]
fn switching_automation_on_needs_consent() {
    assert_eq!(
        automation_gate(true, false, false, false, "ENABLE LIVE", true),
        Err("实盘执行未授权，请在服务器设置 OKX_LIVE_TRADING_ACKNOWLEDGED=true".to_string())
    );
    assert_eq!(
        automation_gate(true, false, true, false, "enable live", true),
        Err("confirmation must be ENABLE DEMO".to_string())
    );
    assert!(automation_gate(true, false, true, false, "  enable demo ", true).is_ok());
    assert_eq!(
        automation_gate(true, false, false, true, "ENABLE LIVE", false),
        Err("OKX API credentials are not configured".to_string())
    );
    assert!(automation_gate(true, true, false, true, "", false).is_ok());
    assert!(automation_gate(false, false, false, false, "", false).is_ok());
    assert_eq!(automation_symbol(" btc-usdt-swap "), "BTC-USDT-SWAP");
}

#[test]
fn contract_specs_list_popular_swaps_first() {
    let ids: Vec<String> = ["ADA-USDT-SWAP", "BTC-USDT-SWAP", "", "AAVE-USDT-SWAP", "ETH-USDT-SWAP", "BTC-USD-SWAP"]
        .iter()
        .map(|s| s.to_string())
        .collect();
    assert_eq!(contract_listing(&ids, None), vec![1, 4, 3, 0, 5]);
    assert_eq!(contract_listing(&ids, Some(" btc ")), vec![1, 5]);
    assert_eq!(contract_listing(&ids, Some("")), vec![1, 4, 3, 0, 5]);
    assert!(contract_listing(&ids, Some("zzz")).is_empty());
    assert!(is_popular_contract("SPX-USDT-SWAP"));
    assert!(!is_popular_contract("ADA-USDT-SWAP"));
}
