use okx_pa_agent::execution::{
    build_order_request, check_execution_strategy, check_order_intent, OrderInputs, StrategyCheck,
    attached_algo_id, client_order_id, ensure_execution_enabled, is_derivative, is_expired, pending_cutoff,
    pre_submit_check, EvidenceStamp, PreSubmit, generate_signal_id, DecisionJson,
};
use serde_json::Value;
use sha2::Digest;

#[test]
fn order_ids_are_prefixed() {
    assert_eq!(client_order_id("abc"), "paabc");
    assert_eq!(attached_algo_id("abc"), "paabcs");
}

#[test]
fn derivatives_are_swaps_or_four_part_ids() {
    assert!(is_derivative("BTC-USDT-SWAP"));
    assert!(is_derivative("BTC-USD-250627-C"));
    assert!(!is_derivative("BTC-USDT"));
}

#[test]
fn submission_waits_for_a_fresh_closed_bar() {
    let close = 1_000_000 + 900_000;
    match pre_submit_check(None, "BTC-USDT", "15m", 1_000_000, Some(900), close + 30_000, 120, false) {
        PreSubmit::Proceed => {}
        _ => panic!("fresh signal must proceed"),
    }
    match pre_submit_check(None, "BTC-USDT", "15m", 1_000_000, Some(900), close + 200_000, 120, false) {
        PreSubmit::Stale { age_ms } => assert_eq!(age_ms, 200_000),
        _ => panic!("old signal must be stale"),
    }
    match pre_submit_check(None, "BTC-USDT", "15m", 1_000_000, Some(900), close - 1, 120, false) {
        PreSubmit::Stale { age_ms } => assert_eq!(age_ms, 0),
        _ => panic!("open bar must be stale"),
    }
    match pre_submit_check(None, "BTC-USDT", "15m", 1_000_000, Some(900), close, 120, true) {
        PreSubmit::Duplicate(m) => assert_eq!(m, "重复信号 (当前K线周期已处理或挂单)"),
        _ => panic!("seen signal is a duplicate"),
    }
}

#[test]
fn evidence_must_point_at_the_same_signal() {
    let e = EvidenceStamp {
        signal_ts_ms: Some(1_000_000),
        timeframe: Some("15m".to_string()),
        symbol: Some("ETH-USDT".to_string()),
    };
    match pre_submit_check(Some(&e), "BTC-USDT", "15m", 1_000_000, Some(900), 1_900_000, 120, false) {
        PreSubmit::Refused(m) => assert_eq!(m, "策略证据与标的、周期或信号时间不一致"),
        _ => panic!("mismatched evidence must be refused"),
    }
}

#[test]
fn resting_entries_expire_after_the_pending_bars() {
    let cutoff = pending_cutoff(10_000_000, 900, 3);
    assert_eq!(cutoff, 10_000_000 - 2_700_000);
    assert!(is_expired(true, Some(cutoff), cutoff));
    assert!(!is_expired(true, Some(cutoff + 1), cutoff));
    assert!(!is_expired(false, Some(0), cutoff));
    assert!(!is_expired(true, None, cutoff));
    assert_eq!(pending_cutoff(i64::MIN + 5, 900, 3), i64::MIN);
}

#[test]
fn execution_needs_credentials_authorisation_and_switch() {
    assert_eq!(ensure_execution_enabled(false, true, false, true).unwrap_err(), "OKX 凭据未配置");
    assert_eq!(ensure_execution_enabled(true, false, false, true).unwrap_err(), "实盘执行未授权");
    assert_eq!(ensure_execution_enabled(true, true, false, false).unwrap_err(), "交易执行开关未开启");
    assert!(ensure_execution_enabled(true, false, true, true).is_ok());
}

#[test]
fn orders_need_an_executable_type_and_enough_confidence() {
    assert_eq!(
        check_order_intent("不下单", None, Some(90), 40),
        Err("决策为不下单或不包含可执行订单".to_string())
    );
    assert_eq!(
        check_order_intent("限价单", Some("HOLD"), Some(90), 40),
        Err("开仓订单类型与 action 冲突，拒绝执行".to_string())
    );
    assert!(check_order_intent("限价单", Some(""), Some(90), 40).is_ok());
    assert!(check_order_intent("突破单", Some("OPEN"), Some(40), 40).is_ok());
    assert_eq!(
        check_order_intent("市价单", None, Some(30), 40),
        Err("交易信心度 30% 低于设定风控门槛 40%".to_string())
    );
    // A confidence over 100 counts as none.
    assert_eq!(
        check_order_intent("市价单", None, Some(150), 40),
        Err("交易信心度 0% 低于设定风控门槛 40%".to_string())
    );
}

#[test]
fn only_known_strategies_execute_with_evidence() {
    assert_eq!(check_execution_strategy(None), Ok(StrategyCheck::Unchecked));
    assert_eq!(check_execution_strategy(Some("alpha_pilot")), Ok(StrategyCheck::Unchecked));
    assert_eq!(check_execution_strategy(Some("2pa_trend")), Ok(StrategyCheck::ValidateEvidence));
    assert_eq!(check_execution_strategy(Some("adaptive")), Err("自适应模式仅供观察".to_string()));
    assert_eq!(check_execution_strategy(Some("2pa")), Err("未知或旧版策略不能直接执行".to_string()));
}

fn inputs(inst_type: &str, order_type: &str, trade_mode: &str) -> OrderInputs {
    OrderInputs {
        inst_id: "BTC-USDT-SWAP".to_string(),
        inst_type: inst_type.to_string(),
        order_type: order_type.to_string(),
        direction: "做多".to_string(),
        size: "0.5".to_string(),
        entry: "65000.1".to_string(),
        stop: "64000".to_string(),
        target: "67000".to_string(),
        signal_id: "0123456789abcdef01234567".to_string(),
        trade_mode: trade_mode.to_string(),
        position_mode: "long_short".to_string(),
        quote_ccy: None,
    }
}

#[test]
fn limit_entries_carry_price_and_protection() {
    let r = build_order_request(&inputs("SWAP", "限价单", "cross"));
    assert_eq!(r.ord_type, "limit");
    assert_eq!(r.side, "buy");
    assert_eq!(r.pos_side.as_deref(), Some("long"));
    assert_eq!(r.px.as_deref(), Some("65000.1"));
    assert_eq!(r.cl_ord_id.as_deref(), Some("pa0123456789abcdef01234567"));
    assert_eq!(r.tag, "c314b0aecb5bBCDE");
    assert_eq!(r.attach.attach_algo_cl_ord_id, "pa0123456789abcdef01234567s");
    assert_eq!(r.attach.tp_trigger_px, "67000");
    assert_eq!(r.attach.sl_trigger_px, "64000");
    assert!(!r.is_algo);
    assert_eq!(r.ccy, None);
}

#[test]
fn breakout_entries_are_trigger_orders() {
    let r = build_order_request(&inputs("SWAP", "突破单", "cross"));
    assert!(r.is_algo);
    assert_eq!(r.ord_type, "trigger");
    assert_eq!(r.trigger_px.as_deref(), Some("65000.1"));
    assert_eq!(r.order_px.as_deref(), Some("-1"));
    assert_eq!(r.algo_cl_ord_id.as_deref(), Some("pa0123456789abcdef01234567"));
    assert_eq!(r.cl_ord_id, None);
    assert_eq!(r.px, None);
}

#[test]
fn spot_entries_name_their_currency() {
    let r = build_order_request(&inputs("SPOT", "市价单", "cross"));
    assert_eq!(r.ccy.as_deref(), Some("USDT"));
    assert_eq!(r.pos_side, None);
    assert_eq!(r.ord_type, "market");
    let r = build_order_request(&inputs("SPOT", "市价单", "cash"));
    assert_eq!(r.tgt_ccy.as_deref(), Some("base_ccy"));
    assert_eq!(r.td_mode, "cash");
    // Long signal ids are cut to 32 bytes of client id.
    let mut long = inputs("SWAP", "市价单", "cross");
    long.signal_id = "x".repeat(40);
    let r = build_order_request(&long);
    assert_eq!(r.cl_ord_id.map(|c| c.len()), Some(32));
}

fn expected_signal_id(inst: &str, tf: &str, ts: i64, decision: &Value) -> String {
    let mut m = serde_json::Map::new();
    m.insert("inst_id".to_string(), Value::from(inst));
    m.insert("timeframe".to_string(), Value::from(tf));
    m.insert("signal_ts_ms".to_string(), Value::from(ts));
    for k in ["order_direction", "order_type", "entry_price", "stop_loss_price", "take_profit_price"] {
        m.insert(k.to_string(), decision.get(k).cloned().unwrap_or(Value::Null));
    }
    let text = Value::Object(m).to_string();
    hex::encode(sha2::Sha256::digest(text.as_bytes()))[..24].to_string()
}

fn field_json(decision: &Value, k: &str) -> String {
    serde_json::to_string(&decision.get(k)).unwrap()
}

fn decision_json(decision: &Value) -> DecisionJson {
    DecisionJson {
        order_direction: field_json(decision, "order_direction"),
        order_type: field_json(decision, "order_type"),
        entry_price: field_json(decision, "entry_price"),
        stop_loss_price: field_json(decision, "stop_loss_price"),
        take_profit_price: field_json(decision, "take_profit_price"),
    }
}

#[test]
fn signal_id_hashes_the_identifying_fields() {
    let mut d = serde_json::Map::new();
    d.insert("order_direction".to_string(), Value::from("做多"));
    d.insert("order_type".to_string(), Value::from("限价单"));
    d.insert("entry_price".to_string(), Value::from(65000.5));
    d.insert("stop_loss_price".to_string(), Value::from(64000.0));
    d.insert("take_profit_price".to_string(), Value::from(67000.25));
    d.insert("reasoning".to_string(), Value::from("ignored"));
    let decision = Value::Object(d);
    let id = generate_signal_id("BTC-USDT-SWAP", "15m", 1_700_000_000_000, &decision_json(&decision));
    assert_eq!(id.len(), 24);
    assert_eq!(id, expected_signal_id("BTC-USDT-SWAP", "15m", 1_700_000_000_000, &decision));
    let other = generate_signal_id("BTC-USDT-SWAP", "15m", 1_700_000_060_000, &decision_json(&decision));
    assert_ne!(id, other);
}

#[test]
fn signal_id_of_a_wait_decision_and_a_negative_time() {
    let mut d = serde_json::Map::new();
    d.insert("order_type".to_string(), Value::from("不下单"));
    d.insert("order_direction".to_string(), Value::Null);
    let decision = Value::Object(d);
    let id = generate_signal_id("ETH-\"USDT", "1H", -5, &decision_json(&decision));
    assert_eq!(id, expected_signal_id("ETH-\"USDT", "1H", -5, &decision));
}

#[test]
fn a_seen_signal_is_a_duplicate_under_any_age_limit() {
    let close = 1_000_000 + 900_000;
    match pre_submit_check(None, "BTC-USDT", "15m", 1_000_000, Some(900), close + 5_000_000_000_000, u64::MAX, true) {
        PreSubmit::Duplicate(m) => assert_eq!(m, "重复信号 (当前K线周期已处理或挂单)"),
        _ => panic!("seen signal is a duplicate"),
    }
}
