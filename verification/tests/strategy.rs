use okx_pa_agent::strategy::{
    enforce_decision, DecisionFacts, check_management_action, check_opening, evidence_gate, fallback_action, is_opening, terminal_allows, FrameFacts,
    OpeningFacts,
};

fn frame(symbol: &str, tf: &str, newest: i64, step: i64, n: usize, ready: bool) -> FrameFacts {
    FrameFacts {
        symbol: symbol.to_string(),
        timeframe: tf.to_string(),
        ts_open: (0..n as i64).map(|i| newest - i * step).collect(),
        ready,
    }
}

const M15: i64 = 900_000;
const H1: i64 = 3_600_000;

#[test]
fn evidence_gate_passes_a_clean_pair() {
    let f = frame("BTC-USDT-SWAP", "15m", 10 * H1 + 3 * M15, M15, 20, true);
    let h = frame("BTC-USDT-SWAP", "1H", 10 * H1, H1, 20, true);
    assert_eq!(evidence_gate("2pa_trend", &f, Some(&h)), Ok(()));
}

#[test]
fn evidence_gate_refuses_in_order() {
    let f = frame("BTC-USDT-SWAP", "15m", 10 * H1 + 3 * M15, M15, 20, true);
    let h = frame("BTC-USDT-SWAP", "1H", 10 * H1, H1, 20, true);
    assert_eq!(evidence_gate("adaptive", &f, Some(&h)).unwrap_err(), "该模式仅供观察，不允许自动开仓");
    let cold = frame("BTC-USDT-SWAP", "15m", 10 * H1, M15, 20, false);
    assert_eq!(evidence_gate("2pa", &cold, Some(&h)).unwrap_err(), "已收盘行情或指标预热不足");
    let mut gap = frame("BTC-USDT-SWAP", "15m", 10 * H1 + 3 * M15, M15, 20, true);
    gap.ts_open[5] -= M15;
    assert_eq!(evidence_gate("2pa", &gap, Some(&h)).unwrap_err(), "行情存在缺失 K 线，不能跨缺口确认形态");
    let other = frame("ETH-USDT-SWAP", "1H", 10 * H1, H1, 20, true);
    assert_eq!(evidence_gate("2pa", &f, Some(&other)).unwrap_err(), "缺少有效的结构化高周期行情");
    assert_eq!(evidence_gate("2pa", &f, None).unwrap_err(), "缺少有效的结构化高周期行情");
    let stale = frame("BTC-USDT-SWAP", "1H", 5 * H1, H1, 20, true);
    assert_eq!(evidence_gate("2pa", &f, Some(&stale)).unwrap_err(), "高周期行情过期或包含未来数据");
    let ahead = frame("BTC-USDT-SWAP", "1H", 11 * H1, H1, 20, true);
    assert_eq!(evidence_gate("2pa", &f, Some(&ahead)).unwrap_err(), "高周期行情过期或包含未来数据");
    let lower = frame("BTC-USDT-SWAP", "5m", 39_300_000, 300_000, 20, true);
    assert_eq!(evidence_gate("2pa", &f, Some(&lower)).unwrap_err(), "确认周期必须高于交易周期");
}

#[test]
fn management_actions_must_match_their_order_type() {
    assert_eq!(check_management_action(None, None, false), Ok(false));
    assert_eq!(check_management_action(Some("HOLD"), Some("持有"), true), Ok(false));
    assert_eq!(check_management_action(Some("HOLD"), Some("平仓"), true).unwrap_err(), "管理动作与订单类型冲突");
    assert_eq!(check_management_action(Some("CLOSE_EARLY"), Some("平仓"), false).unwrap_err(), "无持仓可管理");
    assert_eq!(check_management_action(Some("MOVE_SL_TP"), Some("修改止盈止损"), true), Ok(true));
    assert_eq!(check_management_action(Some("PANIC"), None, true).unwrap_err(), "不支持的管理动作");
}

fn opening() -> OpeningFacts {
    OpeningFacts {
        action: "OPEN".to_string(),
        order_type: "限价单".to_string(),
        direction: Some("做空".to_string()),
        has_position: false,
        gate_result: Some("proceed".to_string()),
        terminal_outcome: None,
        equation_is_false: false,
    }
}

#[test]
fn openings_need_a_clean_path() {
    assert!(is_opening("突破单", ""));
    assert!(is_opening("", "OPEN"));
    assert!(!is_opening("不下单", "WAIT"));
    assert_eq!(check_opening(&opening()), Ok(-1));
    let mut o = opening();
    o.has_position = true;
    assert_eq!(check_opening(&o).unwrap_err(), "已有持仓，禁止新开仓");
    let mut o = opening();
    o.gate_result = Some("wait".to_string());
    assert_eq!(check_opening(&o).unwrap_err(), "阶段一未放行");
    let mut o = opening();
    o.terminal_outcome = Some("reject".to_string());
    assert_eq!(check_opening(&o).unwrap_err(), "模型决策与终止状态冲突");
    let mut o = opening();
    o.direction = None;
    assert_eq!(check_opening(&o).unwrap_err(), "无效交易方向");
    let mut o = opening();
    o.action = "WAIT".to_string();
    assert_eq!(check_opening(&o).unwrap_err(), "开仓订单类型与 action 冲突");
    assert!(terminal_allows(Some("proceed"), false));
    assert!(!terminal_allows(None, true));
    assert_eq!(fallback_action(true), "HOLD");
    assert_eq!(fallback_action(false), "WAIT");
}

fn proposal(action: &str, order_type: &str, direction: Option<&str>) -> DecisionFacts {
    DecisionFacts {
        system: "2pa_trend".to_string(),
        action: action.to_string(),
        order_type: order_type.to_string(),
        direction: direction.map(|d| d.to_string()),
    }
}

#[test]
fn enforce_accepts_a_checked_opening() {
    let d = proposal("OPEN", "限价单", Some("做多"));
    let r = enforce_decision(&d, true, true, false, Ok(()), Err("unused".to_string()));
    assert!(r.passed);
    assert!(r.entry_checked);
    assert_eq!(r.action, "OPEN");
    assert_eq!(r.order_type, "限价单");
    assert!(r.traders_equation_passes);
    assert!(!r.clears_risk_reward);
    assert!(!r.terminal_wait);
    assert!(r.rejected_proposal.is_none());
    assert_eq!(r.strategy_id, "2pa_trend");
    assert_eq!(r.strategy_version, "2026-09-v1");
}

#[test]
fn enforce_rewrites_a_refused_opening() {
    let d = proposal("OPEN", "限价单", Some("做多"));
    let r = enforce_decision(&d, true, true, true, Ok(()), Ok(()));
    assert!(!r.passed);
    assert_eq!(r.reason.as_deref(), Some("已有持仓，禁止新开仓"));
    assert_eq!(r.action, "HOLD");
    assert_eq!(r.order_type, "不下单");
    assert!(r.terminal_wait);
    assert!(!r.traders_equation_passes);
    let kept = r.rejected_proposal.unwrap();
    assert_eq!(kept.action, "OPEN");
    assert_eq!(kept.order_type, "限价单");

    let r = enforce_decision(&d, false, true, false, Ok(()), Ok(()));
    assert_eq!(r.reason.as_deref(), Some("阶段一未放行"));
    assert_eq!(r.action, "WAIT");
    let r = enforce_decision(&d, true, true, false, Err("证据不足".to_string()), Ok(()));
    assert_eq!(r.reason.as_deref(), Some("证据不足"));
    let r = enforce_decision(&proposal("WAIT", "市价单", Some("做多")), true, true, false, Ok(()), Ok(()));
    assert_eq!(r.reason.as_deref(), Some("开仓订单类型与 action 冲突"));
    let r = enforce_decision(&proposal("OPEN", "限价单", None), true, true, false, Ok(()), Ok(()));
    assert_eq!(r.reason.as_deref(), Some("无效交易方向"));
    let r = enforce_decision(&d, true, false, false, Ok(()), Ok(()));
    assert_eq!(r.reason.as_deref(), Some("模型决策与终止状态冲突"));
}

#[test]
fn enforce_checks_management_decisions() {
    let d = DecisionFacts { system: "nope".to_string(), ..proposal("HOLD", "不下单", None) };
    let r = enforce_decision(&d, false, false, true, Err("unused".to_string()), Ok(()));
    assert!(r.passed);
    assert!(!r.entry_checked);
    assert_eq!(r.action, "HOLD");
    assert!(r.clears_risk_reward);
    assert!(!r.traders_equation_passes);
    assert_eq!(r.strategy_id, "unknown");
    let r = enforce_decision(&d, true, true, true, Ok(()), Err("止损只能收紧".to_string()));
    assert_eq!(r.reason.as_deref(), Some("止损只能收紧"));
    assert_eq!(r.action, "HOLD");
}
