use okx_pa_agent::strategy::OpeningFacts;
use okx_pa_agent::analysis::{
    analysis_step, AnalysisAction, AnalysisEvent, AnalysisPhase, AnalysisState, AnalysisVerdict,
    experience_max_entries, stage1_source, Stage1Source,
    check_bar_count, execution_route, fetch_limit, higher_timeframe, is_adaptive, override_applies, select_system,
    system_name, ExecutionRoute,
};

#[test]
fn analyses_need_between_20_and_800_bars() {
    assert!(check_bar_count(20).is_ok());
    assert!(check_bar_count(800).is_ok());
    assert_eq!(check_bar_count(19), Err("分析 K 线数量必须在 20 至 800 之间".to_string()));
    assert!(check_bar_count(801).is_err());
}

#[test]
fn overrides_choose_the_strategy() {
    assert_eq!(select_system("2pa_trend", Some("遛狗")), Ok("dog_reversion"));
    assert_eq!(select_system("2pa", None), Ok("2pa_trend"));
    assert_eq!(select_system("dog_trend", Some("   ")), Ok("dog_trend"));
    assert_eq!(select_system("2pa", Some("martingale")), Err("未知交易系统".to_string()));
    assert_eq!(select_system("nonsense", None), Err("未知交易系统".to_string()));
    assert!(override_applies(Some("dog_trend")));
    assert!(!override_applies(Some("  ")));
    assert!(!override_applies(None));
}

#[test]
fn adaptive_runs_read_more_history() {
    assert!(is_adaptive("Adaptive"));
    assert!(is_adaptive("自适应模式"));
    assert!(!is_adaptive("2pa_trend"));
    assert_eq!(fetch_limit(100, 200, false), 320);
    assert_eq!(fetch_limit(20, 10, false), 100);
    assert_eq!(fetch_limit(100, 200, true), 800);
    assert_eq!(fetch_limit(700, 200, true), 920);
}

#[test]
fn short_timeframes_are_confirmed_higher_up() {
    assert_eq!(higher_timeframe("15m"), Some("1H"));
    assert_eq!(higher_timeframe("1h"), Some("4H"));
    assert_eq!(higher_timeframe("4H"), None);
}

#[test]
fn decisions_are_routed_by_order_type_and_action() {
    assert_eq!(execution_route("限价单", "OPEN_LONG"), ExecutionRoute::Entry);
    assert_eq!(execution_route("市价单", "WAIT"), ExecutionRoute::NoOrder);
    assert_eq!(execution_route("市价单", "CLOSE_EARLY"), ExecutionRoute::Management);
    assert_eq!(execution_route("修改止损", "HOLD"), ExecutionRoute::Management);
    assert_eq!(execution_route("", "MOVE_SL_TP"), ExecutionRoute::Management);
    assert_eq!(execution_route("观望", "HOLD"), ExecutionRoute::NoOrder);
}

#[test]
fn strategies_have_display_names() {
    assert_eq!(system_name("dog_trend"), "遛狗顺势回踩");
    assert_eq!(system_name("2pa_source"), "2PA 价格行为系统 (Al Brooks)");
}

#[test]
fn the_two_stage_run_chooses_its_inputs() {
    assert_eq!(experience_max_entries(true, true, 5), 5);
    assert_eq!(experience_max_entries(true, false, 5), 0);
    assert_eq!(experience_max_entries(false, true, 5), 0);
    assert_eq!(stage1_source(true, true, true), Stage1Source::TypeSafe);
    assert_eq!(stage1_source(true, false, true), Stage1Source::ForcedWait);
    assert_eq!(stage1_source(true, false, false), Stage1Source::Model);
    assert_eq!(stage1_source(false, false, true), Stage1Source::Model);
}

fn decision(action: &str, order_type: &str, direction: Option<&str>, has_position: bool) -> OpeningFacts {
    OpeningFacts {
        action: action.to_string(),
        order_type: order_type.to_string(),
        direction: direction.map(|d| d.to_string()),
        has_position,
        gate_result: Some("proceed".to_string()),
        terminal_outcome: Some("trade".to_string()),
        equation_is_false: false,
    }
}

fn begin(system: &str, typesafe: bool, fail_closed: bool, eligible: bool) -> (AnalysisState, AnalysisAction) {
    analysis_step(
        &AnalysisState::new(),
        &AnalysisEvent::Begin {
            system: system.to_string(),
            typesafe_configured: typesafe,
            fail_closed,
            long_eligible: eligible,
            short_eligible: false,
        },
    )
}

#[test]
fn unknown_system_fails_the_run() {
    let (s, a) = begin("mystery", false, false, true);
    assert!(matches!(a, AnalysisAction::Fail(m) if m == "未知交易系统"));
    assert_eq!(s.phase, AnalysisPhase::Done);
}

#[test]
fn eligible_run_opens_after_both_stages() {
    let (s, a) = begin("2PA", false, false, true);
    assert!(matches!(a, AnalysisAction::AskStage1));
    assert_eq!(s.system, "2pa_trend");
    let (s, a) = analysis_step(&s, &AnalysisEvent::Stage1Answered { gate_proceed: true });
    assert!(matches!(a, AnalysisAction::AskStage2 { gate_proceed: true }));
    let (_, a) = analysis_step(
        &s,
        &AnalysisEvent::Stage2Answered { decision: decision("OPEN", "限价单", Some("做多"), false), evidence: Ok(()), management: Ok(()) },
    );
    assert!(matches!(a, AnalysisAction::Finish(AnalysisVerdict::Open { sign: 1 })));
}

#[test]
fn no_eligible_candidate_forces_the_gate_to_wait() {
    let (s, _) = begin("2pa", false, false, false);
    let (s, a) = analysis_step(&s, &AnalysisEvent::Stage1Answered { gate_proceed: true });
    assert!(matches!(a, AnalysisAction::AskStage2 { gate_proceed: false }));
    let (_, a) = analysis_step(
        &s,
        &AnalysisEvent::Stage2Answered { decision: decision("OPEN", "限价单", Some("做多"), false), evidence: Ok(()), management: Ok(()) },
    );
    assert!(matches!(a, AnalysisAction::Finish(AnalysisVerdict::Refused { hold: false, reason }) if reason == "阶段一未放行"));
}

#[test]
fn typesafe_fail_closed_waits_and_falls_back_otherwise() {
    let (s, a) = begin("2pa", true, true, true);
    assert!(matches!(a, AnalysisAction::AskTypeSafe));
    let (_, a) = analysis_step(&s, &AnalysisEvent::TypeSafeUnavailable);
    assert!(matches!(a, AnalysisAction::AskStage2 { gate_proceed: false }));
    let (s, _) = begin("2pa", true, false, true);
    let (s, a) = analysis_step(&s, &AnalysisEvent::TypeSafeUnavailable);
    assert!(matches!(a, AnalysisAction::AskStage1));
    let (_, a) = analysis_step(&s, &AnalysisEvent::Failed("第一阶段市场分析失败".to_string()));
    assert!(matches!(a, AnalysisAction::Fail(m) if m == "第一阶段市场分析失败"));
}

#[test]
fn management_decisions_pass_their_own_checks() {
    let (s, _) = begin("2pa", false, false, true);
    let (s, _) = analysis_step(&s, &AnalysisEvent::Stage1Answered { gate_proceed: true });
    let (_, a) = analysis_step(
        &s,
        &AnalysisEvent::Stage2Answered {
            decision: decision("HOLD", "持有", None, true),
            evidence: Ok(()),
            management: Err("无持仓可管理".to_string()),
        },
    );
    assert!(matches!(a, AnalysisAction::Finish(AnalysisVerdict::Refused { hold: true, reason }) if reason == "无持仓可管理"));
}
