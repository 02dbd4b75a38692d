use okx_pa_agent::artifact::ActivePrompt;
use okx_pa_agent::digest::content_hash;
use okx_pa_agent::prompts::{
    experience_wanted, render_experience_section, stage2_files_used, ExperienceCaseText,
    build_source_2pa_system_prompt, experience_query, render_position_context_section, resolve_strategy_prompt,
    resolve_strategy_prompt_for_system, route_stage2_strategy_files, PositionText, StrategyPrompt, LANGUAGE_ZH_RULE,
    THINKING_CONTENT_OUTPUT_RULE,
};

const FALLBACK: &str = "策略协议：只在确认的二次入场时开仓。";

#[test]
fn embedded_prompt_is_used_without_a_directory() {
    let sp = resolve_strategy_prompt(None, FALLBACK);
    assert_eq!(sp.source, "embedded");
    assert_eq!(sp.version, "embedded");
    assert!(!sp.content.is_empty());
}

#[test]
fn embedded_prompt_is_fingerprinted() {
    let sp = StrategyPrompt::embedded(FALLBACK);
    assert_eq!(sp.hash, content_hash(FALLBACK));
    assert_eq!(sp.content, FALLBACK);
}

#[test]
fn active_artifact_wins_over_the_fallback() {
    let a = ActivePrompt {
        name: "strategy".to_string(),
        version: "v3".to_string(),
        hash: "abcd".to_string(),
        content: "新协议".to_string(),
    };
    let sp = resolve_strategy_prompt(Some(&a), FALLBACK);
    assert_eq!((sp.source, sp.version.as_str(), sp.content.as_str()), ("artifact", "v3", "新协议"));
}

#[test]
fn dog_walking_systems_use_the_harness() {
    let sp = resolve_strategy_prompt_for_system("遛狗", "SKILL", "CONTRACT", None, FALLBACK);
    assert_eq!(sp.content, "SKILL\n\nCONTRACT");
    assert_eq!(sp.version, "dog_walking_harness");
    assert_eq!(sp.source, "harness");
    assert_eq!(sp.hash, content_hash("SKILL\n\nCONTRACT"));
    let other = resolve_strategy_prompt_for_system("2pa", "SKILL", "CONTRACT", None, FALLBACK);
    assert_eq!(other.source, "embedded");
}

#[test]
fn source_2pa_system_prompt_wraps_the_rule_blocks() {
    let p = build_source_2pa_system_prompt("人设", "二元");
    assert!(p.starts_with(LANGUAGE_ZH_RULE));
    assert!(p.contains(THINKING_CONTENT_OUTPUT_RULE));
    assert!(p.ends_with("\n\n---\n\n人设\n\n---\n\n二元"));
}

#[test]
fn position_section_shows_the_position_or_the_flat_account() {
    let flat = render_position_context_section(None);
    assert!(flat.contains("【空仓 (No Open Position)】"));
    let p = PositionText {
        has_position: true,
        symbol: "BTC-USDT-SWAP".to_string(),
        pos_side: "LONG".to_string(),
        pos_size: "2".to_string(),
        open_avg_px: Some("100.00".to_string()),
        mark_px: None,
        unrealized: None,
        current_sl: Some("95.00".to_string()),
        current_tp: None,
    };
    let s = render_position_context_section(Some(&p));
    assert!(s.contains("- **持仓品种与方向**：BTC-USDT-SWAP | 方向：做多 (Long)\n"));
    assert!(s.contains("- **开仓均价**：100.00 ──> **当前标记价**：未知\n"));
    assert!(s.contains("- **当前生效中的止损价 (SL)**：95.00\n- **当前生效中的止盈价 (TP)**：未设置\n"));
    let closed = PositionText { has_position: false, ..p };
    assert_eq!(render_position_context_section(Some(&closed)), flat);
}

#[test]
fn experience_query_maps_dominant_force_to_side() {
    let (cycle, dir, patterns) =
        experience_query(Some("trending_tr"), Some("bulls"), vec!["h2".to_string(), "breakout_test".to_string()]);
    assert_eq!(cycle, "trending_tr");
    assert_eq!(dir, "long");
    assert_eq!(patterns, vec!["h2", "breakout_test"]);
    assert_eq!(experience_query(Some("spike"), Some("bears"), vec![]).1, "short");
    assert_eq!(experience_query(None, Some(" Neutral "), vec![]).1, "neutral");
}

#[test]
fn routing_picks_cycle_pattern_and_base_files() {
    let files = route_stage2_strategy_files(Some("tight_channel"), Some("bulls"), &vec!["H2".to_string(), "wedge".to_string()], false);
    assert_eq!(
        files,
        vec![
            "上涨通道分析识别.txt",
            "上涨通道交易策略.txt",
            "文件13-窄通道与宽通道策略.txt",
            "文件14-楔形形态分析交易.txt",
            "文件15-二次入场机会.txt",
            "文件19-H1H2-L1L2计数.txt",
            "逐棒分析检查单.txt",
            "文件16-K线信号识别.txt",
            "文件17-止损和止盈与仓位管理.txt",
            "文件23-MeasuredMove与结构目标.txt",
        ]
    );
    let range = route_stage2_strategy_files(Some("trading_range"), None, &vec!["ascending_triangle".to_string()], false);
    assert_eq!(range[0], "震荡区间分析识别.txt");
    assert!(range.contains(&"文件21-铁丝网与无交易环境.txt".to_string()));
    assert!(range.contains(&"文件27-三角形与收敛形态.txt".to_string()));
    let none = route_stage2_strategy_files(None, None, &vec![], false);
    assert_eq!(none.len(), 4);
    let full = route_stage2_strategy_files(None, None, &vec![], true);
    assert_eq!(full.len(), 26);
}

#[test]
fn routing_for_a_bullish_channel_with_second_entries() {
    let files = route_stage2_strategy_files(
        Some("normal_channel"),
        Some("bullish"),
        &vec!["h2".to_string(), "breakout_test".to_string()],
        false,
    );
    assert!(files.contains(&"文件15-二次入场机会.txt".to_string()));
    assert!(files.contains(&"文件19-H1H2-L1L2计数.txt".to_string()));
    assert!(files.contains(&"文件18-突破失败与突破测试.txt".to_string()));
    assert!(files.contains(&"文件23-MeasuredMove与结构目标.txt".to_string()));
}

#[test]
fn experience_cases_are_cited_as_reference_only() {
    assert!(!experience_wanted(0, "trending_tr"));
    assert!(!experience_wanted(3, "  "));
    assert!(experience_wanted(3, "trending_tr"));
    assert_eq!(render_experience_section(&Vec::new()), "");
    let cases = vec![
        ExperienceCaseText {
            case_type: "success".to_string(),
            cycle_position: "trending_tr".to_string(),
            lesson: Some("同类 H2 二次入场按计划兑现。".to_string()),
            outcome_json: "{\"r_multiple\":2.0}".to_string(),
        },
        ExperienceCaseText {
            case_type: "failure".to_string(),
            cycle_position: "trending_tr".to_string(),
            lesson: None,
            outcome_json: "null".to_string(),
        },
    ];
    let section = render_experience_section(&cases);
    assert!(section.starts_with("\n## 历史同类案例"));
    assert!(section.contains("- 【成功·trending_tr】同类 H2 二次入场按计划兑现。 程序记录结果：{\"r_multiple\":2.0}\n"));
    assert!(section.ends_with("- 【失败·trending_tr】（无复盘说明） 程序记录结果：null\n"));
    assert_eq!(stage2_files_used("trending_tr", false), vec!["strategy_v1.txt".to_string()]);
    assert_eq!(
        stage2_files_used("trending_tr", true),
        vec!["strategy_v1.txt".to_string(), "experience:trending_tr".to_string()]
    );
}
