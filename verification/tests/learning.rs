use okx_pa_agent::learning::{
    evaluation_mode, release_gate, triage, AttributionText, CaseWrite, EvaluationMode, ExperienceWriter, Lookup,
    Proposer, ReconcileReport, StrategyReflector, Trade2Episode, Triage, group_by_prompt_version, verdict_summary,
    compare_candidate, CandidateFacts, CandidateVerdict, exit_label, render_lesson, LessonFacts, evaluate_versions,
};
use okx_pa_agent::outcomes::OutcomeStore;

#[test]
fn path_traversal_is_neutralised() {
    let store = OutcomeStore::new("/records/outcomes");
    assert_eq!(store.path_for("../../etc/passwd"), "/records/outcomes/etcpasswd.json");
    assert_eq!(store.path_for("../.."), "/records/outcomes/unknown.json");
    assert!(store.path_for("../../etc/passwd").starts_with(store.dir()));
}

#[test]
fn stored_outcomes_are_found_by_path() {
    let store = OutcomeStore::new("/records/outcomes");
    let files = vec!["/records/outcomes/abc123.json".to_string()];
    assert!(store.is_stored("abc123", &files));
    assert!(!store.is_stored("nope", &files));
}

#[test]
fn listing_is_newest_first_and_cut_to_the_limit() {
    let store = OutcomeStore::new("/records/outcomes");
    let created = vec![100, 300, 200, 300];
    assert_eq!(store.list_order(&created, 10), vec![1, 3, 2, 0]);
    assert_eq!(store.list_order(&created, 2), vec![1, 3]);
    assert_eq!(store.len(&created), 4);
    assert!(!store.is_empty(&created));
    assert!(store.is_empty(&vec![]));
}

#[test]
fn case_files_follow_the_reader_convention() {
    let w = ExperienceWriter::new("/exp");
    assert_eq!(w.dir(), "/exp");
    assert_eq!(w.case_dir("  "), "/exp/unknown");
    assert_eq!(w.case_dir("trending_tr"), "/exp/trending_tr");
    assert_eq!(w.case_path("spike", false, "x.json"), "/exp/spike/failure_cases/x.json");
    let name = ExperienceWriter::case_filename(1_700_000_000_000, 1_600_000_000_000, 0, "sig/1").unwrap();
    assert_eq!(name, "2023-11-14_22-13-20_sig1.json");
    let names = vec!["2023-11-14_22-13-20_sig1.json".to_string()];
    assert!(w.has_case("sig/1", &names));
    assert!(!w.has_case("sig2", &names));
}

#[test]
fn reconciliation_counts_every_checked_row() {
    let mut r = ReconcileReport::new();
    assert!(r.is_empty());
    r.record("a", triage(true, "a", false, 10_000, 9_000, 0), &Lookup::Open);
    r.record("b", triage(true, "b", true, 10_000, 9_000, 0), &Lookup::Open);
    r.record("c", triage(false, "c", false, 10_000, 9_000, 0), &Lookup::Open);
    r.record(
        "d",
        Triage::Check,
        &Lookup::Settled { filled: true, save_error: None, case: CaseWrite::Written },
    );
    r.record("e", Triage::Check, &Lookup::Failed("timeout".to_string()));
    r.record(
        "f",
        Triage::Check,
        &Lookup::Settled { filled: false, save_error: Some("disk full".to_string()), case: CaseWrite::NotRequested },
    );
    assert_eq!(r.checked, 4);
    assert_eq!(r.still_open, 1);
    assert_eq!(r.resolved, 1);
    assert_eq!(r.unfilled, 1);
    assert_eq!(r.skipped_existing, 1);
    assert_eq!(r.experiences_written, 1);
    assert_eq!(r.errors, vec!["e 对账失败: timeout".to_string(), "f 保存结果失败: disk full".to_string()]);
    assert!(!r.is_empty());
}

#[test]
fn triage_respects_the_age_limit() {
    assert_eq!(triage(true, "s", false, 100_000, 1_000, 50_000), Triage::TooOld);
    assert_eq!(triage(true, "s", false, 100_000, 90_000, 50_000), Triage::Check);
    assert_eq!(triage(true, "", false, 100_000, 90_000, 50_000), Triage::Skip);
    assert_eq!(triage(true, "s", false, i64::MAX, i64::MIN, 0), Triage::Check);
}

#[test]
fn test_reflector_attributes_whipsaw_and_range() {
    let a = StrategyReflector::classify_failure(1, "spike", &vec![], "stop_loss", "-1.00");
    assert_eq!(a.failure_mode, "whipsaw_tight_stop");
    assert_eq!(a.root_cause, "持仓仅 1 根 K 线即被止损出局，止损空间过窄或遭遇噪音打损");
    let b = StrategyReflector::classify_failure(10, "trading_range", &vec![], "stop_loss", "-1.00");
    assert_eq!(b.failure_mode, "range_breakout_trap");
}

#[test]
fn reflector_covers_the_remaining_modes() {
    let c = StrategyReflector::classify_failure(5, "spike", &vec!["wedge_bottom".to_string()], "stop_loss", "-1.00");
    assert_eq!(c.failure_mode, "counter_trend_knife_catching");
    let d = StrategyReflector::classify_failure(5, "spike", &vec![], "closed_early", "-0.40");
    assert_eq!(d.failure_mode, "premature_discretionary_exit");
    let e = StrategyReflector::classify_failure(5, "spike", &vec![], "stop_loss", "-1.20");
    assert_eq!(e.failure_mode, "structural_invalidation");
    assert_eq!(e.root_cause, "行情突破技术无效点，止损出局 (R: -1.20)");
}

fn range_attribution() -> AttributionText {
    StrategyReflector::classify_failure(5, "trading_range", &vec![], "stop_loss", "-1.00")
}

#[test]
fn test_proposer_generates_local_diff_mutation() {
    let attrs = vec![range_attribution()];
    let base_prompt = "基础策略规则文本。";
    let proposal = Proposer::propose_mutation(base_prompt, "v1", &attrs).expect("proposal");
    assert!(proposal.mutated_content.starts_with(base_prompt));
    assert!(proposal.mutated_content.contains("GEPA 反思突变补丁"));
    assert!(proposal.mutated_content.contains("range_breakout_trap"));
    assert!(proposal.mutated_content.contains("震荡区间中轴区域严禁顺势开仓"));
    assert!(proposal.diff_summary.contains("range_breakout_trap"));
    assert!(proposal.proposal_id.starts_with("prop_"));
    assert_eq!(proposal.proposal_id.len(), 37);
    assert_eq!(proposal.proposed_version, format!("v1_gepa_{}", &proposal.proposal_id[..6]));
}

#[test]
fn proposals_address_each_mode_once() {
    let attrs = vec![range_attribution(), range_attribution()];
    let p = Proposer::propose_mutation_with_id("基础  \n", "v3", &attrs, "prop_abcdef").unwrap();
    assert_eq!(p.addressed_modes, vec!["range_breakout_trap".to_string()]);
    assert_eq!(p.proposed_version, "v3_gepa_prop_a");
    assert_eq!(p.diff_summary, "基于 2 项失败归因分析，注入 1 条局部防御条款：range_breakout_trap");
    assert!(p.mutated_content.starts_with("基础\n\n## 🔄 【GEPA 反思突变补丁 - prop_abcdef】\n### 【GEPA 负反馈防御条款 - range_breakout_trap】\n"));
    assert!(Proposer::propose_mutation("x", "v1", &vec![]).is_none());
}

#[test]
fn episodes_expect_the_winning_direction_or_wait() {
    assert_eq!(Trade2Episode::expected_action(true, "long"), "OPEN_LONG");
    assert_eq!(Trade2Episode::expected_action(true, "做空"), "OPEN_SHORT");
    assert_eq!(Trade2Episode::expected_action(false, "long"), "WAIT");
    assert_eq!(Trade2Episode::expected_action(true, "flat"), "WAIT");
}

#[test]
fn activation_is_judged_unless_forced() {
    assert_eq!(evaluation_mode(true, true, 0, 0, 5, true), EvaluationMode::Skip);
    assert_eq!(evaluation_mode(false, false, 0, 0, 5, true), EvaluationMode::Skip);
    assert_eq!(evaluation_mode(true, false, 5, 7, 5, true), EvaluationMode::LiveTrades);
    assert_eq!(evaluation_mode(true, false, 1, 7, 5, true), EvaluationMode::BenchmarkReplay);
    assert_eq!(evaluation_mode(true, false, 1, 7, 5, false), EvaluationMode::ThinLiveTrades);
    assert!(release_gate(true, &vec![]).is_ok());
    assert_eq!(
        release_gate(false, &vec!["样本不足".to_string(), "期望下降".to_string()]).unwrap_err(),
        "候选版本未通过选择性发布：样本不足；期望下降（确认无误可用 force=true 跳过统计校验）"
    );
}

#[test]
fn episode_id_cleans_the_symbol_and_cuts_the_signal() {
    assert_eq!(
        Trade2Episode::episode_id("BTC/USDT:SWAP", "abcdef0123456789"),
        "flywheel_btc-usdt-swap_abcdef012345"
    );
    assert_eq!(Trade2Episode::episode_id("ETH-USDT", "short"), "flywheel_eth-usdt_short");
    // Twelve bytes may end on a character boundary inside multi-byte text.
    assert_eq!(Trade2Episode::episode_id("X", "信号信号信号信号"), "flywheel_x_信号信号");
}

#[test]
fn synthetic_bars_share_out_the_holding_time() {
    assert_eq!(
        Trade2Episode::synthetic_bar_times(1_000_000, 1_900_000, 3),
        vec![1_000_000, 1_300_000, 1_600_000]
    );
    // Unresolved trades take fifteen minutes per bar.
    assert_eq!(Trade2Episode::synthetic_bar_times(0, 0, 2), vec![0, 900_000]);
    // No holding time still gives one bar.
    assert_eq!(Trade2Episode::synthetic_bar_times(5_000, 4_000, 0), vec![5_000]);
    // Spacing never drops under one second.
    assert_eq!(Trade2Episode::synthetic_bar_times(0, 10, 3), vec![0, 1_000, 2_000]);
}

#[test]
fn grouping_labels_empty_versions_as_unknown() {
    let versions = vec!["".to_string()];
    let grouped = group_by_prompt_version(&versions);
    assert!(grouped.keys.iter().any(|k| k == "unknown"));
}

#[test]
fn grouping_orders_versions_and_keeps_outcome_order() {
    let versions: Vec<String> = ["v2", "", "v1", "v2", "  ", "2026-09-v1"].iter().map(|s| s.to_string()).collect();
    let g = group_by_prompt_version(&versions);
    assert_eq!(g.keys, vec!["2026-09-v1", "unknown", "v1", "v2"]);
    assert_eq!(g.members, vec![vec![5], vec![1, 4], vec![2], vec![0, 3]]);
    let empty = group_by_prompt_version(&vec![]);
    assert!(empty.keys.is_empty() && empty.members.is_empty());
}

#[test]
fn verdict_summaries() {
    assert!(verdict_summary(true, &vec![]).contains("人工发布确认"));
    assert_eq!(
        verdict_summary(false, &vec!["候选样本不足 2 < 20".to_string(), "期望 R 未达门槛".to_string()]),
        "候选版本未通过选择性发布：候选样本不足 2 < 20；期望 R 未达门槛"
    );
}

struct Metrics {
    samples: usize,
    win_rate: f64,
    expectancy_r: f64,
}

fn metrics(rs: &[f64]) -> Metrics {
    let n = rs.len();
    if n == 0 {
        return Metrics { samples: 0, win_rate: 0.0, expectancy_r: 0.0 };
    }
    let wins = rs.iter().filter(|r| **r > 0.0).count();
    Metrics { samples: n, win_rate: wins as f64 / n as f64, expectancy_r: rs.iter().sum::<f64>() / n as f64 }
}

struct Policy {
    min_samples: usize,
    min_expectancy_delta_r: f64,
    max_win_rate_drop: f64,
}

fn default_policy() -> Policy {
    Policy { min_samples: 20, min_expectancy_delta_r: 0.0, max_win_rate_drop: 0.05 }
}

fn judge(candidate: &Metrics, baseline: &Metrics, policy: &Policy) -> (CandidateVerdict, f64) {
    let delta = candidate.expectancy_r - baseline.expectancy_r;
    let drop = baseline.win_rate - candidate.win_rate;
    let facts = CandidateFacts {
        candidate_samples: candidate.samples,
        baseline_samples: baseline.samples,
        min_samples: policy.min_samples,
        expectancy_short: delta < policy.min_expectancy_delta_r,
        candidate_expectancy: format!("{:.3}", candidate.expectancy_r),
        baseline_expectancy: format!("{:.3}", baseline.expectancy_r),
        expectancy_delta: format!("{:.3}", delta),
        required_delta: format!("{:.3}", policy.min_expectancy_delta_r),
        win_rate_drop_exceeds: drop > policy.max_win_rate_drop,
        win_rate_drop_points: format!("{:.1}", drop * 100.0),
        max_drop_points: format!("{:.1}", policy.max_win_rate_drop * 100.0),
    };
    (compare_candidate(&facts), delta)
}

#[test]
fn candidate_is_rejected_when_samples_are_thin() {
    let policy = Policy { min_samples: 20, ..default_policy() };
    let candidate = metrics(&[1.0, 1.0]);
    let baseline = metrics(&[0.5; 30]);
    let (v, _) = judge(&candidate, &baseline, &policy);
    assert!(!v.accepted);
    assert!(v.reasons.iter().any(|r| r.contains("候选样本不足")));
}

#[test]
fn candidate_is_rejected_when_expectancy_degrades() {
    let policy = Policy { min_samples: 3, min_expectancy_delta_r: 0.0, max_win_rate_drop: 0.05 };
    let baseline = metrics(&[1.0, 1.0, 1.0]);
    let candidate = metrics(&[0.2, 0.2, 0.2]);
    let (v, delta) = judge(&candidate, &baseline, &policy);
    assert!(!v.accepted);
    assert!(v.reasons.iter().any(|r| r.contains("期望 R 未达门槛")));
    assert!(delta < 0.0);
}

#[test]
fn candidate_is_accepted_when_it_does_not_degrade_incumbent() {
    let policy = Policy { min_samples: 3, min_expectancy_delta_r: 0.0, max_win_rate_drop: 0.05 };
    let baseline = metrics(&[0.4, 0.4, 0.4]);
    let candidate = metrics(&[0.9, 0.6, 0.5]);
    let (v, delta) = judge(&candidate, &baseline, &policy);
    assert!(v.accepted, "{:?}", v.reasons);
    assert!(delta > 0.0);
    assert!(verdict_summary(v.accepted, &v.reasons).contains("人工发布确认"));
}

#[test]
fn thin_samples_on_both_sides_skip_the_statistics() {
    let f = CandidateFacts {
        candidate_samples: 2,
        baseline_samples: 30,
        min_samples: 20,
        expectancy_short: true,
        candidate_expectancy: "1.000".to_string(),
        baseline_expectancy: "0.500".to_string(),
        expectancy_delta: "0.500".to_string(),
        required_delta: "0.000".to_string(),
        win_rate_drop_exceeds: true,
        win_rate_drop_points: "10.0".to_string(),
        max_drop_points: "5.0".to_string(),
    };
    let v = compare_candidate(&f);
    assert_eq!(v.reasons, vec!["候选样本不足：2 / 20，无法进行统计比较".to_string()]);
    let f = CandidateFacts { candidate_samples: 25, baseline_samples: 25, ..f };
    let v = compare_candidate(&f);
    assert_eq!(
        v.reasons,
        vec![
            "期望 R 未达门槛：候选 1.000R，基线 0.500R，差值 0.500R 低于要求 0.000R".to_string(),
            "胜率下降 10.0 个百分点，超过容忍度 5.0 个百分点".to_string(),
        ]
    );
    assert!(!v.accepted);
}

fn lesson_facts() -> LessonFacts {
    LessonFacts {
        cycle_position: "broad_channel".to_string(),
        patterns: vec!["wedge".to_string(), "h2".to_string()],
        side: "long".to_string(),
        exit_reason: "TP".to_string(),
        r_multiple: format!("{:.2}", 2.0_f64),
        mfe_r: format!("{:.2}", 2.345_f64),
        mae_r: format!("{:.2}", 0.5_f64),
        hold_bars: 7,
    }
}

#[test]
fn lessons_follow_the_outcome() {
    let f = lesson_facts();
    let exit = exit_label("TP");
    assert_eq!(exit, "take_profit");
    let win = format!(
        "同类结构（{} / {}）在 {} 上按计划兑现，出场原因 {}，实现 {:.2}R，过程最大浮盈 {:.2}R、最大回撤 {:.2}R，持仓 {} 根 K 线。\
             说明该结构与止损设置在本例中有效，可复现同类入场条件。",
        "broad_channel", "wedge,h2", "做多", exit, 2.0_f64, 2.345_f64, 0.5_f64, 7
    );
    assert_eq!(render_lesson(&f, true), win);
    let f = LessonFacts { side: "short".to_string(), exit_reason: "weird_exit".to_string(), ..lesson_facts() };
    let loss = format!(
        "同类结构（{} / {}）在 {} 上未按计划兑现，出场原因 {}，实现 {:.2}R（禁止记为分批止盈），过程最大浮盈 {:.2}R、最大回撤 {:.2}R，持仓 {} 根 K 线。\
             复盘时须检查：入场确认是否不足、止损是否被微观噪音扫掉、是否存在逆高周期趋势的对抗交易。",
        "broad_channel", "wedge,h2", "做空", "weird_exit", 2.0_f64, 2.345_f64, 0.5_f64, 7
    );
    assert_eq!(render_lesson(&f, false), loss);
}

#[test]
fn evaluate_versions_uses_active_as_baseline() {
    let rs = [1.0, 1.0, 1.0, 0.1, 0.1, 0.1];
    let versions: Vec<String> = ["v1", "v1", "v1", "v2", "v2", "v2"].iter().map(|s| s.to_string()).collect();
    let groups = group_by_prompt_version(&versions);
    let policy = Policy { min_samples: 3, ..default_policy() };
    let picked = evaluate_versions(&groups, "v1");
    let sample = |g: usize| -> Vec<f64> { groups.members[g].iter().map(|&i| rs[i]).collect() };
    let baseline = metrics(&picked.baseline.map(sample).unwrap_or_default());
    let verdicts: Vec<(String, CandidateVerdict)> = picked
        .candidates
        .iter()
        .map(|&g| (groups.keys[g].clone(), judge(&metrics(&sample(g)), &baseline, &policy).0))
        .collect();
    assert_eq!(verdicts.len(), 1);
    assert_eq!(verdicts[0].0, "v2");
    assert!(!verdicts[0].1.accepted);
    assert_eq!(baseline.samples, 3);
}

#[test]
fn a_failed_experience_write_is_recorded_as_an_error() {
    let mut r = ReconcileReport::new();
    r.record(
        "g",
        Triage::Check,
        &Lookup::Settled { filled: true, save_error: None, case: CaseWrite::Failed("read-only".to_string()) },
    );
    assert_eq!(r.errors, vec!["g 写入经验库失败: read-only".to_string()]);
    assert_eq!(r.experiences_written, 0);
    assert_eq!(r.resolved, 1);
}

#[test]
fn a_case_is_recorded_once() {
    let w = ExperienceWriter::new("/exp");
    assert_eq!(
        w.record_path(true, "sig-1", &Vec::new(), "trend", true, 0, 0, 0),
        Some("/exp/trend/success_cases/1970-01-01_00-00-00_sig-1.json".to_string())
    );
    assert_eq!(
        w.record_path(true, "sig-1", &Vec::new(), "trend", false, 0, 0, 0),
        Some("/exp/trend/failure_cases/1970-01-01_00-00-00_sig-1.json".to_string())
    );
    let names = vec!["1970-01-01_00-00-00_sig-1.json".to_string()];
    assert_eq!(w.record_path(true, "sig-1", &names, "trend", true, 0, 0, 0), None);
    assert_eq!(w.record_path(false, "sig-2", &Vec::new(), "trend", true, 0, 0, 0), None);
}
