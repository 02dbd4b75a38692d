use okx_pa_agent::benchmark::{episode_file_name, episode_order, ReplayBranch, ReplayEvaluator};
use okx_pa_agent::labels::ExitReason;

const TREND_PROMPT: &str = "这是一个关于趋势、通道和震荡区间的完整策略提示词规则内容，用于评估离线交易表现。";

#[test]
fn episode_files_are_named_by_id_symbol_and_regime() {
    assert_eq!(
        episode_file_name("ep01", "BTC-USDT-SWAP", "spike"),
        "ep01_BTC-USDT-SWAP_spike.json"
    );
}

#[test]
fn suites_load_in_id_order() {
    let ids = vec!["ep03".to_string(), "ep01".to_string(), "ep02".to_string(), "ep01".to_string()];
    assert_eq!(episode_order(&ids), vec![1, 3, 2, 0]);
    assert_eq!(episode_order(&Vec::new()), Vec::<usize>::new());
}

#[test]
fn prompts_that_speak_to_the_regime_take_the_expected_action() {
    assert!(ReplayEvaluator::handles_regime(TREND_PROMPT, "tight_channel"));
    assert!(ReplayEvaluator::handles_regime(TREND_PROMPT, "trading_range"));
    assert!(!ReplayEvaluator::handles_regime("only about breakouts", "chop"));
    assert!(ReplayEvaluator::handles_regime("anything", "wedge"));
    assert!(ReplayEvaluator::takes_expected_action(TREND_PROMPT, "tight_channel"));
    // Too short to count as a prompt.
    assert!(!ReplayEvaluator::takes_expected_action("趋势", "tight_channel"));
    assert!(!ReplayEvaluator::takes_expected_action("   ", "wedge"));
}

#[test]
fn replay_branches_follow_prompt_and_expectation() {
    assert_eq!(ReplayEvaluator::replay_branch(TREND_PROMPT, "tight_channel", "OPEN_LONG"), ReplayBranch::Played);
    assert_eq!(ReplayEvaluator::replay_branch(TREND_PROMPT, "trading_range", "WAIT"), ReplayBranch::WaitHeld);
    assert_eq!(ReplayEvaluator::replay_branch("short", "trading_range", "WAIT"), ReplayBranch::Overtraded);
    assert_eq!(ReplayEvaluator::replay_branch("short", "spike", "OPEN_SHORT"), ReplayBranch::Misaligned);
}

#[test]
fn replay_branches_describe_the_simulated_outcome() {
    assert_eq!(ReplayBranch::WaitHeld.side("WAIT"), "none");
    assert_eq!(ReplayBranch::Overtraded.side("WAIT"), "long");
    assert_eq!(ReplayBranch::Played.side("OPEN_SHORT"), "short");
    assert_eq!(ReplayBranch::Misaligned.side("OPEN_LONG"), "long");
    assert_eq!(ReplayBranch::Played.pattern(), "benchmark_pass");
    assert_eq!(ReplayBranch::Overtraded.pattern(), "benchmark_overtrade");
    assert!(!ReplayBranch::WaitHeld.qualified());
    assert!(ReplayBranch::Misaligned.qualified());
    assert_eq!(ReplayBranch::WaitHeld.qualification_reason(), "观望基准切片，无成交");
    assert_eq!(ReplayBranch::Played.qualification_reason(), "合格样本");
    assert_eq!(ReplayBranch::WaitHeld.fixed_exit(), Some(ExitReason::Unfilled));
    assert_eq!(ReplayBranch::Misaligned.fixed_exit(), Some(ExitReason::StopLoss));
    assert_eq!(ReplayBranch::Played.fixed_exit(), None);
}

#[test]
fn simulated_outcomes_carry_derived_ids() {
    assert_eq!(ReplayEvaluator::signal_id("v3", "ep01"), "sim_v3_ep01");
    assert_eq!(ReplayEvaluator::decision_record_id("ep01"), "rec_bench_ep01");
}

#[test]
fn replay_lowers_the_sample_floor_to_the_suite() {
    assert_eq!(ReplayEvaluator::replay_min_samples(4, 6, 20), 4);
    assert_eq!(ReplayEvaluator::replay_min_samples(6, 4, 20), 4);
    assert_eq!(ReplayEvaluator::replay_min_samples(5, 0, 20), 5);
    assert_eq!(ReplayEvaluator::replay_min_samples(0, 0, 20), 20);
    assert_eq!(ReplayEvaluator::replay_min_samples(30, 25, 20), 20);
}
