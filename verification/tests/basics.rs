use okx_pa_agent::labels::{detect_gaps, BacktestDataSource, DataGap, HookRejection, TypeSafeUsage};
use okx_pa_agent::numbers::{parse_i64, parse_u64, parse_usize};
use okx_pa_agent::paths::{config_dir, harness_dir, outcomes_dir, sanitise, settings_json_path};
use okx_pa_agent::stance::{build_decision_stance_guidance, normalize_stance, stance_label_zh};

#[test]
fn stances_normalise_with_balanced_fallback() {
    assert_eq!(normalize_stance(" 激进 "), "aggressive");
    assert_eq!(normalize_stance("EXTREME"), "extreme_aggressive");
    assert_eq!(normalize_stance("whatever"), "balanced");
    assert_eq!(stance_label_zh("conservative"), "保守");
    assert!(build_decision_stance_guidance("aggressive").starts_with("决策风格：激进。"));
}

#[test]
fn paths_hang_off_the_project_root() {
    assert_eq!(config_dir("/srv/agent"), "/srv/agent/config");
    assert_eq!(settings_json_path("/srv/agent"), "/srv/agent/config/settings.json");
    assert!(outcomes_dir("/srv/agent").starts_with("/srv/agent/"));
    assert!(harness_dir("/srv/agent").starts_with("/srv/agent/"));
    assert_eq!(sanitise("a/b.c", "x"), "abc");
    assert_eq!(sanitise("../", "x"), "x");
}

#[test]
fn integers_parse_like_std() {
    assert_eq!(parse_i64("-9223372036854775808"), Some(i64::MIN));
    assert_eq!(parse_i64("9223372036854775808"), None);
    assert_eq!(parse_i64("+12"), Some(12));
    assert_eq!(parse_i64("-"), None);
    assert_eq!(parse_i64(" 1"), None);
    assert_eq!(parse_u64("18446744073709551615"), Some(u64::MAX));
    assert_eq!(parse_u64("-0"), None);
    assert_eq!(parse_usize("007"), Some(7));
    for s in ["0", "42", "-17", "+3", "", "1e3", "99999999999999999999"] {
        assert_eq!(parse_i64(s), s.parse::<i64>().ok());
        assert_eq!(parse_u64(s), s.parse::<u64>().ok());
    }
}

#[test]
fn gaps_count_the_missing_bars() {
    let ts = vec![0, 60, 120, 300, 360, 370];
    let gaps = detect_gaps(&ts, 60);
    assert_eq!(gaps, vec![DataGap { prev_ts: 120, next_ts: 300, missing_bars: 2 }]);
    assert!(detect_gaps(&ts, 0).is_empty());
    assert!(detect_gaps(&vec![5], 60).is_empty());
}

#[test]
fn small_types_have_their_defaults_and_texts() {
    assert_eq!(BacktestDataSource::default(), BacktestDataSource::OkxApi);
    assert_eq!(TypeSafeUsage::default(), TypeSafeUsage { input_tokens: 0, output_tokens: 0 });
    assert_eq!(HookRejection::RiskLimitExceeded("日亏损 120".to_string()).message(), "风控超限: 日亏损 120");
    assert_eq!(HookRejection::Custom("x".to_string()).message(), "Hook 拦截: x");
}
