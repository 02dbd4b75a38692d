use okx_pa_agent::settings::{
    apply_general_env, apply_provider_env, check_env_form, env_flag, env_text, env_u64, env_usize,
    escape_env_token, is_configured, AIProviderSettings, GeneralSettings, PromptSettings, ProviderEnv,
    ValidationSettings,
};

#[test]
fn defaults_match_the_documented_values() {
    let p = AIProviderSettings::default();
    assert_eq!(p.model, "deepseek-v4-flash");
    assert_eq!(p.base_url, "https://api.deepseek.com");
    assert_eq!(p.context_window, 128_000);
    assert_eq!(p.stage_timeout_seconds, 240);
    let g = GeneralSettings::default();
    assert_eq!((g.analysis_bar_count, g.decision_confidence_threshold), (100, 40));
    assert_eq!(g.trading_system, "2pa");
    let pr = PromptSettings::default();
    assert_eq!(pr.experience_max_chars_per_entry, 400);
    assert!(pr.stage1_inject_pattern_briefs);
    let v = ValidationSettings::default();
    assert_eq!((v.retry_max, v.retry_max_semantic), (3, 1));
    assert_eq!(v.normalization_mode, "lenient");
}

#[test]
fn variables_override_only_when_meaningful() {
    assert_eq!(env_text("cur", Some("  new ")), "new");
    assert_eq!(env_text("cur", Some("   ")), "cur");
    assert_eq!(env_text("cur", None), "cur");
    assert!(env_flag(false, Some(" TRUE ")));
    assert!(env_flag(false, Some("1")));
    assert!(!env_flag(true, Some("yes")));
    assert!(env_flag(true, None));
    assert_eq!(env_usize(5, Some(" 42 ")), 42);
    assert_eq!(env_usize(5, Some("-1")), 5);
    assert_eq!(env_u64(7, Some("+9")), 9);
    assert_eq!(env_u64(7, Some("18446744073709551616")), 7);
}

#[test]
fn provider_and_general_overrides() {
    let mut p = AIProviderSettings::default();
    let env = ProviderEnv {
        api_key: Some(" sk ".to_string()),
        base_url: None,
        model: Some(String::new()),
        thinking: Some("true".to_string()),
        reasoning_effort: None,
        context_window: Some("64000".to_string()),
        stage_timeout_seconds: Some("x".to_string()),
    };
    apply_provider_env(&mut p, &env);
    assert_eq!(p.api_key, "sk");
    assert_eq!(p.model, "deepseek-v4-flash");
    assert!(p.thinking);
    assert_eq!(p.context_window, 64_000);
    assert_eq!(p.stage_timeout_seconds, 240);
    let mut g = GeneralSettings::default();
    apply_general_env(&mut g, Some("dog_trend"));
    assert_eq!(g.trading_system, "dog_trend");
    assert!(is_configured(" k "));
    assert!(!is_configured("  "));
}

#[test]
fn configuration_form_is_checked_in_order() {
    let fields = vec!["key".to_string(), "https://x".to_string()];
    assert!(check_env_form(&fields, "2pa", "net", "cross", true).is_ok());
    let broken = vec!["a\nb".to_string()];
    assert_eq!(check_env_form(&broken, "2pa", "net", "cross", true).unwrap_err(), "配置字段不得包含换行");
    assert_eq!(check_env_form(&fields, "scalp", "net", "cross", true).unwrap_err(), "未知交易系统");
    assert_eq!(check_env_form(&fields, "2pa", "hedge", "cross", true).unwrap_err(), "未知持仓模式");
    assert_eq!(check_env_form(&fields, "2pa", "net", "portfolio", true).unwrap_err(), "未知保证金模式");
    assert_eq!(check_env_form(&fields, "2pa", "net", "cash", false).unwrap_err(), "无效的仓位或风险参数");
}

#[test]
fn web_token_is_escaped_for_the_env_file() {
    assert_eq!(escape_env_token(r#"a\b"c$d"#), r#"a\\b\"c\$d"#);
    assert_eq!(escape_env_token("plain"), "plain");
}
