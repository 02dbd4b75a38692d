use okx_pa_agent::outcomes::{qualify, QualificationFacts};

fn facts(filled: bool, hold_bars: u32, exit_reason: &str) -> QualificationFacts {
    QualificationFacts {
        filled,
        prices_positive: true,
        risk_nonzero: true,
        hold_bars,
        r_within_limit: true,
        r_text: "1.5".to_string(),
        exit_reason: exit_reason.to_string(),
    }
}

#[test]
fn qualified_outcomes_pass_every_condition() {
    assert_eq!(qualify(&facts(true, 3, "take_profit"), true, 1), (true, "满足经验库准入条件".to_string()));
    assert_eq!(qualify(&facts(false, 3, "TP"), false, 1), (true, "满足经验库准入条件".to_string()));
}

#[test]
fn outcomes_fail_on_the_first_broken_condition() {
    assert_eq!(
        qualify(&facts(false, 0, "unfilled"), true, 1),
        (false, "入场单未成交，不构成可学习样本".to_string())
    );
    let mut f = facts(true, 3, "stop_loss");
    f.prices_positive = false;
    assert_eq!(qualify(&f, true, 1), (false, "入场价或止损价无效".to_string()));
    let mut f = facts(true, 3, "stop_loss");
    f.risk_nonzero = false;
    assert_eq!(qualify(&f, true, 1), (false, "初始风险为零，R 倍数无定义".to_string()));
    assert_eq!(
        qualify(&facts(true, 1, "stop_loss"), true, 2),
        (false, "持仓仅 1 根 K 线，短于资格下限 2".to_string())
    );
    let mut f = facts(true, 3, "stop_loss");
    f.r_within_limit = false;
    f.r_text = "80".to_string();
    assert_eq!(qualify(&f, true, 1), (false, "R 倍数 80 超出合理范围（疑似价格或数量异常）".to_string()));
    assert_eq!(qualify(&facts(true, 3, "unfilled"), true, 1), (false, "未成交出场，样本不完整".to_string()));
    assert_eq!(qualify(&facts(true, 3, "mystery"), true, 1), (false, "未成交出场，样本不完整".to_string()));
}

/// The facts of the sample outcome used by the qualification tests: entry
/// 100, stop 99, exit reason `take_profit`.
fn outcome(r: f64, filled: bool, hold: u32, max_abs_r: f64) -> QualificationFacts {
    let (entry, stop) = (100.0f64, 99.0f64);
    QualificationFacts {
        filled,
        prices_positive: entry > 0.0 && stop > 0.0,
        risk_nonzero: (entry - stop).abs() > 0.0,
        hold_bars: hold,
        r_within_limit: r.is_finite() && r.abs() <= max_abs_r,
        r_text: format!("{r}"),
        exit_reason: "take_profit".to_string(),
    }
}

#[test]
fn qualification_rejects_unfilled_and_short_holds() {
    let (ok, why) = qualify(&outcome(2.0, false, 10, 25.0), true, 3);
    assert!(!ok);
    assert!(why.contains("未成交"));

    let (ok, why) = qualify(&outcome(2.0, true, 1, 25.0), true, 3);
    assert!(!ok);
    assert!(why.contains("短于资格下限"));

    let (ok, why) = qualify(&outcome(2.0, true, 5, 25.0), true, 3);
    assert!(ok, "{why}");
}

#[test]
fn qualification_rejects_outlier_r() {
    let (ok, why) = qualify(&outcome(900.0, true, 5, 25.0), true, 1);
    assert!(!ok);
    assert!(why.contains("超出合理范围"));
}

#[test]
fn qualification_rejects_unfilled_exit_reason() {
    let mut o = outcome(0.0, true, 5, 25.0);
    o.exit_reason = "unfilled".into();
    let (ok, _) = qualify(&o, false, 0);
    assert!(!ok);
}
