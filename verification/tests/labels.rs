use okx_pa_agent::labels::{canonical, classify_management, normalize_side, timeframe_ms, timeframe_to_ms, ExitReason, PositionSide};

#[test]
fn side_normalisation_accepts_chinese() {
    assert_eq!(normalize_side("做多"), Some("long"));
    assert_eq!(normalize_side("做空"), Some("short"));
    assert_eq!(normalize_side("nonsense"), None);
}

#[test]
fn management_close_overrides_mechanical_exit() {
    assert_eq!(classify_management("CLOSE_EARLY"), Some(ExitReason::ClosedEarly));
    assert_eq!(classify_management("HOLD"), None);
}

#[test]
fn side_normalisation_trims_and_ignores_case() {
    assert_eq!(normalize_side("  LONG "), Some("long"));
    assert_eq!(normalize_side("Sell"), Some("short"));
    assert_eq!(normalize_side("多"), Some("long"));
    assert_eq!(normalize_side("空"), Some("short"));
    assert_eq!(normalize_side(""), None);
}

#[test]
fn management_classification_trims_and_ignores_case() {
    assert_eq!(classify_management("  close_early "), Some(ExitReason::ClosedEarly));
    assert_eq!(classify_management("MOVE_STOP_LOSS"), None);
}

#[test]
fn exit_reason_names_round_trip() {
    for r in [
        ExitReason::TakeProfit,
        ExitReason::StopLoss,
        ExitReason::ClosedEarly,
        ExitReason::Expired,
        ExitReason::Unfilled,
    ] {
        assert_eq!(ExitReason::parse(r.as_str()), Some(r));
    }
    assert_eq!(ExitReason::parse(" TP "), Some(ExitReason::TakeProfit));
    assert_eq!(ExitReason::parse("sl"), Some(ExitReason::StopLoss));
    assert_eq!(ExitReason::parse("close_early"), Some(ExitReason::ClosedEarly));
    assert_eq!(ExitReason::parse("later"), None);
    assert_eq!(ExitReason::Unfilled.as_str(), "unfilled");
}

#[test]
fn canonical_maps_aliases_to_strategy_ids() {
    assert_eq!(canonical("2pa_original"), Some("2pa_source"));
    assert_eq!(canonical(" 2PA "), Some("2pa_trend"));
    assert_eq!(canonical("遛狗"), Some("dog_reversion"));
    assert_eq!(canonical("Dog_Walking"), Some("dog_reversion"));
    assert_eq!(canonical("dog_trend"), Some("dog_trend"));
    assert_eq!(canonical("自适应"), Some("adaptive"));
    assert_eq!(canonical("scalp"), None);
    for id in ["2pa_source", "2pa_trend", "dog_reversion", "dog_trend", "adaptive"] {
        assert_eq!(canonical(id), Some(id));
    }
}

#[test]
fn timeframe_lengths_follow_their_suffix() {
    assert_eq!(timeframe_ms("15m"), Ok(900_000));
    assert_eq!(timeframe_ms("4H"), Ok(14_400_000));
    assert_eq!(timeframe_ms("1d"), Ok(86_400_000));
    assert_eq!(timeframe_ms("1440m"), Ok(86_400_000));
    assert!(timeframe_ms("1441m").is_err());
    assert!(timeframe_ms("0h").is_err());
    assert!(timeframe_ms("15s").is_err());
    assert!(timeframe_ms("").is_err());
    assert_eq!(timeframe_ms("m").unwrap_err(), "不支持的行情周期");
    assert!(timeframe_ms("1分").is_err());
}

#[test]
fn backtest_timeframes_default_to_fifteen_minutes() {
    assert_eq!(timeframe_to_ms("1H"), 3_600_000);
    assert_eq!(timeframe_to_ms(" 4h "), 14_400_000);
    assert_eq!(timeframe_to_ms("1D"), 86_400_000);
    assert_eq!(timeframe_to_ms("3m"), 180_000);
    assert_eq!(timeframe_to_ms("weird"), 900_000);
}

#[test]
fn position_sides_read_in_chinese() {
    assert_eq!(PositionSide::Long.as_str(), "做多");
    assert_eq!(PositionSide::Short.as_str(), "做空");
}
