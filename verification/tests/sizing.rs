use okx_pa_agent::decimal::Dec;
use okx_pa_agent::sizing::{
    apply_position_scale, check_prices, fee_risk_gate, order_size, round_to_tick, FeeGateError, FeeGateInputs,
    PriceError, ScaleError, SizingError, SizingInputs,
};

fn d(mantissa: i128, scale: u32) -> Dec {
    Dec { mantissa, scale }
}

fn swap_inputs() -> SizingInputs {
    SizingInputs {
        inst_type: "SWAP".to_string(),
        inverse: false,
        ct_val: Some(d(1, 2)),
        settlement: Some("USDT".to_string()),
        entry: d(60000, 0),
        stop: d(59400, 0),
        lot_sz: d(1, 2),
        min_sz: d(1, 2),
        has_balance: true,
        total_eq: Some(d(10000, 0)),
        has_usdt_row: true,
        available: Some(d(5000, 0)),
        leverage: d(10, 0),
        risk_percent: d(1, 0),
        max_margin_percent: d(20, 0),
        auto_sizing: true,
        default_order_size: d(1, 0),
    }
}

#[test]
fn swap_size_is_bounded_by_the_risk_budget() {
    // 100 USDT of risk over 6.84 USDT per contract (6 at the stop, 0.84 fees).
    assert_eq!(order_size(&swap_inputs()), Ok(d(1461, 2)));
}

#[test]
fn configured_size_is_capped_not_raised() {
    let mut i = swap_inputs();
    i.auto_sizing = false;
    i.default_order_size = d(5, 0);
    assert_eq!(order_size(&i), Ok(d(500, 2)));
    i.default_order_size = d(100, 0);
    assert_eq!(order_size(&i), Ok(d(1461, 2)));
}

#[test]
fn spot_size_is_bounded_by_the_margin_budget() {
    let i = SizingInputs {
        inst_type: "SPOT".to_string(),
        inverse: false,
        ct_val: None,
        settlement: None,
        entry: d(100, 0),
        stop: d(98, 0),
        lot_sz: d(1, 3),
        min_sz: d(1, 3),
        has_balance: true,
        total_eq: Some(d(1000, 0)),
        has_usdt_row: true,
        available: Some(d(1000, 0)),
        leverage: d(0, 0),
        risk_percent: d(2, 0),
        max_margin_percent: d(50, 0),
        auto_sizing: true,
        default_order_size: d(1, 0),
    };
    // 500 USDT of margin over 100.24 per unit.
    assert_eq!(order_size(&i), Ok(d(4988, 3)));
}

#[test]
fn below_the_minimum_is_refused() {
    let mut i = swap_inputs();
    i.min_sz = d(20, 0);
    assert_eq!(order_size(&i), Err(SizingError::BelowMinimum { min_sz: d(20, 0), size: d(1461, 2) }));
}

#[test]
fn sizing_refusals_come_in_order() {
    let mut i = swap_inputs();
    i.stop = d(60000, 0);
    assert_eq!(order_size(&i), Err(SizingError::InvalidSpec));
    let mut i = swap_inputs();
    i.inverse = true;
    assert_eq!(order_size(&i), Err(SizingError::InverseContract));
    assert_eq!(SizingError::InverseContract.fixed_message().is_some(), true);
    let mut i = swap_inputs();
    i.ct_val = None;
    assert_eq!(order_size(&i), Err(SizingError::BadContractValue));
    let mut i = swap_inputs();
    i.settlement = Some("USDC".to_string());
    assert_eq!(order_size(&i), Err(SizingError::NotUsdtSettled));
    let mut i = swap_inputs();
    i.has_balance = false;
    assert_eq!(order_size(&i), Err(SizingError::EmptyBalance));
    let mut i = swap_inputs();
    i.total_eq = Some(d(0, 0));
    assert_eq!(order_size(&i), Err(SizingError::BadEquity));
    let mut i = swap_inputs();
    i.has_usdt_row = false;
    assert_eq!(order_size(&i), Err(SizingError::NoUsdtBalance));
    let mut i = swap_inputs();
    i.available = None;
    assert_eq!(order_size(&i), Err(SizingError::UnknownMargin));
    let mut i = swap_inputs();
    i.available = Some(d(-1, 0));
    assert_eq!(order_size(&i), Err(SizingError::NoMargin));
    let mut i = swap_inputs();
    i.leverage = d(0, 0);
    assert_eq!(order_size(&i), Err(SizingError::BadLeverage));
    assert_eq!(SizingError::BadLeverage.fixed_message(), Some("杠杆必须为正数"));
}

#[test]
fn risk_percent_is_clamped() {
    let mut i = swap_inputs();
    i.risk_percent = d(1, 3);
    // Clamped up to 0.1%: 10 USDT over 6.84 per contract.
    assert_eq!(order_size(&i), Ok(d(146, 2)));
}

#[test]
fn prices_round_to_the_nearest_tick_ties_to_even() {
    assert_eq!(round_to_tick(d(60000123, 3), d(1, 1)), Some(d(600001, 1)));
    assert_eq!(round_to_tick(d(125, 2), d(1, 1)), Some(d(12, 1)));
    assert_eq!(round_to_tick(d(135, 2), d(1, 1)), Some(d(14, 1)));
    assert_eq!(round_to_tick(d(135, 2), d(0, 0)), Some(d(135, 2)));
}

#[test]
fn price_checks_refuse_in_order() {
    assert_eq!(check_prices(d(100, 0), d(99, 0), d(103, 0), "做多", Some(d(1, 0))), Ok(()));
    assert_eq!(
        check_prices(d(100, 0), d(99, 0), d(103, 0), "做多", Some(d(2, 0))),
        Err(PriceError::BelowAtr { stop_dist: d(1, 0), min_atr_dist: d(16, 1) })
    );
    assert_eq!(
        check_prices(d(100, 0), d(998, 1), d(103, 0), "做多", None),
        Err(PriceError::TooTight { stop_dist: d(2, 1), entry: d(1000, 1) })
    );
    assert_eq!(check_prices(d(100, 0), d(101, 0), d(103, 0), "做多", None), Err(PriceError::LongOrder));
    assert_eq!(check_prices(d(100, 0), d(99, 0), d(103, 0), "做空", None), Err(PriceError::ShortOrder));
    assert_eq!(check_prices(d(100, 0), d(99, 0), d(103, 0), "x", None), Err(PriceError::BadDirection));
    assert_eq!(check_prices(d(0, 0), d(99, 0), d(103, 0), "做多", None), Err(PriceError::NotPositive));
    assert_eq!(PriceError::LongOrder.fixed_message(), Some("做多价格关系异常：必须满足 止损价 < 入场价 < 止盈价"));
}

#[test]
fn position_scale_rounds_down_to_lots() {
    assert_eq!(apply_position_scale(d(1461, 2), d(5, 1), d(1, 2), d(1, 2)), Ok(d(730, 2)));
    assert_eq!(apply_position_scale(d(1461, 2), d(15, 1), d(1, 2), d(1, 2)), Err(ScaleError::BadScale));
    assert_eq!(apply_position_scale(d(1461, 2), d(5, 1), d(1, 2), d(10, 0)), Err(ScaleError::BelowMinimum));
    assert_eq!(ScaleError::BelowMinimum.message(), "目标仓位低于最小下单量，拒绝向上补量");
}

fn gate(entry: Dec, stop: Dec, target: Dec) -> FeeGateInputs {
    FeeGateInputs { size: d(1, 0), entry, stop, target, ct_val: d(1, 0), derivative: true, inverse: false }
}

#[test]
fn fee_gate_passes_a_wide_trade() {
    assert_eq!(fee_risk_gate(&gate(d(100, 0), d(99, 0), d(101, 0))), Ok(()));
}

#[test]
fn fee_gate_refuses_a_reward_below_fees() {
    assert_eq!(fee_risk_gate(&gate(d(100, 0), d(99, 0), d(10005, 2))), Err(FeeGateError::RewardBelowFees));
}

#[test]
fn fee_gate_refuses_a_stop_close_to_fees() {
    // 0.1 USDT at the stop against 0.1 USDT of round-trip fees.
    assert_eq!(
        fee_risk_gate(&gate(d(100, 0), d(999, 1), d(110, 0))),
        Err(FeeGateError::RiskTooClose { risk: d(100, 3), risk_div: d(1, 0), fee: d(1000000, 7) })
    );
}
