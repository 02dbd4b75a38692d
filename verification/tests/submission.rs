use okx_pa_agent::submission::{submission_step, OrderRef, SubmitPhase, SubmitState, VenueAction, VenueEvent};

fn step(s: SubmitState, e: VenueEvent) -> (SubmitState, VenueAction) {
    submission_step(&s, &e)
}

fn begin(derivative: bool, block: bool, seen: bool) -> (SubmitState, VenueAction) {
    step(
        SubmitState::new(),
        VenueEvent::Begin { inst_id: "BTC-USDT-SWAP".to_string(), derivative, block_when_open: block, already_seen: seen },
    )
}

fn owned(id: &str) -> OrderRef {
    OrderRef { id: Some(id.to_string()), owned: true }
}

#[test]
fn full_sequence_cancels_confirms_rechecks_marks_then_places() {
    let (s, a) = begin(true, true, false);
    assert!(matches!(a, VenueAction::GetPositions));
    let (s, a) = step(s, VenueEvent::Positions(vec![Some(false)]));
    assert!(matches!(a, VenueAction::SetLeverage));
    let (s, a) = step(s, VenueEvent::LeverageSet);
    assert!(matches!(a, VenueAction::ListPendingOrders));
    let foreign = OrderRef { id: Some("x".to_string()), owned: false };
    let (s, a) = step(s, VenueEvent::PendingOrders(vec![foreign, owned("o1")]));
    match &a {
        VenueAction::CancelOrder(id) => assert_eq!(id, "o1"),
        _ => panic!("expected a cancel"),
    }
    let (s, a) = step(s, VenueEvent::Cancelled);
    match &a {
        VenueAction::GetOrder(id) => assert_eq!(id, "o1"),
        _ => panic!("expected a state query"),
    }
    let (s, a) = step(s, VenueEvent::OrderState { canceled: true, nothing_filled: true });
    assert!(matches!(a, VenueAction::ListPendingAlgoOrders));
    let (s, a) = step(s, VenueEvent::AlgoOrders(vec![owned("a1")]));
    assert!(matches!(a, VenueAction::CancelAlgoOrder(_)));
    let (s, a) = step(s, VenueEvent::Cancelled);
    assert!(matches!(a, VenueAction::GetAlgoOrder(_)));
    let (s, a) = step(s, VenueEvent::AlgoState { canceled: true });
    assert!(matches!(a, VenueAction::GetPositions));
    assert!(s.cancels_confirmed);
    let (s, a) = step(s, VenueEvent::Positions(vec![]));
    assert!(matches!(a, VenueAction::CheckAge));
    let (s, a) = step(s, VenueEvent::Age { fresh: true });
    assert!(matches!(a, VenueAction::MarkSeen));
    let (s, a) = step(s, VenueEvent::Marked);
    assert!(matches!(a, VenueAction::PlaceOrder));
    assert!(s.seen_marked);
    let (s, a) = step(s, VenueEvent::Placed);
    assert!(matches!(a, VenueAction::Submitted));
    assert_eq!(s.phase, SubmitPhase::Done);
}

#[test]
fn seen_signal_is_refused_at_once() {
    let (_, a) = begin(false, true, true);
    match a {
        VenueAction::Refuse(m) => assert_eq!(m, "重复信号 (当前K线周期已处理或挂单)"),
        _ => panic!("a seen signal must be refused"),
    }
}

#[test]
fn open_position_refuses_while_blocked() {
    let (s, _) = begin(true, true, false);
    let (_, a) = step(s, VenueEvent::Positions(vec![Some(false), Some(true)]));
    match a {
        VenueAction::Refuse(m) => assert_eq!(m, "BTC-USDT-SWAP 已存在活跃持仓，系统已启用持仓互斥保护（禁止同向加仓）"),
        _ => panic!("an open position must refuse"),
    }
    let (s, _) = begin(true, true, false);
    let (_, a) = step(s, VenueEvent::Positions(vec![None]));
    assert!(matches!(a, VenueAction::Refuse(m) if m == "持仓数量无效，拒绝新开仓"));
}

#[test]
fn unconfirmed_cancel_and_stale_signal_stop_the_entry() {
    let (s, _) = begin(false, true, false);
    let (s, _) = step(s, VenueEvent::PendingOrders(vec![owned("o1")]));
    let (s, _) = step(s, VenueEvent::Cancelled);
    let (_, a) = step(s, VenueEvent::OrderState { canceled: true, nothing_filled: false });
    assert!(matches!(a, VenueAction::Refuse(m) if m == "旧挂单已成交、部分成交或撤单尚未确认，暂停替换"));

    let (s, _) = begin(false, true, false);
    let (s, _) = step(s, VenueEvent::PendingOrders(vec![]));
    let (s, a) = step(s, VenueEvent::AlgoOrders(vec![]));
    assert!(matches!(a, VenueAction::CheckAge));
    let (_, a) = step(s, VenueEvent::Age { fresh: false });
    assert!(matches!(a, VenueAction::Refuse(m) if m == "信号已过期，提交前停止执行"));
}

#[test]
fn owned_order_without_id_and_failed_placement() {
    let (s, _) = begin(false, false, false);
    let (_, a) = step(s, VenueEvent::PendingOrders(vec![OrderRef { id: None, owned: true }]));
    assert!(matches!(a, VenueAction::Refuse(m) if m == "旧挂单缺少订单 ID"));

    let (s, _) = begin(false, false, false);
    let (s, _) = step(s, VenueEvent::PendingOrders(vec![]));
    let (s, _) = step(s, VenueEvent::AlgoOrders(vec![]));
    let (s, _) = step(s, VenueEvent::Age { fresh: true });
    let (s, a) = step(s, VenueEvent::Placed);
    assert!(matches!(a, VenueAction::Ignore));
    let (s, _) = step(s, VenueEvent::Marked);
    let (_, a) = step(s, VenueEvent::Failed("timeout".to_string()));
    assert!(matches!(a, VenueAction::Unconfirmed(m) if m == "timeout"));
}
