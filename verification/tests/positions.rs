use okx_pa_agent::positions::{
    inst_type, management_plan, owned_order, position_side, protection_matches, unique_protection, ManagementPlan,
    OrderTags, ProtectionRow,
};

fn tags(tag: Option<&str>, cl: Option<&str>) -> OrderTags {
    OrderTags {
        tag: tag.map(str::to_string),
        cl_ord_id: cl.map(str::to_string),
        algo_cl_ord_id: None,
        attach_algo_cl_ord_id: None,
    }
}

#[test]
fn position_sides_follow_pos_side_or_size_sign() {
    assert_eq!(position_side(Some("long"), Some(true)), Ok("long"));
    assert_eq!(position_side(Some("short"), Some(false)), Ok("short"));
    assert_eq!(position_side(Some("net"), Some(true)), Ok("short"));
    assert_eq!(position_side(None, Some(false)), Ok("long"));
    assert_eq!(position_side(Some(""), Some(true)), Ok("short"));
    assert_eq!(position_side(Some("both"), Some(false)), Err("未知的持仓方向".to_string()));
    assert_eq!(position_side(Some("long"), None), Err("持仓数量无效，拒绝推断仓位".to_string()));
}

#[test]
fn orders_are_ours_by_tag_or_client_id() {
    assert!(owned_order(&tags(Some("c314b0aecb5bBCDE"), None)));
    assert!(owned_order(&tags(None, Some("pa1234"))));
    assert!(!owned_order(&tags(Some("other"), Some("manual1"))));
    let attached = OrderTags {
        tag: None,
        cl_ord_id: None,
        algo_cl_ord_id: None,
        attach_algo_cl_ord_id: Some("pa99a".to_string()),
    };
    assert!(owned_order(&attached));
}

fn protection(side: &str, pos_side: Option<&str>, td_mode: Option<&str>) -> ProtectionRow {
    ProtectionRow {
        tags: tags(None, Some("pa1")),
        inst_id: Some("BTC-USDT-SWAP".to_string()),
        side: Some(side.to_string()),
        pos_side: pos_side.map(str::to_string),
        td_mode: td_mode.map(str::to_string),
    }
}

#[test]
fn protections_must_close_the_held_position() {
    let row = protection("sell", Some("long"), Some("cross"));
    assert!(protection_matches(&row, "BTC-USDT-SWAP", "long", "cross", "long_short"));
    assert!(!protection_matches(&row, "ETH-USDT-SWAP", "long", "cross", "long_short"));
    assert!(!protection_matches(&row, "BTC-USDT-SWAP", "short", "cross", "net"));
    assert!(!protection_matches(&row, "BTC-USDT-SWAP", "long", "isolated", "net"));
    let net_row = protection("buy", None, None);
    assert!(protection_matches(&net_row, "BTC-USDT-SWAP", "short", "cross", "net"));
    assert!(!protection_matches(&net_row, "BTC-USDT-SWAP", "short", "cross", "long_short"));
}

#[test]
fn only_a_unique_protection_is_amended() {
    assert_eq!(unique_protection(&vec![false, true, false]), Some(1));
    assert_eq!(unique_protection(&vec![true, true]), None);
    assert_eq!(unique_protection(&vec![false, false]), None);
    assert_eq!(unique_protection(&Vec::new()), None);
}

#[test]
fn management_decisions_become_plans() {
    assert_eq!(management_plan("CLOSE_EARLY", ""), ManagementPlan::Close);
    assert_eq!(management_plan("", "平仓"), ManagementPlan::Close);
    assert_eq!(management_plan("MOVE_SL_TP", ""), ManagementPlan::Amend { change_sl: true, change_tp: true });
    assert_eq!(management_plan("MOVE_STOP_LOSS", ""), ManagementPlan::Amend { change_sl: true, change_tp: false });
    assert_eq!(
        management_plan("TRAILING_TAKE_PROFIT", ""),
        ManagementPlan::Amend { change_sl: false, change_tp: true }
    );
    assert_eq!(management_plan("HOLD", "修改止盈"), ManagementPlan::Amend { change_sl: false, change_tp: true });
    assert_eq!(management_plan("HOLD", ""), ManagementPlan::Amend { change_sl: false, change_tp: false });
}

#[test]
fn instrument_types_come_from_the_symbol() {
    assert_eq!(inst_type("BTC-USDT-SWAP"), "SWAP");
    assert_eq!(inst_type("BTC-USD-240628-X"), "FUTURES");
    assert_eq!(inst_type("BTC-USDT"), "SPOT");
}
