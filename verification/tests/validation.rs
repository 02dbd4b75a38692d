use okx_pa_agent::validation::{
    check_stage1_keys, diagnosis_conflicts, order_kind, parse_and_clean_json, validate_stage1_json,
    validate_stage2_json, validate_stage2_json_with_stage1, DecisionFields, DiagnosisFacts, OrderKind, PriceFacts,
};

fn decision(order_type: &str, action: &str, direction: &str) -> DecisionFields {
    DecisionFields {
        present: true,
        has_order_type: true,
        has_order_direction: true,
        order_type: order_type.to_string(),
        action: action.to_string(),
        direction: direction.to_string(),
    }
}

fn prices(long_ok: bool, short_ok: bool) -> PriceFacts {
    PriceFacts {
        stop_positive: true,
        take_positive: true,
        entry_complete: true,
        long_ordered: long_ok,
        short_ordered: short_ok,
        narrow_stop: None,
    }
}

#[test]
fn blank_reply_is_plain_text_error() {
    let e = parse_and_clean_json("  \n ", "stage1").unwrap_err();
    assert_eq!(e.category, "d");
    assert_eq!(e.stage, "stage1");
    assert_eq!(e.message, "LLM output is empty");
}

#[test]
fn object_is_extracted_and_accepted() {
    let ok = parse_and_clean_json("思考完毕\n```json\n{\"gate_result\":\"proceed\"}\n```", "stage1").unwrap();
    assert_eq!(ok, "{\"gate_result\":\"proceed\"}");
}

#[test]
fn dangling_commas_are_repaired_before_giving_up() {
    let ok = parse_and_clean_json("{\"a\":[1,2,],}", "stage2").unwrap();
    assert_eq!(ok, "{\"a\":[1,2]}");
}

#[test]
fn non_object_and_broken_json_are_refused() {
    let e = parse_and_clean_json("[1,2]", "stage2").unwrap_err();
    assert_eq!(e.category, "d");
    assert_eq!(e.message, "Output is not a JSON object");
    let e = parse_and_clean_json("{\"a\": }", "stage2").unwrap_err();
    assert_eq!(e.category, "a");
    assert!(e.parse_position.is_some());
    assert!(e.message.starts_with("JSON parse error: "));
}

#[test]
fn stage1_requires_its_three_fields() {
    let e = validate_stage1_json("{\"cycle_position\":\"spike\"}", "raw").unwrap_err();
    assert_eq!(e.category, "b");
    assert_eq!(e.missing_fields, vec!["dominant_force".to_string(), "gate_result".to_string()]);
    assert_eq!(e.raw_text, "raw");
    let full = "{\"cycle_position\":\"spike\",\"dominant_force\":\"bulls\",\"gate_result\":\"proceed\"}";
    assert_eq!(validate_stage1_json(full, "raw").unwrap(), full);
    let e = check_stage1_keys(None, "raw").unwrap_err();
    assert_eq!(e.category, "d");
    assert_eq!(e.missing_fields, vec!["root object".to_string()]);
}

#[test]
fn order_kinds_follow_type_and_action() {
    assert_eq!(order_kind("不下单", ""), OrderKind::NoPrices);
    assert_eq!(order_kind("", "MOVE_STOP_LOSS"), OrderKind::MoveStop);
    assert_eq!(order_kind("修改止盈", ""), OrderKind::MoveTake);
    assert_eq!(order_kind("", "MOVE_SL_TP"), OrderKind::MoveBoth);
    assert_eq!(order_kind("限价单", "OPEN"), OrderKind::Entry);
    assert_eq!(order_kind("神秘单", ""), OrderKind::Unchecked);
}

#[test]
fn stage2_reports_missing_decision_fields() {
    let mut d = decision("限价单", "OPEN", "做多");
    d.has_order_direction = false;
    let e = validate_stage2_json(Some(&d), &prices(true, true), "raw").unwrap_err();
    assert_eq!(e.category, "b");
    assert_eq!(e.missing_fields, vec!["decision.order_direction".to_string()]);
    let e = validate_stage2_json(None, &prices(true, true), "raw").unwrap_err();
    assert_eq!(e.category, "d");
}

#[test]
fn stage2_checks_price_order_for_the_direction() {
    let e = validate_stage2_json(Some(&decision("限价单", "OPEN", "做多")), &prices(false, true), "raw").unwrap_err();
    assert_eq!(e.category, "c");
    assert_eq!(e.invalid_fields, vec!["做多要求: 止损价 < 入场价 < 止盈价".to_string()]);
    assert!(validate_stage2_json(Some(&decision("限价单", "OPEN", "做多")), &prices(true, false), "raw").is_ok());
    let mut p = prices(true, true);
    p.entry_complete = false;
    let e = validate_stage2_json(Some(&decision("市价单", "OPEN", "做空")), &p, "raw").unwrap_err();
    assert_eq!(e.invalid_fields.len(), 1);
    let mut p = prices(true, true);
    p.stop_positive = false;
    assert!(validate_stage2_json(Some(&decision("修改止损", "", "做多")), &p, "raw").is_err());
    assert!(validate_stage2_json(Some(&decision("持有", "HOLD", "做多")), &p, "raw").is_ok());
}

#[test]
fn stage2_rejects_longs_against_the_diagnosis() {
    let diag = DiagnosisFacts {
        has_program_candidates: false,
        patterns: vec!["rejection_at_high".to_string()],
        dominant_force: "Bears".to_string(),
        cycle_position: "spike".to_string(),
    };
    let found = diagnosis_conflicts("做多", Some(&diag));
    assert_eq!(found.len(), 2);
    let e = validate_stage2_json_with_stage1(Some(&decision("突破单", "OPEN", "做多")), &prices(true, true), Some(&diag), "raw")
        .unwrap_err();
    assert_eq!(e.invalid_fields.len(), 2);
    let with_candidates = DiagnosisFacts { has_program_candidates: true, ..diag };
    assert!(diagnosis_conflicts("做多", Some(&with_candidates)).is_empty());
    let reversal = DiagnosisFacts {
        has_program_candidates: false,
        patterns: vec!["h2".to_string()],
        dominant_force: "bears".to_string(),
        cycle_position: "overstretched_bearish".to_string(),
    };
    assert!(diagnosis_conflicts("做多", Some(&reversal)).is_empty());
    assert!(diagnosis_conflicts("做空", Some(&reversal)).is_empty());
}
