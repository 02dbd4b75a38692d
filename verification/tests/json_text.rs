use okx_pa_agent::json_text::{extract_outer_json_object, repair_trailing_commas, strip_markdown_fences};

#[test]
fn fences_and_reasoning_are_removed() {
    assert_eq!(strip_markdown_fences("<think>plan</think>\n```json\n{\"a\":1}\n```"), "{\"a\":1}");
    assert_eq!(strip_markdown_fences("  {\"a\":1}  "), "{\"a\":1}");
    assert_eq!(strip_markdown_fences("```\n{\"b\":2}"), "{\"b\":2}");
}

#[test]
fn outer_object_ignores_braces_in_strings() {
    assert_eq!(extract_outer_json_object("answer: {\"a\":\"}\",\"b\":{\"c\":1}} trailing"), "{\"a\":\"}\",\"b\":{\"c\":1}}");
    assert_eq!(extract_outer_json_object("no object here"), "no object here");
    assert_eq!(extract_outer_json_object("x {\"open\": 1"), "{\"open\": 1");
    assert_eq!(extract_outer_json_object("{\"q\":\"\\\"}\"} tail"), "{\"q\":\"\\\"}\"}");
}

#[test]
fn trailing_commas_are_repaired_outside_strings() {
    assert_eq!(repair_trailing_commas("{\"a\":[1,2,],}"), "{\"a\":[1,2]}");
    assert_eq!(repair_trailing_commas("{\"a\":\",}\"}"), "{\"a\":\",}\"}");
    assert_eq!(repair_trailing_commas("[1 ,\n ]"), "[1 \n ]");
}
