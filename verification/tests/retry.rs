use okx_pa_agent::retry::{ChatMessage, RetryAction, RetryLoop};
use okx_pa_agent::validation::parse_and_clean_json;

fn start() -> RetryLoop {
    RetryLoop::new(vec![ChatMessage { role: "user".to_string(), content: "分析".to_string() }], 1)
}

#[test]
fn a_valid_reply_is_accepted_at_once() {
    let mut l = start();
    let verdict = parse_and_clean_json("{\"a\":1}", "stage1").map(|_| ());
    match l.on_reply("{\"a\":1}", &verdict, "请修正") {
        RetryAction::Accept => {}
        _ => panic!("valid reply must be accepted"),
    }
    assert_eq!(l.messages.len(), 2);
    assert_eq!(l.messages[1].role, "assistant");
}

#[test]
fn refusals_are_fed_back_until_retries_run_out() {
    let mut l = start();
    let verdict = parse_and_clean_json("   ", "stage1").map(|_| ());
    match l.on_reply("   ", &verdict, "请输出 JSON") {
        RetryAction::AskAgain => {}
        _ => panic!("first refusal must ask again"),
    }
    assert_eq!(l.attempt, 1);
    assert_eq!(l.messages.len(), 3);
    assert_eq!(l.messages[2].content, "请输出 JSON");
    match l.on_reply("   ", &verdict, "请输出 JSON") {
        RetryAction::GiveUp(Some(m)) => assert_eq!(m, "LLM output is empty"),
        _ => panic!("second refusal must give up"),
    }
    assert_eq!(l.messages.len(), 3);
}
