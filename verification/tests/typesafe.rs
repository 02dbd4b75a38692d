use okx_pa_agent::labels::QuestionType;
use okx_pa_agent::typesafe::{QuestionCriteria, TypeSafeClient, TypeSafeQuestion};

#[test]
fn blank_settings_fall_back_to_defaults() {
    let c = TypeSafeClient::new("  ", "", "  key  ", 1);
    assert_eq!(c.model, "jev-latest");
    assert_eq!(c.base_url, "https://api.typesafe.ai/v1");
    assert_eq!(c.api_key, "key");
    assert_eq!(c.timeout_seconds, 5);
    assert!(c.has_api_key());
    assert_eq!(c.authorization(), Some("Bearer key".to_string()));
}

#[test]
fn configured_settings_are_cleaned() {
    let c = TypeSafeClient::new(" jev-2 ", "https://example.test/api//", "", 30);
    assert_eq!(c.model, "jev-2");
    assert_eq!(c.base_url, "https://example.test/api");
    assert_eq!(c.timeout_seconds, 30);
    assert!(!c.has_api_key());
    assert_eq!(c.authorization(), None);
    assert_eq!(c.endpoint(), "https://example.test/api/systemone");
    let d = TypeSafeClient::new("m", "https://example.test/systemone", "k", 9);
    assert_eq!(d.endpoint(), "https://example.test/systemone");
}

#[test]
fn questions_carry_their_type_and_criteria() {
    let q = TypeSafeQuestion::noul("Is the setup valid?");
    assert_eq!(q.question_type, QuestionType::Noul);
    assert!(matches!(q.criteria, QuestionCriteria::Unstated));
    let q = TypeSafeQuestion::noul_with_criteria("Valid?", "confirmed", "chop");
    match q.criteria {
        QuestionCriteria::Verdicts { true_meaning, false_meaning } => {
            assert_eq!(true_meaning, "confirmed");
            assert_eq!(false_meaning, "chop");
        }
        _ => panic!("expected verdicts"),
    }
    let q = TypeSafeQuestion::choice("Regime?", vec![("bull_trend".to_string(), "up".to_string())]);
    assert_eq!(q.question_type, QuestionType::Choice);
    let q = TypeSafeQuestion::score("Quality?", vec!["0".to_string(), "1".to_string()]);
    assert_eq!(q.question_type, QuestionType::Score);
    assert_eq!(q.instructions, "Quality?");
}
