use counit::description_dsl::DescriptionDsl;
use counit::query_description::{ExplainQuery, QAExample};

#[test]
fn description_dsl_serialization_from_json_zh_cn() {
    let config = r#"{
  "领域": "API",
  "查询条件": "API",
  "假设性文档": "API"
}"#;
    let config: DescriptionDsl = DescriptionDsl::from_json_str(config).unwrap();
    assert_eq!(config.domain, "API");
}

#[test]
fn description_dsl_serialization_from_json_en() {
    let config = r#"{
    "domain": "API",
    "query": "API",
    "hypothetical_document": "API"
}"#;
    let config: DescriptionDsl = DescriptionDsl::from_json_str(config).unwrap();
    assert_eq!(config.domain, "API");
}

#[test]
fn query_description_serialization_from_json_zh_cn() {
    let config = r#"{
  "领域": "API",
  "查询条件": "API",
  "自然语言查询条件": "API",
  "假设性文档": "API"
}"#;
    let config: ExplainQuery = ExplainQuery::from_json_str(config).unwrap();
    assert_eq!(config.domain, "API");
}

#[test]
fn query_description_serialization_from_json_en() {
    let config = r#"{
    "domain": "API",
    "query": "API",
    "nature_lang_query": "API",
    "hypothetical_document": "API"
}"#;
    let config: ExplainQuery = ExplainQuery::from_json_str(config).unwrap();
    assert_eq!(config.domain, "API");
}

#[test]
fn prompt_sample() {
    let prompt = QAExample::prompt("帮我接入统一收单交易撤销的接口");
    println!("{}", prompt);
}

#[test]
fn explain_query_displays_as_one_json_line() {
    let q = ExplainQuery {
        domain: String::from("payment"),
        query: String::from("q"),
        nature_lang_query: String::from("n"),
        hypothetical_document: String::from("h"),
    };
    assert_eq!(
        q.display(),
        "{\"domain\":\"payment\",\"query\":\"q\",\"natureLangQuery\":\"n\",\"hypotheticalDocument\":\"h\"}"
    );
}

#[test]
fn description_dsl_missing_field_is_rejected() {
    assert!(DescriptionDsl::from_json_str("{\"domain\": \"API\"}").is_none());
}

#[test]
fn qa_examples_table_has_three_entries() {
    assert_eq!(QAExample::examples().len(), 3);
    assert_eq!(counit::description_dsl::DescExample::examples().len(), 3);
}

#[test]
fn prompt_holds_examples_and_question() {
    let prompt = QAExample::prompt("找到支付接口");
    assert!(prompt.starts_with("Your job is to transpile user's question relative to codebase."));
    assert!(prompt.ends_with("Q: 找到支付接口\nA:"));
    assert!(prompt.contains("Q: 帮我接入统一收单交易撤销的接口\n"));
}
