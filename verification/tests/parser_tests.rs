use nql::config::{read_config, ConfigBlock, ConfigEntry};
use nql::frontmatter::{frontmatter_yaml, strip_frontmatter};
use nql::parser::{
    extract_frontmatter, extract_nql_calls, extract_refs, parse_model, ExtraEntry, ModelConfig,
    NQL_FUNCTIONS,
};
use nql::yaml::{holds_tag, Yaml, YamlEntry};

fn matches_of(sql: &str) -> Vec<String> {
    extract_nql_calls(sql).into_iter().map(|call| call.full_match).collect()
}

#[test]
fn test_extract_nql_calls() {
    let sql = r#"
SELECT
    customer_id,
    feedback_text,
    nql.analyze_sentiment(feedback_text) as sentiment,
    nql.summarize(feedback_text) as summary
FROM customer_feedback
"#;
    let calls = extract_nql_calls(sql);
    assert_eq!(calls.len(), 2);
    assert_eq!(calls[0].function_name, "analyze_sentiment");
    assert_eq!(calls[0].args, "feedback_text");
    assert_eq!(calls[1].function_name, "summarize");
    assert_eq!(calls[1].args, "feedback_text");
}

#[test]
fn test_extract_refs() {
    let sql = "FROM {{ ref('customer_feedback') }} JOIN {{ ref('orders') }}";
    let refs = extract_refs(sql);
    assert_eq!(refs, vec!["customer_feedback", "orders"]);
}

#[test]
fn test_parse_frontmatter() {
    let content = r#"-- config:
--   materialized: table
--   schema: insights

SELECT 1
"#;
    let model = parse_model("test", content).unwrap();
    assert_eq!(model.config.materialized, "table");
    assert_eq!(model.config.schema, Some("insights".to_string()));
}

#[test]
fn arguments_are_everything_inside_the_parentheses() {
    let calls = extract_nql_calls("SELECT nql.summarize(upper(x)) FROM t");
    assert_eq!(calls.len(), 1);
    assert_eq!(calls[0].full_match, "nql.summarize(upper(x))");
    assert_eq!(calls[0].function_name, "summarize");
    assert_eq!(calls[0].args, "upper(x)");
    let calls = extract_nql_calls("translate(f(a, (b)), 'de') )");
    assert_eq!(calls[0].args, "f(a, (b)), 'de'");
    let calls = extract_nql_calls("SELECT f(summarize('('), y), nql.summarize('1) a') FROM t");
    assert_eq!(calls[0].args, "'1) a'");
    assert_eq!(calls[1].full_match, "summarize('(')");
    assert_eq!(calls[1].args, "'('");
    let calls = extract_nql_calls("summarize(lower(a) FROM t");
    assert_eq!(calls[0].args, "lower(a");
}

#[test]
fn calls_in_arguments_are_listed() {
    assert_eq!(
        matches_of("nql.summarize(nql.translate(a)), classify(sentiment(b))"),
        vec![
            "nql.summarize(nql.translate(a))",
            "nql.translate(a)",
            "classify(sentiment(b))",
            "sentiment(b)"
        ]
    );
}

#[test]
fn each_call_is_listed_once() {
    assert_eq!(
        matches_of("summarize(a), nql.summarize(a), summarize(b), summarize(b), nql.summarize(a)"),
        vec!["nql.summarize(a)", "summarize(b)"]
    );
}

#[test]
fn every_function_is_found() {
    for name in NQL_FUNCTIONS {
        let calls = extract_nql_calls(&format!("SELECT {}(x, 1)", name));
        assert_eq!(calls.len(), 1);
        assert_eq!(calls[0].function_name, name);
        assert_eq!(calls[0].args, "x, 1");
        assert_eq!(calls[0].full_match, format!("{}(x, 1)", name));
    }
    assert_eq!(NQL_FUNCTIONS.len(), 28);
}

#[test]
fn what_is_no_call_is_not_listed() {
    let none: Vec<String> = Vec::new();
    assert_eq!(matches_of("ésummarize(a)"), none);
    assert_eq!(matches_of("«summarize(a)»"), vec!["summarize(a)"]);
    assert_eq!(matches_of("my_summarize(a) summarize (b) summarized(c) summarize(d"), none);
    assert_eq!(matches_of(""), none);
}

#[test]
fn references_are_listed_in_order_and_again() {
    assert_eq!(
        extract_refs("{{ref('b')}} {{ ref( \"a\" ) }} {{ ref('b') }} {{ ref('') }} {{ ref(c) }}"),
        vec!["b", "a", "b"]
    );
}

#[test]
fn model_holds_what_was_parsed() {
    let content = "-- about\n\n--config:\n--  schema: s\n\nSELECT nql.summarize(a) FROM {{ ref('t') }}\n";
    let model = parse_model("m", content).unwrap();
    assert_eq!(model.name, "m");
    assert_eq!(model.raw_sql, "SELECT nql.summarize(a) FROM {{ ref('t') }}");
    assert_eq!(model.config.materialized, "view");
    assert_eq!(model.config.schema, Some("s".to_string()));
    assert_eq!(model.nql_calls.len(), 1);
    assert_eq!(model.nql_calls[0].full_match, "nql.summarize(a)");
    assert_eq!(model.refs, vec!["t"]);
}

#[test]
fn lines_of_a_model_file() {
    let content = "-- a\n\n  -- config: \r\n--   x: 1\r\n--  y: 2\n-- b\nSELECT 1\n";
    assert_eq!(frontmatter_yaml(content), Some("config:\n   x: 1\n  y: 2".to_string()));
    assert_eq!(strip_frontmatter(content), "-- b\nSELECT 1");
    assert_eq!(frontmatter_yaml("SELECT 1\n-- config:\n--   x: 1\n"), None);
    assert_eq!(strip_frontmatter("-- a\n-- b\n\nSELECT 1\n-- c\n"), "SELECT 1\n-- c");
    assert_eq!(strip_frontmatter(""), "");
    assert_eq!(strip_frontmatter("-- a"), "");
    assert_eq!(frontmatter_yaml("----config: {a: b}"), None);
    assert_eq!(frontmatter_yaml("-- config: {a: b}"), Some("config: {a: b}".to_string()));
}

#[test]
fn configuration_is_read_back() {
    let config = extract_frontmatter(
        "-- config:\n--   materialized: incremental\n--   unique_key: id\n--   tags: [a, b]\n--   n: 5\n--   unset:\nSELECT 1",
    ).unwrap();
    assert_eq!(config.materialized, "incremental");
    assert_eq!(config.schema, None);
    assert_eq!(config.extra_str("unique_key"), Some("id"));
    assert_eq!(config.extra_str("tags"), None);
    assert_eq!(config.extra_str("n"), None);
    assert_eq!(config.extra_str("unset"), None);
    assert_eq!(config.extra_str("missing"), None);
    match &config.extra[1].value {
        Yaml::Sequence(items) => {
            assert_eq!(items.len(), 2);
            assert!(matches!(&items[1], Yaml::Text(s) if s == "b"));
        }
        other => panic!("{:?}", other),
    }
    assert!(matches!(&config.extra[2].value, Yaml::Number(n) if n == "5"));
    assert!(matches!(config.extra[3].value, Yaml::Null));
    let keys: Vec<&str> = config.extra.iter().map(|e| e.key.as_str()).collect();
    assert_eq!(keys, vec!["unique_key", "tags", "n", "unset"]);
}

#[test]
fn the_last_extra_entry_of_a_key_counts() {
    let entry = |key: &str, text: Option<&str>| ExtraEntry {
        key: key.to_string(),
        value: text.map_or(Yaml::Null, |s| Yaml::Text(s.to_string())),
    };
    let config = ModelConfig {
        materialized: String::new(),
        schema: None,
        extra: vec![entry("k", Some("1")), entry("k", Some("2")), entry("l", None)],
    };
    assert_eq!(config.extra_str("k"), Some("2"));
    assert_eq!(config.extra_str("l"), None);
}

#[test]
fn without_frontmatter_every_field_is_empty() {
    let config = extract_frontmatter("SELECT 1").unwrap();
    assert_eq!(config.materialized, "");
    assert_eq!(config.schema, None);
    assert!(config.extra.is_empty());
    let config = ModelConfig::default();
    assert_eq!(config.materialized, "");
}

#[test]
fn an_empty_configuration_is_a_view() {
    for content in ["-- config:\nSELECT 1", "-- config: {}\nSELECT 1"] {
        let config = extract_frontmatter(content).unwrap();
        assert_eq!(config.materialized, "view");
        assert_eq!(config.schema, None);
    }
    let config = extract_frontmatter("-- config:\n--   schema: ~\nSELECT 1").unwrap();
    assert_eq!(config.schema, None);
}

fn failure(content: &str) -> String {
    extract_frontmatter(content).unwrap_err()
}

#[test]
fn malformed_yaml_is_an_error() {
    let message = failure("-- config: [\nSELECT 1");
    assert!(message.starts_with("Failed to parse YAML frontmatter: "), "{}", message);
    assert!(failure("-- config:\n--   a: b: c\n").starts_with("Failed to parse YAML frontmatter: "));
    assert_eq!(parse_model("m", "-- config: [\nSELECT 1").unwrap_err(), message);
    assert_eq!(frontmatter_yaml("-- config:\n--\tx: 1"), Some("config:\n\tx: 1".to_string()));
    assert!(failure("-- config:\n--\tx: 1").starts_with("Failed to parse YAML frontmatter: "));
}

#[test]
fn a_configuration_of_the_wrong_type_is_an_error() {
    assert_eq!(
        failure("-- config: 5\nSELECT 1"),
        "Failed to deserialize model config: invalid type: integer `5`, expected struct ModelConfig"
    );
    assert_eq!(
        failure("-- config: [a]\nSELECT 1"),
        "Failed to deserialize model config: invalid type: sequence, expected struct ModelConfig"
    );
    assert_eq!(
        failure("-- config:\n--   materialized: 5\n"),
        "Failed to deserialize model config: invalid type: integer `5`, expected a string"
    );
    assert_eq!(
        failure("-- config:\n--   materialized:\n"),
        "Failed to deserialize model config: invalid type: unit value, expected a string"
    );
    assert_eq!(
        failure("-- config:\n--   schema: true\n"),
        "Failed to deserialize model config: invalid type: boolean `true`, expected a string"
    );
    assert_eq!(
        failure("-- config:\n--   7: a\n"),
        "Failed to deserialize model config: invalid type: integer `7`, expected field identifier"
    );
    assert_eq!(
        failure("-- config:\n--   owner: !team data\n"),
        "Failed to deserialize model config: untagged and internally tagged enums do not support enum input"
    );
}

#[test]
fn a_tag_anywhere_in_an_extra_value_is_an_error() {
    for value in ["!x a", "[!x a]", "[a, {b: [!x c]}]", "{!x a: b}", "{a: !x b}"] {
        assert_eq!(
            failure(&format!("-- config:\n--   tags: {}\n", value)),
            "Failed to deserialize model config: untagged and internally tagged enums do not support enum input",
            "{}",
            value
        );
    }
    let config = extract_frontmatter("-- config:\n--   schema: !x s\n--   tags: ['!x a']\n").unwrap();
    assert_eq!(config.schema, Some("s".to_string()));
}

#[test]
fn a_field_may_be_there_once() {
    assert_eq!(
        failure("-- config:\n--   materialized: table\n--   !x materialized: view\n"),
        "Failed to deserialize model config: duplicate field `materialized`"
    );
    assert_eq!(
        failure("-- config:\n--   !x schema: a\n--   schema: 5\n"),
        "Failed to deserialize model config: duplicate field `schema`"
    );
    let config = extract_frontmatter("-- config:\n--   a: 'x'\n--   !x a: 'y'\n").unwrap();
    assert_eq!(config.extra_str("a"), Some("y"));
}

#[test]
fn tags_are_searched_for() {
    let text = || Yaml::Text("a".to_string());
    let tagged = || Yaml::Tagged("!x".to_string(), Box::new(text()));
    assert!(!holds_tag(&text()));
    assert!(!holds_tag(&Yaml::Sequence(vec![text(), Yaml::Bool(true), Yaml::Null])));
    assert!(holds_tag(&tagged()));
    assert!(holds_tag(&Yaml::Sequence(vec![text(), tagged()])));
    let entry = |key: Yaml, value: Yaml| YamlEntry { key, value };
    assert!(holds_tag(&Yaml::Mapping(vec![entry(text(), tagged())])));
    assert!(holds_tag(&Yaml::Mapping(vec![entry(tagged(), text())])));
    let nested = Yaml::Mapping(vec![entry(text(), Yaml::Sequence(vec![tagged()]))]);
    assert!(holds_tag(&nested.clone()));
    assert!(!holds_tag(&Yaml::Mapping(Vec::new())));
}

#[test]
fn a_stripped_body_stays_as_it_is() {
    let body = strip_frontmatter("-- config:\n--   a: b\nSELECT 1\n\n-- c\nFROM t\n");
    assert_eq!(body, "SELECT 1\n\n-- c\nFROM t");
    assert_eq!(strip_frontmatter(&body), body);
}

#[test]
fn a_line_that_only_begins_like_a_configuration_has_none() {
    let config = extract_frontmatter("-- config:x\nSELECT 1");
    assert!(config.unwrap_err().starts_with("Failed to parse YAML frontmatter: "));
    let config = extract_frontmatter("-- config:x: 1\nSELECT 1").unwrap();
    assert_eq!(config.materialized, "");
}

#[test]
fn blocks_are_read() {
    let entry = |key: &str, value: &str| ConfigEntry {
        key: Ok(key.to_string()),
        value: Yaml::Text(value.to_string()),
        text: Ok(Some(value.to_string())),
    };
    let config = read_config(ConfigBlock::Entries(vec![
        entry("materialized", "table"),
        entry("schema", "s"),
        entry("owner", "me"),
    ])).unwrap();
    assert_eq!(config.materialized, "table");
    assert_eq!(config.schema, Some("s".to_string()));
    assert_eq!(config.extra_str("owner"), Some("me"));
    assert_eq!(
        read_config(ConfigBlock::Malformed("x".to_string())).unwrap_err(),
        "Failed to parse YAML frontmatter: x"
    );
    assert_eq!(
        read_config(ConfigBlock::Unreadable("x".to_string())).unwrap_err(),
        "Failed to deserialize model config: x"
    );
    assert_eq!(read_config(ConfigBlock::Absent).unwrap().materialized, "");
}
