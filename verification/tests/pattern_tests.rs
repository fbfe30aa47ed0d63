use nql::compiler::{head_texts, Compiler, Target};
use nql::parser::{collect_calls, referred_names};
use nql::pattern::{
    bare_pattern_text, closing_of, end_of_call, head_pattern_text, reference_pattern_text, rewrite,
    Capture,
};
use nql::text::{lines, parse_u64, to_decimal, to_signed_decimal};

fn capture(start: usize, groups: &[&str]) -> Capture {
    Capture {
        start,
        end: start + groups[0].len(),
        groups: groups.iter().map(|s| s.to_string()).collect(),
    }
}

fn strings(list: &[&str]) -> Vec<String> {
    list.iter().map(|s| s.to_string()).collect()
}

#[test]
fn matches_are_replaced() {
    let found = vec![capture(1, &["X"]), capture(3, &["YY"])];
    assert_eq!(rewrite("aXbYYc", &found, &strings(&["1", ""])), "a1bc");
    assert_eq!(rewrite("abc", &Vec::new(), &Vec::new()), "abc");
    let found = vec![capture(2, &["X"]), capture(3, &["é"])];
    assert_eq!(rewrite("éXéü", &found, &strings(&["日", "-"])), "é日-ü");
}

#[test]
fn matches_replaced_by_themselves_change_nothing() {
    let found = vec![capture(0, &["ab"]), capture(2, &["c"])];
    assert_eq!(rewrite("abcd", &found, &strings(&["ab", "c"])), "abcd");
}

#[test]
fn found_heads_lose_their_prefix() {
    let heads = vec![capture(0, &["nql.summarize(", "summarize"])];
    assert_eq!(head_texts(&heads), vec!["summarize("]);
}

#[test]
fn found_calls_are_translated() {
    let sql = "é summarize(a) classify(summarize(b))";
    let heads = vec![
        capture(3, &["summarize(", "summarize"]),
        capture(16, &["classify(", "classify"]),
        capture(25, &["summarize(", "summarize"]),
    ];
    assert_eq!(
        Compiler::new(Target::Sqlite).translate_calls(sql, &heads, Target::Snowflake),
        "é SNOWFLAKE.CORTEX.SUMMARIZE(a) SNOWFLAKE.CORTEX.COMPLETE('llama3.1-8b', SNOWFLAKE.CORTEX.SUMMARIZE(b))"
    );
}

#[test]
fn parentheses_close() {
    assert_eq!(closing_of("(a)", 0), Some(2));
    assert_eq!(closing_of("f(é(b)(c))d)", 1), Some(9));
    assert_eq!(closing_of("f(é(b)(c))d)", 3), Some(5));
    assert_eq!(closing_of("(')' || '(' || a)", 0), Some(16));
    assert_eq!(closing_of("('it''s )')", 0), Some(10));
    assert_eq!(closing_of("'('a)", 1), None);
    assert_eq!(closing_of("(a(b)", 0), None);
    assert_eq!(closing_of("a)", 0), None);
    assert_eq!(closing_of("", 0), None);
    assert_eq!(closing_of("()", 7), None);
    assert_eq!(end_of_call("(a(b)", 0), Some(4));
    assert_eq!(end_of_call("(a(b) )", 0), Some(6));
    assert_eq!(end_of_call("(a", 0), None);
    assert_eq!(end_of_call("()", 9), None);
}

#[test]
fn found_references_are_resolved() {
    let refs = vec![
        capture(0, &["{{ref('a')}}", "a"]),
        capture(20, &["{{ref('b')}}", "b"]),
    ];
    let mut compiler = Compiler::new(Target::Sqlite);
    compiler.register_ref("b", "s.b");
    assert_eq!(compiler.resolve_refs(&refs), vec!["a", "s.b"]);
    assert_eq!(referred_names(&refs), vec!["a", "b"]);
}

#[test]
fn found_calls_are_collected() {
    let sql = "nql.summarize(a) classify(b) classify(b) nql.summarize(a)";
    let prefixed = vec![
        capture(0, &["nql.summarize(", "summarize"]),
        capture(41, &["nql.summarize(", "summarize"]),
    ];
    let bare = vec![
        capture(4, &["summarize(", "summarize"]),
        capture(17, &["classify(", "classify"]),
        capture(29, &["classify(", "classify"]),
        capture(45, &["summarize(", "summarize"]),
    ];
    let calls = collect_calls(sql, &prefixed, &bare);
    assert_eq!(calls.len(), 2);
    assert_eq!(calls[0].full_match, "nql.summarize(a)");
    assert_eq!(calls[1].full_match, "classify(b)");
    assert_eq!(calls[1].function_name, "classify");
    assert_eq!(calls[1].args, "b");
}

#[test]
fn patterns() {
    assert!(head_pattern_text().starts_with(r"nql\.(generate_text|summarize|"));
    assert!(head_pattern_text().ends_with(r"|prune_fact_subset)\("));
    assert!(bare_pattern_text().starts_with(r"\b(generate_text|"));
    assert!(bare_pattern_text().ends_with(r"|prune_fact_subset)\("));
    assert_eq!(
        reference_pattern_text(),
        r#"\{\{\s*ref\(\s*['"]([^'"]+)['"]\s*\)\s*\}\}"#
    );
}

#[test]
fn lines_are_split() {
    let none: Vec<String> = Vec::new();
    assert_eq!(lines(""), none);
    assert_eq!(lines("a"), vec!["a"]);
    assert_eq!(lines("a\r\n\nb\r\n"), vec!["a", "", "b"]);
    assert_eq!(lines("a\rb\r"), vec!["a\rb\r"]);
}

#[test]
fn numbers_are_written_and_read_back() {
    for n in [0, 9, 10, 1024, u64::MAX] {
        assert_eq!(to_decimal(n as u128), n.to_string());
        assert_eq!(parse_u64(&to_decimal(n as u128)), Some(n));
    }
    assert_eq!(to_signed_decimal(-70), "-70");
    assert_eq!(to_signed_decimal(70), "70");
}
