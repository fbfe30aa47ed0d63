use nql::compiler::{materialize, Compiler, Target};
use nql::dialect::args::split_call_args;
use nql::parser::{parse_model, ExtraEntry, ModelConfig, NqlModel};
use nql::yaml::Yaml;

fn compiled(sql: &str, target: Target) -> String {
    Compiler::new(target).compile(sql, target)
}

fn model(materialized: &str, schema: Option<&str>, sql: &str) -> NqlModel {
    NqlModel {
        name: "m".to_string(),
        config: ModelConfig {
            materialized: materialized.to_string(),
            schema: schema.map(|s| s.to_string()),
            extra: Vec::new(),
        },
        raw_sql: sql.to_string(),
        nql_calls: Vec::new(),
        refs: Vec::new(),
    }
}

#[test]
fn test_sqlite_compilation() {
    let compiler = Compiler::new(Target::Sqlite);
    let input = "SELECT nql.analyze_sentiment(feedback_text) as sentiment FROM feedback";
    let output = compiler.compile(input, Target::Sqlite);
    assert!(output.contains("analyze_sentiment(feedback_text)"));
    assert!(!output.contains("nql."));
}

#[test]
fn test_postgresql_compilation() {
    let compiler = Compiler::new(Target::Postgresql);
    let input = "SELECT nql.summarize(feedback_text) as summary FROM feedback";
    let output = compiler.compile(input, Target::Postgresql);
    assert!(output.contains("pgai.summarize(text => feedback_text)"));
}

#[test]
fn test_snowflake_compilation() {
    let compiler = Compiler::new(Target::Snowflake);
    let input = "SELECT nql.analyze_sentiment(feedback_text) FROM feedback";
    let output = compiler.compile(input, Target::Snowflake);
    assert!(output.contains("SNOWFLAKE.CORTEX.SENTIMENT(feedback_text)"));
}

#[test]
fn test_databricks_compilation() {
    let compiler = Compiler::new(Target::Databricks);
    let input = "SELECT summarize(feedback_text) FROM feedback";
    let output = compiler.compile(input, Target::Databricks);
    assert!(output.contains("ai_query("));
}

#[test]
fn test_ref_resolution() {
    let mut compiler = Compiler::new(Target::Sqlite);
    compiler.register_ref("customer_feedback", "raw.customer_feedback");
    let input = "SELECT * FROM {{ ref('customer_feedback') }}";
    let output = compiler.compile(input, Target::Sqlite);
    assert!(output.contains("raw.customer_feedback"));
}

#[test]
fn test_bare_function_sqlite() {
    let compiler = Compiler::new(Target::Sqlite);
    let input = "SELECT analyze_sentiment(feedback_text) as sentiment FROM feedback";
    let output = compiler.compile(input, Target::Sqlite);
    assert!(output.contains("analyze_sentiment(feedback_text)"));
}

#[test]
fn test_bare_function_snowflake() {
    let compiler = Compiler::new(Target::Snowflake);
    let input = "SELECT summarize(notes) as summary FROM meetings";
    let output = compiler.compile(input, Target::Snowflake);
    assert!(output.contains("SNOWFLAKE.CORTEX.SUMMARIZE(notes)"));
}

#[test]
fn test_bare_and_prefixed_mixed() {
    let compiler = Compiler::new(Target::Sqlite);
    let input = "SELECT analyze_sentiment(a), nql.summarize(b) FROM t";
    let output = compiler.compile(input, Target::Sqlite);
    assert!(output.contains("analyze_sentiment(a)"));
    assert!(output.contains("summarize(b)"));
    assert!(!output.contains("nql."));
}

#[test]
fn test_ref_default_schema() {
    let compiler = Compiler::new(Target::Sqlite).with_schema(Some("public".to_string()));
    let input = "SELECT * FROM {{ ref('orders') }}";
    let output = compiler.compile(input, Target::Sqlite);
    assert!(output.contains("public.orders"));
}

#[test]
fn bigquery_get_facts_emits_ai_generate_result() {
    let sql = "SELECT nql.get_facts(bio) AS facts FROM users";
    let compiler = Compiler::new(Target::Bigquery);
    let out = compiler.compile(sql, Target::Bigquery);
    assert!(out.contains("AI.GENERATE"));
    assert!(out.contains(").result"));
    assert!(out.contains("Extract facts"));
}

#[test]
fn bigquery_summarize_emits_ai_generate() {
    let sql = "SELECT nql.summarize(bio) AS s FROM users";
    let compiler = Compiler::new(Target::Bigquery);
    let out = compiler.compile(sql, Target::Bigquery);
    assert!(out.contains("AI.GENERATE(CONCAT('Summarize: ', bio))"));
}

#[test]
fn bigquery_generate_embedding_emits_ai_generate_embedding() {
    let sql = "SELECT nql.generate_embedding(bio) AS e FROM users";
    let compiler = Compiler::new(Target::Bigquery);
    let out = compiler.compile(sql, Target::Bigquery);
    assert!(out.contains("AI.GENERATE_EMBEDDING(bio)).result"));
}

#[test]
fn incremental_materialization_emits_insert_not_exists() {
    let content = "-- config:\n--   materialized: incremental\n--   unique_key: user_id\n\nSELECT user_id, name FROM users\n";
    let model = parse_model("users", content).unwrap();
    let compiler = Compiler::new(Target::Bigquery);
    let out = compiler.compile_model(&model);
    assert!(out.contains("CREATE TABLE IF NOT EXISTS"));
    assert!(out.contains("INSERT INTO"));
    assert!(out.contains("NOT EXISTS"));
    assert!(out.contains("t.user_id = s.user_id"));
}

#[test]
fn ref_replaced_with_table_name() {
    let sql = "SELECT * FROM {{ ref('users') }}";
    let mut compiler = Compiler::new(Target::Bigquery);
    compiler.register_ref("users", "analytics.users");
    let out = compiler.compile(sql, Target::Bigquery);
    assert!(out.contains("FROM analytics.users"), "got: {}", out);
}

#[test]
fn target_names() {
    let names = [
        ("sqlite", Target::Sqlite),
        ("postgresql", Target::Postgresql),
        ("postgres", Target::Postgresql),
        ("pg", Target::Postgresql),
        ("snowflake", Target::Snowflake),
        ("sf", Target::Snowflake),
        ("bigquery", Target::Bigquery),
        ("bq", Target::Bigquery),
        ("databricks", Target::Databricks),
        ("dbx", Target::Databricks),
        ("spark", Target::Databricks),
        ("SQLite", Target::Sqlite),
        ("BigQuery", Target::Bigquery),
    ];
    for (name, target) in &names {
        assert_eq!(Target::from_str(name), Ok(*target));
        assert_eq!(name.parse::<Target>(), Ok(*target));
    }
    // The Kelvin sign is a `k` in lower case.
    assert_eq!(Target::from_str("spar\u{212a}"), Ok(Target::Databricks));
}

#[test]
fn unknown_target_keeps_the_name_as_given() {
    assert_eq!(
        Target::from_str("Oracle"),
        Err("Unknown target: 'Oracle'. Expected: sqlite, postgresql, snowflake, bigquery, databricks".to_string())
    );
    assert_eq!(
        "".parse::<Target>(),
        Err("Unknown target: ''. Expected: sqlite, postgresql, snowflake, bigquery, databricks".to_string())
    );
}

#[test]
fn plain_sql_is_kept_for_every_target() {
    let sql = "SELECT 'nql', summarize_all(x), { y } FROM t -- nql.summarize\n";
    for target in [
        Target::Sqlite,
        Target::Postgresql,
        Target::Snowflake,
        Target::Bigquery,
        Target::Databricks,
    ] {
        assert_eq!(compiled(sql, target), sql);
    }
    assert_eq!(compiled("", Target::Snowflake), "");
}

#[test]
fn text_around_a_call_is_kept() {
    assert_eq!(
        compiled("SELECT é, nql.summarize(ü) AS s -- ß", Target::Snowflake),
        "SELECT é, SNOWFLAKE.CORTEX.SUMMARIZE(ü) AS s -- ß"
    );
}

#[test]
fn prefix_is_optional_whatever_the_arguments() {
    for args in ["", "a", "upper(x), 'y'", "nql.classify(b)", "(unclosed"] {
        assert_eq!(
            compiled(&format!("f(nql.summarize({}) nql.classify(c)", args), Target::Snowflake),
            compiled(&format!("f(summarize({}) nql.classify(c)", args), Target::Snowflake)
        );
    }
}

#[test]
fn only_one_prefix_is_taken_off() {
    assert_eq!(compiled("nql.nql.summarize(a)", Target::Sqlite), "nql.summarize(a)");
}

#[test]
fn prefix_is_optional() {
    for target in [Target::Sqlite, Target::Postgresql, Target::Bigquery] {
        assert_eq!(
            compiled("SELECT nql.translate(a, 'de') FROM t", target),
            compiled("SELECT translate(a, 'de') FROM t", target)
        );
    }
}

#[test]
fn a_word_that_ends_like_a_function_is_no_call() {
    assert_eq!(
        compiled("my_summarize(a), analyze_sentiment(b)", Target::Snowflake),
        "my_summarize(a), SNOWFLAKE.CORTEX.SENTIMENT(b)"
    );
}

#[test]
fn a_call_without_its_end_loses_only_the_prefix() {
    assert_eq!(compiled("nql.summarize(a", Target::Snowflake), "summarize(a");
}

#[test]
fn arguments_end_where_the_parenthesis_closes() {
    assert_eq!(
        compiled("summarize(lower(a)) + f(b)", Target::Snowflake),
        "SNOWFLAKE.CORTEX.SUMMARIZE(lower(a)) + f(b)"
    );
    assert_eq!(
        compiled("SELECT nql.translate(upper(x), 'fr') FROM t", Target::Postgresql),
        "SELECT pgai.translate(text => upper(x), target_language => 'fr') FROM t"
    );
    assert_eq!(compiled("summarize()", Target::Snowflake), "SNOWFLAKE.CORTEX.SUMMARIZE()");
}

#[test]
fn calls_in_arguments_are_translated() {
    assert_eq!(
        compiled("nql.summarize(nql.translate(a))", Target::Bigquery),
        "(AI.GENERATE(CONCAT('Summarize: ', (AI.GENERATE(CONCAT('Translate to ', 'en', ': ', a))).result))).result"
    );
    assert_eq!(
        compiled("summarize(summarize(summarize(a)) + lower(b)), summarize(c)", Target::Snowflake),
        "SNOWFLAKE.CORTEX.SUMMARIZE(SNOWFLAKE.CORTEX.SUMMARIZE(SNOWFLAKE.CORTEX.SUMMARIZE(a)) + lower(b)), SNOWFLAKE.CORTEX.SUMMARIZE(c)"
    );
    assert_eq!(
        compiled("nql.summarize(f(nql.classify(a), (b)))", Target::Sqlite),
        "summarize(f(classify(a), (b)))"
    );
}

#[test]
fn commas_in_parentheses_do_not_separate() {
    assert_eq!(
        compiled("SELECT summarize(coalesce(a, b)) FROM t", Target::Postgresql),
        "SELECT pgai.summarize(text => coalesce(a, b)) FROM t"
    );
    assert_eq!(
        compiled("SELECT translate(coalesce(a, b), 'de') FROM t", Target::Postgresql),
        "SELECT pgai.translate(text => coalesce(a, b), target_language => 'de') FROM t"
    );
    assert_eq!(
        compiled("translate(coalesce(a, b), 'de')", Target::Snowflake),
        "SNOWFLAKE.CORTEX.TRANSLATE(coalesce(a, b), 'de', 'en')"
    );
    assert_eq!(
        compiled("answer_question(concat(a, b), q)", Target::Bigquery),
        "(AI.GENERATE(CONCAT('Based on the following context, answer the question.\\n\\nContext: ', concat(a, b), '\\n\\nQuestion: ', q))).result"
    );
    assert_eq!(
        compiled("generate_text(f(a, (b, c)), ')' || g(d, e))", Target::Databricks),
        "ai_query('databricks-meta-llama-3-1-70b-instruct', CONCAT(')' || g(d, e), ' ', f(a, (b, c))))"
    );
}

#[test]
fn nested_calls_keep_all_of_their_arguments() {
    assert_eq!(
        compiled("SELECT summarize(translate(x)) FROM t", Target::Postgresql),
        "SELECT pgai.summarize(text => pgai.translate(text => x, target_language => 'en')) FROM t"
    );
    assert_eq!(
        compiled("summarize(classify(x))", Target::Databricks),
        "ai_query('databricks-meta-llama-3-1-70b-instruct', CONCAT('Summarize: ', ai_query('databricks-meta-llama-3-1-70b-instruct', x)))"
    );
    assert_eq!(
        compiled("nql.translate(nql.generate_text(a, 'p'), 'de')", Target::Databricks),
        "ai_query('databricks-meta-llama-3-1-70b-instruct', CONCAT('Translate to ', 'de', ': ', ai_query('databricks-meta-llama-3-1-70b-instruct', CONCAT('p', ' ', a))))"
    );
    assert_eq!(
        compiled("nql.translate(nql.translate(a, 'fr'), 'de')", Target::Postgresql),
        "pgai.translate(text => pgai.translate(text => a, target_language => 'fr'), target_language => 'de')"
    );
}

#[test]
fn parentheses_in_quotes_do_not_count() {
    assert_eq!(
        compiled("SELECT f(summarize('('), y) FROM t", Target::Postgresql),
        "SELECT f(pgai.summarize(text => '('), y) FROM t"
    );
    assert_eq!(
        compiled("summarize('1) a'), b", Target::Postgresql),
        "pgai.summarize(text => '1) a'), b"
    );
    assert_eq!(
        compiled("'(' || summarize(f(')', a, '(')) || ')'", Target::Postgresql),
        "'(' || pgai.summarize(text => f(')', a, '(')) || ')'"
    );
}

fn closes_all(sql: &str) -> bool {
    let mut quoted = false;
    let mut level = 0;
    for c in sql.chars() {
        match c {
            '\'' => quoted = !quoted,
            '(' if !quoted => level += 1,
            ')' if !quoted => level -= 1,
            _ => {}
        }
        if level < 0 {
            return false;
        }
    }
    level == 0
}

#[test]
fn parentheses_stay_closed() {
    let mut compiler = Compiler::new(Target::Sqlite);
    compiler.register_ref("t", "s.t");
    let targets = [
        Target::Sqlite,
        Target::Postgresql,
        Target::Snowflake,
        Target::Bigquery,
        Target::Databricks,
    ];
    for name in nql::parser::NQL_FUNCTIONS {
        for sql in [
            format!("SELECT nql.{}(), (b) FROM {{{{ ref('t') }}}}", name),
            format!("g({}(f(a, b), '(' || c), {{{{ ref(\"u\") }}}})", name),
            format!("({}(nql.translate(x, y), [1, (2)], ')'))", name),
            format!("f('{}(a)')", name),
            format!("'{}(' || x || ')'", name),
        ] {
            assert!(closes_all(&sql), "{}", sql);
            for target in targets {
                let out = compiler.compile(&sql, target);
                assert!(closes_all(&out), "{} -> {}", sql, out);
            }
        }
    }
    for sql in ["summarize(lower(a)", "translate(a, b))", "'(' || ("] {
        assert!(!closes_all(sql));
        assert!(!closes_all(&compiler.compile(sql, Target::Postgresql)));
    }
}

#[test]
fn a_parenthesis_that_closes_nowhere_ends_at_the_next_one() {
    assert_eq!(
        compiled("summarize(lower(a) FROM t", Target::Snowflake),
        "SNOWFLAKE.CORTEX.SUMMARIZE(lower(a) FROM t"
    );
    assert_eq!(
        compiled("summarize(classify(a) FROM t", Target::Snowflake),
        "SNOWFLAKE.CORTEX.SUMMARIZE(classify(a) FROM t"
    );
    assert_eq!(
        compiled("translate(lower(a, b) FROM t", Target::Postgresql),
        "pgai.translate(text => lower(a, target_language => b) FROM t"
    );
    assert_eq!(
        compiled("summarize(it's) FROM t", Target::Snowflake),
        "SNOWFLAKE.CORTEX.SUMMARIZE(it's) FROM t"
    );
}

#[test]
fn sqlite_keeps_the_calls() {
    assert_eq!(
        compiled("SELECT nql.summarize( a , b ) FROM t", Target::Sqlite),
        "SELECT summarize( a , b ) FROM t"
    );
}

#[test]
fn references_are_resolved() {
    let mut compiler = Compiler::new(Target::Sqlite).with_schema(Some("public".to_string()));
    compiler.register_ref("a", "raw.a");
    compiler.register_ref("a", "raw.a2");
    assert_eq!(
        compiler.compile("{{ref('a')}} {{  ref( \"b\" )\n}} {{ ref('a\") }}", Target::Sqlite),
        "raw.a2 public.b raw.a2"
    );
    assert_eq!(
        compiler.compile("{{ ref('') }} {{ ref(a) }} { ref('a') }", Target::Sqlite),
        "{{ ref('') }} {{ ref(a) }} { ref('a') }"
    );
    let compiler = compiler.with_schema(None);
    assert_eq!(compiler.resolve_ref("b"), "b");
    assert_eq!(compiler.resolve_ref("a"), "raw.a2");
    assert_eq!(compiler.target, Target::Sqlite);
    assert!(compiler.default_schema.is_none());
}

#[test]
fn a_reference_among_arguments_is_resolved() {
    let mut compiler = Compiler::new(Target::Snowflake);
    compiler.register_ref("t", "s.t");
    assert_eq!(
        compiler.compile("nql.summarize({{ ref('t') }}, 1) {{ ref('t') }}", Target::Snowflake),
        "SNOWFLAKE.CORTEX.SUMMARIZE(s.t, 1) s.t"
    );
}

#[test]
fn postgresql_calls() {
    let c = Compiler::new(Target::Postgresql);
    let t = |name: &str, args: &str| c.translate_function(name, args, Target::Postgresql);
    assert_eq!(t("generate_text", "a, 'p'"), "pgai.generate_text(prompt => 'p', text => a)");
    assert_eq!(t("generate_text", ""), "pgai.generate_text(prompt => '', text => '')");
    assert_eq!(t("summarize", "a, b"), "pgai.summarize(text => a)");
    assert_eq!(t("analyze_sentiment", "a"), "pgai.analyze_sentiment(text => a)");
    assert_eq!(t("translate", "a"), "pgai.translate(text => a, target_language => 'en')");
    assert_eq!(t("translate", "a, 'de'"), "pgai.translate(text => a, target_language => 'de')");
    assert_eq!(t("extract_entities", "a"), "pgai.extract_entities(text => a)");
    assert_eq!(t("generate_embedding", " a "), "pgai.generate_embedding(text => a)");
    assert_eq!(t("get_facts", " a , b "), "pgai.get_facts(text =>  a , b )");
}

#[test]
fn snowflake_calls() {
    let c = Compiler::new(Target::Snowflake);
    let t = |name: &str, args: &str| c.translate_function(name, args, Target::Snowflake);
    assert_eq!(t("generate_text", "a"), "SNOWFLAKE.CORTEX.COMPLETE('llama3.1-8b', a)");
    assert_eq!(t("summarize", "a"), "SNOWFLAKE.CORTEX.SUMMARIZE(a)");
    assert_eq!(t("analyze_sentiment", "a"), "SNOWFLAKE.CORTEX.SENTIMENT(a)");
    assert_eq!(t("translate", ""), "SNOWFLAKE.CORTEX.TRANSLATE('', 'en', 'en')");
    assert_eq!(t("translate", "a, 'de'"), "SNOWFLAKE.CORTEX.TRANSLATE(a, 'de', 'en')");
    assert_eq!(
        t("extract_entities", "a"),
        "SNOWFLAKE.CORTEX.EXTRACT_ANSWER(a, 'Extract all entities')"
    );
    assert_eq!(
        t("generate_embedding", "a"),
        "SNOWFLAKE.CORTEX.EMBED_TEXT_768('snowflake-arctic-embed-m-v1.5', a)"
    );
    assert_eq!(t("zoom_in", "a"), "SNOWFLAKE.CORTEX.COMPLETE('llama3.1-8b', a)");
}

#[test]
fn databricks_calls() {
    let c = Compiler::new(Target::Databricks);
    let t = |name: &str, args: &str| c.translate_function(name, args, Target::Databricks);
    assert_eq!(
        t("generate_text", "a, 'p'"),
        "ai_query('databricks-meta-llama-3-1-70b-instruct', CONCAT('p', ' ', a))"
    );
    assert_eq!(
        t("summarize", "a"),
        "ai_query('databricks-meta-llama-3-1-70b-instruct', CONCAT('Summarize: ', a))"
    );
    assert_eq!(
        t("analyze_sentiment", "a"),
        "ai_query('databricks-meta-llama-3-1-70b-instruct', CONCAT('Analyze sentiment of: ', a))"
    );
    assert_eq!(
        t("translate", "a"),
        "ai_query('databricks-meta-llama-3-1-70b-instruct', CONCAT('Translate to ', 'en', ': ', a))"
    );
    assert_eq!(
        t("extract_entities", "a"),
        "ai_query('databricks-meta-llama-3-1-70b-instruct', CONCAT('Extract entities from: ', a))"
    );
    assert_eq!(t("generate_embedding", "a"), "ai_query('databricks-bge-large-en', a)");
    assert_eq!(
        t("classify", "a, b"),
        "ai_query('databricks-meta-llama-3-1-70b-instruct', a, b)"
    );
}

#[test]
fn bigquery_calls() {
    let c = Compiler::new(Target::Bigquery);
    let t = |name: &str, args: &str| c.translate_function(name, args, Target::Bigquery);
    assert_eq!(t("generate_text", "a"), "(AI.GENERATE(a)).result");
    assert_eq!(t("unknown", "a, b"), "(AI.GENERATE(a, b)).result");
    assert_eq!(
        t("translate", "a, 'de'"),
        "(AI.GENERATE(CONCAT('Translate to ', 'de', ': ', a))).result"
    );
    assert_eq!(
        t("sentiment", "a"),
        "(AI.GENERATE(CONCAT('Analyze the sentiment of the following text. Respond with exactly one word: positive, negative, or neutral.\\n\\n', a))).result"
    );
    assert_eq!(
        t("classify_into", "a, ['x, y', 'z']"),
        "(AI.GENERATE(CONCAT('Classify the following text into one of these categories: ', ['x, y', 'z'], '. Return only the category name.\\n\\n', a))).result"
    );
    assert_eq!(
        t("answer_question", "c"),
        "(AI.GENERATE(CONCAT('Based on the following context, answer the question.\\n\\nContext: ', c, '\\n\\nQuestion: ', ''))).result"
    );
    assert_eq!(
        t("assign_groups_to_fact", "f, g"),
        "(AI.GENERATE(CONCAT('Given this fact, assign it to any relevant groups. Return as JSON: {\\\"groups\\\": [\\\"list of group names\\\"]}.\\n\\nFact: ', f, '\\n\\nGroups: ', g))).result"
    );
    assert!(t("get_related_concepts_multi", "n").contains("INITCAP('fact')"));
    for name in nql::parser::NQL_FUNCTIONS {
        let sql = t(name, "a, b, c");
        assert!(sql.starts_with("(AI.GENERATE"), "{}", sql);
        assert!(sql.ends_with(")).result"), "{}", sql);
    }
}

#[test]
fn arguments_are_split_at_commas() {
    let none: Vec<&str> = Vec::new();
    assert_eq!(Compiler::split_sql_args(""), none);
    assert_eq!(Compiler::split_sql_args("  "), none);
    assert_eq!(Compiler::split_sql_args("a"), vec!["a"]);
    assert_eq!(Compiler::split_sql_args(" a , b "), vec!["a", "b"]);
    assert_eq!(Compiler::split_sql_args("a,"), vec!["a"]);
    assert_eq!(Compiler::split_sql_args(",a"), vec!["", "a"]);
    assert_eq!(Compiler::split_sql_args(",,"), vec!["", ""]);
}

#[test]
fn quoted_and_bracketed_commas_do_not_split() {
    assert_eq!(Compiler::split_sql_args("'a,b'"), vec!["'a,b'"]);
    assert_eq!(Compiler::split_sql_args("'it''s, so', c"), vec!["'it''s, so'", "c"]);
    assert_eq!(Compiler::split_sql_args("[1,2], [[3,4],5]"), vec!["[1,2]", "[[3,4],5]"]);
    assert_eq!(Compiler::split_sql_args("'[', a"), vec!["'['", "a"]);
    assert_eq!(Compiler::split_sql_args("], a"), vec!["]", "a"]);
    assert_eq!(Compiler::split_sql_args("'a, b"), vec!["'a, b"]);
    for part in Compiler::split_sql_args("'a,b' , [1,2] ,c d") {
        assert_eq!(Compiler::split_sql_args(part), vec![part]);
    }
}

#[test]
fn arguments_of_calls_are_split() {
    assert_eq!(split_call_args("f(a, b), c"), vec!["f(a, b)", "c"]);
    assert_eq!(split_call_args("f(a, g(b, c)), (d, e)"), vec!["f(a, g(b, c))", "(d, e)"]);
    assert_eq!(split_call_args("f(a, b"), vec!["f(a", "b"]);
    assert_eq!(split_call_args("(, (a, b), c"), vec!["(", "(a, b)", "c"]);
    assert_eq!(split_call_args("'(', a, ')'"), vec!["'('", "a", "')'"]);
    assert_eq!(split_call_args("[(], a)"), vec!["[(], a)"]);
    assert_eq!(split_call_args("é(ü, ß), a,"), vec!["é(ü, ß)", "a"]);
    for args in ["", " a , 'b,c'", "f(a, [b, c]", ",,a"] {
        assert_eq!(split_call_args(args), Compiler::split_sql_args(args));
    }
    assert_eq!(Compiler::split_sql_args("f(a, b)"), vec!["f(a", "b)"]);
}

#[test]
fn arguments_need_not_be_ascii() {
    assert_eq!(Compiler::split_sql_args("éa, b"), vec!["éa", "b"]);
    assert_eq!(Compiler::split_sql_args("'日本, x',\u{3000}y\u{3000}"), vec!["'日本, x'", "y"]);
}

#[test]
fn models_are_materialized() {
    let c = Compiler::new(Target::Snowflake);
    let sql = "SELECT summarize(x) FROM t";
    let body = "SELECT SNOWFLAKE.CORTEX.SUMMARIZE(x) FROM t";
    assert_eq!(
        c.compile_model(&model("table", None, sql)),
        format!("CREATE TABLE IF NOT EXISTS m AS\n{}", body)
    );
    assert_eq!(
        c.compile_model(&model("view", Some("s"), sql)),
        format!("CREATE OR REPLACE VIEW s.m AS\n{}", body)
    );
    assert_eq!(c.compile_model(&model("ephemeral", None, sql)), body);
    assert_eq!(
        c.compile_model(&model("Table", None, sql)),
        format!("-- Unknown materialization: Table\n{}", body)
    );
    assert_eq!(
        c.compile_model(&model("incremental", None, sql)),
        format!("-- incremental materialization requires unique_key in config\nCREATE TABLE IF NOT EXISTS m AS\n{}", body)
    );
    let c = c.with_schema(Some("d".to_string()));
    assert_eq!(c.resolve_model_name(&model("view", None, sql)), "d.m");
    assert_eq!(c.resolve_model_name(&model("view", Some("s"), sql)), "s.m");
}

#[test]
fn incremental_models_insert_new_keys() {
    let wanted = "CREATE TABLE IF NOT EXISTS t AS\n(SELECT * FROM (\nSELECT 1\n) WHERE FALSE);\nINSERT INTO t\nSELECT s.* FROM (\nSELECT 1\n) s\nWHERE NOT EXISTS (SELECT 1 FROM t t WHERE t.id = s.id);";
    assert_eq!(materialize("incremental", Some("id"), "t", "SELECT 1"), wanted);
    let mut m = model("incremental", None, "SELECT 1");
    m.name = "t".to_string();
    m.config.extra.push(ExtraEntry { key: "unique_key".to_string(), value: Yaml::Text("id".to_string()) });
    assert_eq!(Compiler::new(Target::Sqlite).compile_model(&m), wanted);
}
