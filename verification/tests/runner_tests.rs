use nql::compiler::Target;
use nql::parser::parse_model;
use nql::runner::{
    parse_source, registered_name, Database, ModelSource, RunState, Runner, RunnerError,
};
use std::path::PathBuf;

fn source(name: &str, content: &str) -> ModelSource {
    ModelSource {
        path: format!("models/{}.sql", name),
        name: name.to_string(),
        content: Ok(content.to_string()),
    }
}

fn loaded(target: Target, models: &[(&str, &str)]) -> Runner {
    let mut runner = Runner::new(PathBuf::from("models"), target);
    let sources: Vec<ModelSource> = models.iter().map(|(n, c)| source(n, c)).collect();
    runner.load_models(&sources).unwrap();
    runner
}

#[test]
fn test_dependency_resolution() {
    // Model A depends on nothing, model B depends on A
    let sources = vec![
        source("a", "SELECT 1 as id\n"),
        source("b", "SELECT * FROM {{ ref('a') }}\n"),
    ];
    let mut runner = Runner::new(PathBuf::from("nql_test_models"), Target::Sqlite);
    runner.load_models(&sources).unwrap();
    runner.resolve_dependencies().unwrap();

    // A should come before B
    let a_pos = runner.execution_order.iter().position(|n| n == "a").unwrap();
    let b_pos = runner.execution_order.iter().position(|n| n == "b").unwrap();
    assert!(a_pos < b_pos);
}

#[test]
fn every_model_is_ordered_after_its_dependencies() {
    let mut runner = loaded(
        Target::Sqlite,
        &[
            ("d", "{{ ref('b') }} {{ ref('c') }} {{ ref('b') }}"),
            ("b", "{{ ref('a') }} {{ ref('elsewhere') }}"),
            ("c", "{{ ref('a') }}"),
            ("a", "SELECT 1"),
        ],
    );
    runner.resolve_dependencies().unwrap();
    let at = |name: &str| runner.execution_order.iter().position(|n| n == name).unwrap();
    assert_eq!(runner.execution_order.len(), 4);
    assert!(at("a") < at("b") && at("a") < at("c"));
    assert!(at("b") < at("d") && at("c") < at("d"));
}

#[test]
fn a_cycle_is_an_error_and_keeps_the_order() {
    let mut runner = loaded(Target::Sqlite, &[("x", "SELECT 1")]);
    runner.resolve_dependencies().unwrap();
    runner.load_models(&vec![
        source("a", "{{ ref('b') }}"),
        source("b", "{{ ref('a') }}"),
    ]).unwrap();
    let error = runner.resolve_dependencies().unwrap_err();
    match &error {
        RunnerError::CircularDependency(name) => {
            assert!(name == "a" || name == "b");
            assert_eq!(
                error.message(),
                format!("Circular dependency detected involving model '{}'", name)
            );
        }
        other => panic!("{:?}", other),
    }
    assert_eq!(runner.execution_order, vec!["x"]);
}

#[test]
fn a_model_that_refers_to_itself_is_a_cycle() {
    let mut runner = loaded(Target::Sqlite, &[("a", "{{ ref('a') }}")]);
    let error = runner.resolve_dependencies().unwrap_err();
    assert!(matches!(error, RunnerError::CircularDependency(name) if name == "a"));
}

#[test]
fn a_model_takes_the_place_of_one_of_its_name() {
    let runner = loaded(
        Target::Sqlite,
        &[("a", "SELECT 1"), ("b", "SELECT 2"), ("a", "SELECT 3")],
    );
    assert_eq!(runner.models.len(), 2);
    let a = runner.models.iter().find(|m| m.name == "a").unwrap();
    assert_eq!(a.raw_sql, "SELECT 3");
    let b = runner.models.iter().find(|m| m.name == "b").unwrap();
    assert_eq!(b.raw_sql, "SELECT 2");
}

#[test]
fn loading_stops_at_the_first_error() {
    let mut runner = Runner::new(PathBuf::from("models"), Target::Sqlite);
    let unread = ModelSource {
        path: "models/b.sql".to_string(),
        name: "b".to_string(),
        content: Err("denied".to_string()),
    };
    let error = runner.load_models(&vec![source("a", "SELECT 1"), unread, source("c", "SELECT 2")])
        .unwrap_err();
    assert_eq!(
        error.message(),
        "Parse error for model 'models/b.sql': Failed to read models/b.sql: denied"
    );
    assert_eq!(runner.models.len(), 1);
    let error = runner.load_models(&vec![source("d", "-- config: 5\nSELECT 1")]).unwrap_err();
    match error {
        RunnerError::Parse { model, message } => {
            assert_eq!(model, "models/d.sql");
            assert!(message.starts_with("Failed to deserialize model config: "));
        }
        other => panic!("{:?}", other),
    }
}

#[test]
fn models_are_compiled_in_order() {
    let mut runner = loaded(
        Target::Snowflake,
        &[
            ("b", "-- config:\n--   materialized: table\nSELECT summarize(x) FROM {{ ref('a') }}"),
            ("a", "-- config:\n--   schema: s\nSELECT * FROM {{ ref('raw') }}"),
        ],
    );
    assert!(runner.compile_all().unwrap().is_empty());
    runner.resolve_dependencies().unwrap();
    assert_eq!(
        runner.compile_all().unwrap(),
        vec![
            (
                "a".to_string(),
                "CREATE OR REPLACE VIEW s.a AS\nSELECT * FROM raw".to_string()
            ),
            (
                "b".to_string(),
                "CREATE TABLE IF NOT EXISTS b AS\nSELECT SNOWFLAKE.CORTEX.SUMMARIZE(x) FROM s.a".to_string()
            ),
        ]
    );
}

#[test]
fn sqlite_runs_what_is_compiled_for_it() {
    let mut runner = loaded(
        Target::Snowflake,
        &[("a", "-- config:\n--   materialized: ephemeral\nSELECT nql.summarize(x)")],
    );
    runner.resolve_dependencies().unwrap();
    let plan = runner.plan_sqlite(":memory:");
    assert!(matches!(plan.database, Database::Memory));
    assert_eq!(plan.statements, vec![("a".to_string(), "SELECT summarize(x)".to_string())]);
    let plan = runner.plan_sqlite("./my.db");
    assert!(matches!(plan.database, Database::File(path) if path == "./my.db"));
}

#[test]
fn a_single_model_is_planned() {
    let models = [("a", "-- config:\n--   materialized: ephemeral\nSELECT 1 FROM {{ ref('b') }}"), ("b", "-- config:\n--   schema: s\nSELECT 2")];
    let runner = loaded(Target::Sqlite, &models);
    let plan = runner.plan_single("a", Some("x.db")).unwrap();
    assert_eq!(plan.sql, "SELECT 1 FROM s.b");
    assert!(matches!(plan.database, Some(Database::File(path)) if path == "x.db"));
    assert!(runner.plan_single("a", None).unwrap().database.is_none());
    let runner = loaded(Target::Postgresql, &models);
    assert!(runner.plan_single("a", Some(":memory:")).unwrap().database.is_none());
    let error = runner.plan_single("c", None).unwrap_err();
    assert_eq!(error.message(), "Parse error for model 'c': Model not found");
}

#[test]
fn registered_tables() {
    let name = |content: &str| registered_name(&parse_model("m", content).unwrap());
    assert_eq!(name("SELECT 1"), "m");
    assert_eq!(name("-- config:\n--   schema: s\nSELECT 1"), "s.m");
    assert_eq!(name("-- config:\n--   schema: ''\nSELECT 1"), "m");
}

#[test]
fn messages_of_errors() {
    assert_eq!(RunnerError::Io("x".to_string()).message(), "IO error: x");
    assert_eq!(
        RunnerError::MissingDependency { model: "a".to_string(), dependency: "b".to_string() }.message(),
        "Missing dependency: model 'a' references 'b' which was not found"
    );
    assert_eq!(RunnerError::Sqlite("x".to_string()).message(), "SQLite error: x");
    assert_eq!(RunnerError::Compilation("x".to_string()).message(), "Compilation error: x");
    assert_eq!(
        RunnerError::execution_failed("m", "no such table").message(),
        "Compilation error: Failed to execute model 'm': no such table"
    );
}

#[test]
fn a_single_file_is_parsed() {
    let model = parse_source(&source("m", "SELECT 1 FROM {{ ref('t') }}")).unwrap();
    assert_eq!(model.name, "m");
    assert_eq!(model.refs, vec!["t"]);
    let unread = ModelSource {
        path: "m.sql".to_string(),
        name: "m".to_string(),
        content: Err("denied".to_string()),
    };
    assert_eq!(parse_source(&unread).unwrap_err(), "Failed to read m.sql: denied");
}

fn executed(outcomes: &[bool]) -> (Vec<usize>, RunState) {
    let mut places = Vec::new();
    let mut state = RunState::start(outcomes.len());
    while let RunState::Next(place) = state {
        places.push(place);
        state = RunState::after(outcomes.len(), place, outcomes[place]);
    }
    (places, state)
}

#[test]
fn a_run_stops_at_the_first_failure() {
    assert_eq!(executed(&[true, true, true]), (vec![0, 1, 2], RunState::Finished));
    assert_eq!(executed(&[true, false, true]), (vec![0, 1], RunState::Failed));
    assert_eq!(executed(&[false]), (vec![0], RunState::Failed));
    assert_eq!(executed(&[]), (vec![], RunState::Finished));
}
