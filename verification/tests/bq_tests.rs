use nql::bq::{
    job_id, job_report, make_report, query_args, read_bytes, settle_job, show_args, step_failed,
    total_bytes_processed, BqStep, JsonAt,
};

#[test]
fn jobs_are_named() {
    assert_eq!(job_id("daily users/é-1_x", 12, 345), "nql_daily_users_é-1_x_12_345");
    assert_eq!(job_id("", 0, u128::MAX), format!("nql__0_{}", u128::MAX));
    assert_eq!(job_id("a.b\u{2014}c", 1, 2), "nql_a_b_c_1_2");
}

#[test]
fn arguments_of_the_tool() {
    assert_eq!(
        query_args(None, None, "j"),
        vec!["query", "--use_legacy_sql=false", "--format=none", "--job_id=j"]
    );
    assert_eq!(
        query_args(Some("p"), Some("l"), "j"),
        vec![
            "query",
            "--use_legacy_sql=false",
            "--format=none",
            "--project_id=p",
            "--location=l",
            "--job_id=j"
        ]
    );
    assert_eq!(
        show_args(None, Some("l"), "j"),
        vec!["--format=json", "--location=l", "show", "-j", "j"]
    );
    assert_eq!(
        show_args(Some("p"), None, "j"),
        vec!["--format=json", "--project_id=p", "show", "-j", "j"]
    );
}

#[test]
fn failures_of_the_tool() {
    assert_eq!(
        step_failed(BqStep::Spawn, "x").message(),
        "Compilation error: Failed to spawn bq CLI: x"
    );
    assert_eq!(
        step_failed(BqStep::Write, "x").message(),
        "Compilation error: Failed to write SQL to bq stdin: x"
    );
    assert_eq!(
        step_failed(BqStep::Wait, "x").message(),
        "Compilation error: Failed waiting for bq: x"
    );
}

#[test]
fn jobs_are_accounted_for() {
    assert_eq!(settle_job(5, "m", true, "", Some(7)).unwrap(), 12);
    assert_eq!(settle_job(5, "m", true, "", None).unwrap(), 5);
    assert_eq!(
        settle_job(5, "m", false, "no such table", Some(7)).unwrap_err().message(),
        "Compilation error: bq query failed for model 'm': no such table"
    );
}

#[test]
fn reports_on_jobs() {
    let json = br#"{"jobReference": {"jobId": "own"}, "statistics": {"query": {"totalBytesProcessed": "1024", "cacheHit": false, "billingTier": -3}}}"#;
    let report = job_report(json, "given").unwrap();
    assert_eq!(report.job_id, "own");
    assert_eq!(report.bytes, Some(1024));
    assert_eq!(report.cache_hit, "false");
    assert_eq!(report.billing_tier, "-3");
    assert_eq!(total_bytes_processed(json), Some(1024));

    let report = job_report(br#"{"statistics": {"query": {"totalBytesProcessed": 5, "cacheHit": "yes", "billingTier": 1.5}}}"#, "given").unwrap();
    assert_eq!(report.job_id, "given");
    assert_eq!(report.bytes, None);
    assert_eq!(report.cache_hit, "None");
    assert_eq!(report.billing_tier, "None");

    let report = job_report(b"[]", "given").unwrap();
    assert_eq!(report.bytes, None);
    assert_eq!(total_bytes_processed(b"null"), None);

    assert!(job_report(b"{", "given").is_none());
    assert_eq!(total_bytes_processed(b"{"), None);
}

#[test]
fn reports_from_places() {
    let report = make_report(
        "given",
        &JsonAt::Null,
        &JsonAt::Text("18446744073709551615".to_string()),
        &JsonAt::Bool(true),
        &JsonAt::Integer(Some(i64::MIN)),
    );
    assert_eq!(report.job_id, "given");
    assert_eq!(report.bytes, Some(u64::MAX));
    assert_eq!(report.cache_hit, "true");
    assert_eq!(report.billing_tier, "-9223372036854775808");
}

#[test]
fn numbers_of_bytes() {
    let read = |s: &str| read_bytes(&JsonAt::Text(s.to_string()));
    assert_eq!(read("0"), Some(0));
    assert_eq!(read("+12"), Some(12));
    assert_eq!(read("007"), Some(7));
    assert_eq!(read(""), None);
    assert_eq!(read("+"), None);
    assert_eq!(read("-1"), None);
    assert_eq!(read("1 "), None);
    assert_eq!(read("18446744073709551616"), None);
    assert_eq!(read_bytes(&JsonAt::Integer(Some(5))), None);
}
