//! BigQuery jobs: how they are started, named and accounted for.

use serde_json::Value;
use vstd::prelude::*;

use crate::runner::{ErrorView, RunnerError};
use crate::text;

verus! {

/// Whether a character is a letter or a number.
pub uninterp spec fn is_alphanumeric(c: char) -> bool;

/// `char::is_alphanumeric` goes by the Unicode tables. Of the ASCII characters
/// it holds for the letters and the digits.
pub assume_specification[ char::is_alphanumeric ](c: char) -> (res: bool)
    ensures
        res == is_alphanumeric(c),
        c <= '\u{7f}' ==> res == ('a' <= c <= 'z' || 'A' <= c <= 'Z' || '0' <= c <= '9'),
;

/// Whether a character may stand in the name of a job.
pub open spec fn fits_job_id(c: char) -> bool {
    is_alphanumeric(c) || c == '-' || c == '_'
}

/// A name with an underscore in the place of each character that may not stand
/// in the name of a job.
pub open spec fn job_name(name: Seq<char>) -> Seq<char> {
    name.map_values(
        |c: char|
            if fits_job_id(c) {
                c
            } else {
                '_'
            },
    )
}

/// The name of the job that runs a model: of the model, the process and the
/// time in nanoseconds.
pub open spec fn job_id_of(name: Seq<char>, process: nat, nanos: nat) -> Seq<char> {
    "nql_"@ + job_name(name) + "_"@ + text::decimal(process) + "_"@ + text::decimal(nanos)
}

/// The flags that choose the project and the location, each where it is given.
pub open spec fn place_flags(
    project: Option<Seq<char>>,
    location: Option<Seq<char>>,
) -> Seq<Seq<char>> {
    (match project {
        Some(project) => seq!["--project_id="@ + project],
        None => Seq::empty(),
    }) + (match location {
        Some(location) => seq!["--location="@ + location],
        None => Seq::empty(),
    })
}

/// The arguments that start a job.
pub open spec fn query_flags(
    project: Option<Seq<char>>,
    location: Option<Seq<char>>,
    job_id: Seq<char>,
) -> Seq<Seq<char>> {
    seq!["query"@, "--use_legacy_sql=false"@, "--format=none"@] + place_flags(project, location)
        + seq!["--job_id="@ + job_id]
}

/// The arguments that show a job.
pub open spec fn show_flags(
    project: Option<Seq<char>>,
    location: Option<Seq<char>>,
    job_id: Seq<char>,
) -> Seq<Seq<char>> {
    seq!["--format=json"@] + place_flags(project, location) + seq!["show"@, "-j"@, job_id]
}

/// The characters of an optional string.
pub open spec fn str_view(s: Option<&str>) -> Option<Seq<char>> {
    match s {
        Some(s) => Some(s@),
        None => None,
    }
}

/// Names the job that runs a model.
pub fn job_id(name: &str, process: u32, nanos: u128) -> (res: String)
    ensures
        res@ == job_id_of(name@, process as nat, nanos as nat),
{
    let chars = text::chars_of(name);
    let mut safe = String::new();
    let mut i: usize = 0;
    while i < chars.len()
        invariant
            chars@ == name@,
            0 <= i <= chars@.len(),
            safe@ == job_name(name@).take(i as int),
        decreases chars@.len() - i,
    {
        let c = chars[i];
        let kept = if c.is_alphanumeric() || c == '-' || c == '_' {
            c
        } else {
            '_'
        };
        safe.push(kept);
        assert(job_name(name@).take(i + 1) == job_name(name@).take(i as int).push(kept));
        i += 1;
    }
    assert(job_name(name@).take(chars@.len() as int) == job_name(name@));
    let res = text::cat5(
        "nql_",
        safe.as_str(),
        "_",
        text::to_decimal(process as u128).as_str(),
        "_",
    );
    text::cat2(res.as_str(), text::to_decimal(nanos).as_str())
}

fn push_place_flags(args: &mut Vec<String>, project: Option<&str>, location: Option<&str>)
    ensures
        text::views(final(args)@) == text::views(old(args)@) + place_flags(
            str_view(project),
            str_view(location),
        ),
{
    let ghost before = text::views(args@);
    if let Some(project) = project {
        args.push(text::cat2("--project_id=", project));
    }
    if let Some(location) = location {
        args.push(text::cat2("--location=", location));
    }
    assert(text::views(args@) =~= before + place_flags(str_view(project), str_view(location)));
}

/// Builds the arguments that start a job.
pub fn query_args(project: Option<&str>, location: Option<&str>, job_id: &str) -> (res: Vec<String>)
    ensures
        text::views(res@) == query_flags(str_view(project), str_view(location), job_id@),
{
    let mut args: Vec<String> = Vec::new();
    args.push("query".to_owned());
    args.push("--use_legacy_sql=false".to_owned());
    args.push("--format=none".to_owned());
    assert(text::views(args@) =~= seq!["query"@, "--use_legacy_sql=false"@, "--format=none"@]);
    push_place_flags(&mut args, project, location);
    let ghost before = text::views(args@);
    args.push(text::cat2("--job_id=", job_id));
    assert(text::views(args@) =~= before + seq!["--job_id="@ + job_id@]);
    args
}

/// Builds the arguments that show a job.
pub fn show_args(project: Option<&str>, location: Option<&str>, job_id: &str) -> (res: Vec<String>)
    ensures
        text::views(res@) == show_flags(str_view(project), str_view(location), job_id@),
{
    let mut args: Vec<String> = Vec::new();
    args.push("--format=json".to_owned());
    assert(text::views(args@) =~= seq!["--format=json"@]);
    push_place_flags(&mut args, project, location);
    let ghost before = text::views(args@);
    args.push("show".to_owned());
    args.push("-j".to_owned());
    args.push(job_id.to_owned());
    assert(text::views(args@) =~= before + seq!["show"@, "-j"@, job_id@]);
    args
}

/// The step of a job at which the command line tool failed.
#[derive(Debug, Clone, Copy, PartialEq, Eq, Structural)]
pub enum BqStep {
    Spawn,
    Write,
    Wait,
}

/// What is said of a failure of the command line tool.
pub open spec fn step_text(step: BqStep, error: Seq<char>) -> Seq<char> {
    match step {
        BqStep::Spawn => "Failed to spawn bq CLI: "@ + error,
        BqStep::Write => "Failed to write SQL to bq stdin: "@ + error,
        BqStep::Wait => "Failed waiting for bq: "@ + error,
    }
}

/// The error of a failure of the command line tool.
pub fn step_failed(step: BqStep, error: &str) -> (res: RunnerError)
    ensures
        res@ == ErrorView::Compilation(step_text(step, error@)),
{
    RunnerError::Compilation(
        match step {
            BqStep::Spawn => text::cat2("Failed to spawn bq CLI: ", error),
            BqStep::Write => text::cat2("Failed to write SQL to bq stdin: ", error),
            BqStep::Wait => text::cat2("Failed waiting for bq: ", error),
        },
    )
}

/// The bytes processed after a job that has ended, or the error of one that failed.
pub open spec fn settled(
    total: nat,
    name: Seq<char>,
    succeeded: bool,
    stderr: Seq<char>,
    bytes: Option<u64>,
) -> Result<nat, ErrorView> {
    if succeeded {
        Ok(
            match bytes {
                Some(bytes) => total + bytes as nat,
                None => total,
            },
        )
    } else {
        Err(
            ErrorView::Compilation("bq query failed for model '"@ + name + "': "@ + stderr),
        )
    }
}

/// Accounts for a job that has ended: the bytes processed so far and those of
/// the job, where they are known. The run stops at a job that failed.
pub fn settle_job(
    total_bytes: u64,
    name: &str,
    succeeded: bool,
    stderr: &str,
    bytes: Option<u64>,
) -> (res: Result<u64, RunnerError>)
    requires
        succeeded && bytes is Some ==> total_bytes + bytes->Some_0 <= u64::MAX,
    ensures
        match res {
            Ok(total) => succeeded && total == total_bytes + (match bytes {
                Some(bytes) => bytes,
                None => 0,
            }),
            Err(error) => !succeeded && error@ == ErrorView::Compilation(
                "bq query failed for model '"@ + name@ + "': "@ + stderr@,
            ),
        },
        match res {
            Ok(total) => settled(total_bytes as nat, name@, succeeded, stderr@, bytes) == Ok::<
                nat,
                ErrorView,
            >(total as nat),
            Err(error) => settled(total_bytes as nat, name@, succeeded, stderr@, bytes) == Err::<
                nat,
                ErrorView,
            >(error@),
        },
{
    if !succeeded {
        return Err(
            RunnerError::Compilation(text::cat4("bq query failed for model '", name, "': ", stderr)),
        );
    }
    Ok(
        match bytes {
            Some(bytes) => total_bytes + bytes,
            None => total_bytes,
        },
    )
}

/// What stands at a place in a JSON text.
#[derive(Debug)]
pub enum JsonAt {
    /// The text is no JSON.
    Malformed,
    /// The place is not there.
    Missing,
    Null,
    Bool(bool),
    /// A number, where it fits.
    Integer(Option<i64>),
    Text(String),
    /// An array or an object.
    Nested,
}

/// A [`JsonAt`] in terms of characters.
pub enum JsonView {
    Malformed,
    Missing,
    Null,
    Bool(bool),
    Integer(Option<i64>),
    Text(Seq<char>),
    Nested,
}

impl View for JsonAt {
    type V = JsonView;

    open spec fn view(&self) -> JsonView {
        match self {
            JsonAt::Malformed => JsonView::Malformed,
            JsonAt::Missing => JsonView::Missing,
            JsonAt::Null => JsonView::Null,
            JsonAt::Bool(b) => JsonView::Bool(*b),
            JsonAt::Integer(n) => JsonView::Integer(*n),
            JsonAt::Text(s) => JsonView::Text(s@),
            JsonAt::Nested => JsonView::Nested,
        }
    }
}

/// What stands in the JSON text `json` under the keys `path`, each in the
/// object under the one before it.
pub uninterp spec fn json_at(json: Seq<u8>, path: Seq<Seq<char>>) -> JsonView;

/// `serde_json::from_slice`, then `serde_json::Value::get` for each key in
/// turn. A text that is no JSON is so whatever the keys are.
#[verifier::external_body]
pub(crate) fn look_up(json: &[u8], path: &Vec<String>) -> (res: JsonAt)
    ensures
        res@ == json_at(json@, text::views(path@)),
        res@ is Malformed <==> json_at(json@, Seq::empty()) is Malformed,
{
    let value: Value = match serde_json::from_slice(json) {
        Ok(value) => value,
        Err(_) => return JsonAt::Malformed,
    };
    match path.iter().try_fold(&value, |at, key| at.get(key)) {
        None => JsonAt::Missing,
        Some(Value::Null) => JsonAt::Null,
        Some(Value::Bool(b)) => JsonAt::Bool(*b),
        Some(Value::Number(n)) => JsonAt::Integer(n.as_i64()),
        Some(Value::String(s)) => JsonAt::Text(s.clone()),
        Some(Value::Array(_) | Value::Object(_)) => JsonAt::Nested,
    }
}

/// The number of bytes that a text at a place stands for.
pub open spec fn bytes_of(at: JsonView) -> Option<u64> {
    match at {
        JsonView::Text(s) => text::read_u64(s),
        _ => None,
    }
}

/// Reads the number of bytes that a text at a place stands for.
pub fn read_bytes(at: &JsonAt) -> (res: Option<u64>)
    ensures
        res == bytes_of(at@),
{
    match at {
        JsonAt::Text(s) => text::parse_u64(s.as_str()),
        _ => None,
    }
}

/// The keys of a figure of a job.
pub open spec fn figure_path(figure: Seq<char>) -> Seq<Seq<char>> {
    seq!["statistics"@, "query"@, figure]
}

fn figure_keys(figure: &str) -> (res: Vec<String>)
    ensures
        text::views(res@) == figure_path(figure@),
{
    let mut keys: Vec<String> = Vec::new();
    keys.push("statistics".to_owned());
    keys.push("query".to_owned());
    keys.push(figure.to_owned());
    assert(text::views(keys@) =~= figure_path(figure@));
    keys
}

/// The number of bytes that a job processed, from what the command line tool
/// shows of it.
pub fn total_bytes_processed(json: &[u8]) -> (res: Option<u64>)
    ensures
        res == bytes_of(json_at(json@, figure_path("totalBytesProcessed"@))),
{
    read_bytes(&look_up(json, &figure_keys("totalBytesProcessed")))
}

/// What is known of a job that has ended.
#[derive(Debug)]
pub struct JobReport {
    pub job_id: String,
    pub bytes: Option<u64>,
    pub cache_hit: String,
    pub billing_tier: String,
}

/// A [`JobReport`] in terms of characters.
pub struct ReportView {
    pub job_id: Seq<char>,
    pub bytes: Option<u64>,
    pub cache_hit: Seq<char>,
    pub billing_tier: Seq<char>,
}

impl View for JobReport {
    type V = ReportView;

    open spec fn view(&self) -> ReportView {
        ReportView {
            job_id: self.job_id@,
            bytes: self.bytes,
            cache_hit: self.cache_hit@,
            billing_tier: self.billing_tier@,
        }
    }
}

/// The report on a job from what stands at four places: its own name, the
/// bytes, whether the cache was hit, and the tier. What is not there is
/// `None`; the name is then the one under which the job was started.
pub open spec fn report_from(
    job_id: Seq<char>,
    own_id: JsonView,
    bytes: JsonView,
    cache_hit: JsonView,
    tier: JsonView,
) -> ReportView {
    ReportView {
        job_id: match own_id {
            JsonView::Text(s) => s,
            _ => job_id,
        },
        bytes: bytes_of(bytes),
        cache_hit: match cache_hit {
            JsonView::Bool(b) => if b {
                "true"@
            } else {
                "false"@
            },
            _ => "None"@,
        },
        billing_tier: match tier {
            JsonView::Integer(Some(n)) => text::signed_decimal(n as int),
            _ => "None"@,
        },
    }
}

/// Reports on a job from what stands at four places.
pub fn make_report(
    job_id: &str,
    own_id: &JsonAt,
    bytes: &JsonAt,
    cache_hit: &JsonAt,
    tier: &JsonAt,
) -> (res: JobReport)
    ensures
        res@ == report_from(job_id@, own_id@, bytes@, cache_hit@, tier@),
{
    JobReport {
        job_id: match own_id {
            JsonAt::Text(s) => s.clone(),
            _ => job_id.to_owned(),
        },
        bytes: read_bytes(bytes),
        cache_hit: match cache_hit {
            JsonAt::Bool(b) => if *b {
                "true".to_owned()
            } else {
                "false".to_owned()
            },
            _ => "None".to_owned(),
        },
        billing_tier: match tier {
            JsonAt::Integer(Some(n)) => text::to_signed_decimal(*n),
            _ => "None".to_owned(),
        },
    }
}

/// Reports on a job from what the command line tool shows of it, where that is
/// JSON.
pub fn job_report(json: &[u8], job_id: &str) -> (res: Option<JobReport>)
    ensures
        match res {
            Some(report) => {
                &&& !(json_at(json@, Seq::empty()) is Malformed)
                &&& report@ == report_from(
                    job_id@,
                    json_at(json@, seq!["jobReference"@, "jobId"@]),
                    json_at(json@, figure_path("totalBytesProcessed"@)),
                    json_at(json@, figure_path("cacheHit"@)),
                    json_at(json@, figure_path("billingTier"@)),
                )
            },
            None => json_at(json@, Seq::empty()) is Malformed,
        },
{
    let mut keys: Vec<String> = Vec::new();
    keys.push("jobReference".to_owned());
    keys.push("jobId".to_owned());
    assert(text::views(keys@) =~= seq!["jobReference"@, "jobId"@]);
    let own_id = look_up(json, &keys);
    if let JsonAt::Malformed = own_id {
        return None;
    }
    Some(
        make_report(
            job_id,
            &own_id,
            &look_up(json, &figure_keys("totalBytesProcessed")),
            &look_up(json, &figure_keys("cacheHit")),
            &look_up(json, &figure_keys("billingTier")),
        ),
    )
}

}
