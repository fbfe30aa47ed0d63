//! Laws of BigQuery jobs: their names, their arguments and what is reported of
//! them.

use vstd::prelude::*;

use crate::bq;
use crate::bq::{BqStep, JsonView};
use crate::laws::functions;
use crate::runner::ErrorView;
use crate::text;

verus! {

/// The name of a job is that of its model, of its process and of its time, in this
/// order. Of the name of the model, each letter, digit, dash and underscore is
/// kept at its place, and every other character is an underscore.
pub proof fn law_job_id_layout(name: Seq<char>, process: nat, nanos: nat, named: Seq<char>)
    requires
        named.len() == name.len(),
        forall|i: int|
            0 <= i < name.len() ==> #[trigger] named[i] == (if bq::is_alphanumeric(name[i])
                || name[i] == '-' || name[i] == '_' {
                name[i]
            } else {
                '_'
            }),
    ensures
        bq::job_id_of(name, process, nanos) == "nql_"@ + named + "_"@ + text::decimal(process)
            + "_"@ + text::decimal(nanos),
{
    assert(bq::job_name(name) =~= named);
}

/// A job is started as a query in standard SQL under its name, for the project and
/// at the location that are given. Without one, no argument chooses it.
pub proof fn law_query_arguments(
    project: Option<Seq<char>>,
    location: Option<Seq<char>>,
    job_id: Seq<char>,
)
    ensures
        ({
            let flags = bq::query_flags(project, location, job_id);
            let n = 4 + (if project is Some { 1int } else { 0int }) + (if location is Some {
                1int
            } else {
                0int
            });
            &&& flags.len() == n
            &&& flags[0] == "query"@
            &&& flags[1] == "--use_legacy_sql=false"@
            &&& flags[2] == "--format=none"@
            &&& project matches Some(project) ==> flags[3] == "--project_id="@ + project
            &&& location matches Some(location) ==> flags[n - 2] == "--location="@ + location
            &&& flags[n - 1] == "--job_id="@ + job_id
        }),
{
}

/// A job is shown as JSON under the name and at the place under which it was
/// started.
pub proof fn law_show_arguments(
    project: Option<Seq<char>>,
    location: Option<Seq<char>>,
    job_id: Seq<char>,
)
    ensures
        ({
            let flags = bq::show_flags(project, location, job_id);
            let started = bq::query_flags(project, location, job_id);
            let n = flags.len() as int;
            &&& n == started.len()
            &&& flags[0] == "--format=json"@
            &&& flags[n - 3] == "show"@
            &&& flags[n - 2] == "-j"@
            &&& flags[n - 1] == job_id
            &&& started.last() == "--job_id="@ + flags[n - 1]
            &&& flags.subrange(1, n - 3) == started.subrange(3, n - 1)
        }),
{
    let flags = bq::show_flags(project, location, job_id);
    let started = bq::query_flags(project, location, job_id);
    let n = flags.len() as int;
    assert(flags.subrange(1, n - 3) =~= started.subrange(3, n - 1));
}

/// What is said of a step at which the command line tool failed names the step, and
/// then says why.
pub proof fn law_step_is_named(error: Seq<char>)
    ensures
        bq::step_text(BqStep::Spawn, error) == "Failed to spawn bq CLI: "@ + error,
        bq::step_text(BqStep::Write, error) == "Failed to write SQL to bq stdin: "@ + error,
        bq::step_text(BqStep::Wait, error) == "Failed waiting for bq: "@ + error,
{
}

/// A job that failed stops the run, with an error that names its model and says
/// why. The bytes of one that succeeded are added to those before it, and one of
/// which they are not known adds none.
pub proof fn law_job_is_settled(
    total: nat,
    name: Seq<char>,
    succeeded: bool,
    stderr: Seq<char>,
    bytes: Option<u64>,
)
    ensures
        match bq::settled(total, name, succeeded, stderr, bytes) {
            Ok(after) => {
                &&& succeeded
                &&& bytes is None ==> after == total
                &&& bytes matches Some(more) ==> after == total + more
            },
            Err(error) => !succeeded && error == ErrorView::Compilation(
                "bq query failed for model '"@ + name + "': "@ + stderr,
            ),
        },
{
}

/// The bytes of a job are the number that is written as a text at their place;
/// a number that is no text there counts as unknown.
pub proof fn law_bytes_are_read(n: u64, at: JsonView)
    ensures
        bq::bytes_of(JsonView::Text(text::decimal(n as nat))) == Some(n),
        !(at is Text) ==> bq::bytes_of(at) is None,
        at matches JsonView::Text(s) ==> bq::bytes_of(at) == text::read_u64(s),
{
    functions::law_decimal_reads_back(n as nat);
}

/// A figure of a job stands among those of its query, among its statistics.
pub proof fn law_figure_path(figure: Seq<char>)
    ensures
        bq::figure_path(figure).len() == 3,
        bq::figure_path(figure)[0] == "statistics"@,
        bq::figure_path(figure)[1] == "query"@,
        bq::figure_path(figure)[2] == figure,
{
}

/// A report says what stands at the places of a job: its own name, else the one
/// under which it was started; the bytes; whether the cache was hit; and the tier.
/// What is of another kind there, or is missing, is `None`.
pub proof fn law_report_says_what_is_there(
    job_id: Seq<char>,
    own_id: JsonView,
    bytes: JsonView,
    cache_hit: JsonView,
    tier: JsonView,
)
    ensures
        ({
            let report = bq::report_from(job_id, own_id, bytes, cache_hit, tier);
            &&& own_id matches JsonView::Text(own) ==> report.job_id == own
            &&& !(own_id is Text) ==> report.job_id == job_id
            &&& report.bytes == bq::bytes_of(bytes)
            &&& cache_hit == JsonView::Bool(true) ==> report.cache_hit == "true"@
            &&& cache_hit == JsonView::Bool(false) ==> report.cache_hit == "false"@
            &&& !(cache_hit is Bool) ==> report.cache_hit == "None"@
            &&& tier matches JsonView::Integer(Some(n)) ==> report.billing_tier == (if n < 0 {
                "-"@ + text::decimal((-n) as nat)
            } else {
                text::decimal(n as nat)
            })
            &&& tier == JsonView::Integer(None) || !(tier is Integer) ==> report.billing_tier
                == "None"@
        }),
{
}

proof fn lemma_number(s: Seq<char>)
    requires
        text::all_digits(s),
    ensures
        text::number(s) >= 0,
    decreases s.len(),
{
    if s.len() > 0 {
        assert forall|i: int| 0 <= i < s.len() - 1 implies '0' <= #[trigger] s.drop_last()[i]
            <= '9' by {
            assert('0' <= s[i] <= '9');
        }
        assert('0' <= s[s.len() - 1] <= '9');
        lemma_number(s.drop_last());
    }
}

/// A number is read from decimal digits, with or without a plus sign before them,
/// where it fits; anything else is no number.
pub proof fn law_number_is_read(s: Seq<char>, d: char)
    ensures
        '0' <= d <= '9' ==> text::number(s.push(d)) == text::number(s) * 10 + (d as int - '0' as int),
        text::number(Seq::empty()) == 0,
        text::read_u64(s) matches Some(n) ==> s.len() > 0 && (n == text::number(s) || (s[0] == '+'
            && s.len() > 1 && n == text::number(s.skip(1)))),
        s.len() > 0 && text::all_digits(s) ==> {
            &&& text::number(s) <= u64::MAX ==> text::read_u64(s) == Some(text::number(s) as u64)
            &&& text::number(s) > u64::MAX ==> text::read_u64(s) is None
            &&& text::read_u64(seq!['+'] + s) == text::read_u64(s)
        },
        (exists|i: int| 0 < i < s.len() && !('0' <= #[trigger] s[i] <= '9')) ==> text::read_u64(
            s,
        ) is None,
        s.len() == 0 || (s[0] != '+' && !('0' <= s[0] <= '9')) ==> text::read_u64(s) is None,
        s == seq!['+'] ==> text::read_u64(s) is None,
{
    assert(s.push(d).drop_last() =~= s);
    if text::all_digits(s) {
        lemma_number(s);
    }
    if s.len() > 0 && text::all_digits(s.skip(1)) {
        lemma_number(s.skip(1));
    }
    assert((seq!['+'] + s).skip(1) =~= s);
    if exists|i: int| 0 < i < s.len() && !('0' <= #[trigger] s[i] <= '9') {
        let i = choose|i: int| 0 < i < s.len() && !('0' <= #[trigger] s[i] <= '9');
        if text::all_digits(s.skip(1)) {
            assert('0' <= s.skip(1)[i - 1] <= '9');
        }
        if text::all_digits(s) {
            assert('0' <= s[i] <= '9');
        }
    }
    if s.len() > 0 && text::all_digits(s) {
        assert('0' <= s[0] <= '9');
    }
}

}
