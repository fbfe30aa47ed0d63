//! Laws of the functions that the targets run.

use vstd::prelude::*;

use crate::bq;
use crate::dialect::bigquery;
use crate::laws::extract;
use crate::pattern;
use crate::sqlite_udf;
use crate::sqlite_udf::{LlmConfigView, LlmVars};
use crate::text;

verus! {

/// Each function of one argument that SQLite runs is an NQL function and has a
/// prompt.
pub proof fn law_unary_udf(i: int, text: Seq<char>)
    requires
        0 <= i < sqlite_udf::UNARY_UDFS@.len(),
    ensures
        pattern::is_function(sqlite_udf::UNARY_UDFS@[i]@),
        sqlite_udf::unary_prompt(sqlite_udf::UNARY_UDFS@[i]@, text) is Some,
{
    assert(pattern::NQL_FUNCTIONS@[6]@ == "sentiment"@);
    assert(pattern::NQL_FUNCTIONS@[1]@ == "summarize"@);
    assert(pattern::NQL_FUNCTIONS@[4]@ == "extract_entities"@);
    assert(pattern::NQL_FUNCTIONS@[0]@ == "generate_text"@);
    assert(pattern::NQL_FUNCTIONS@[5]@ == "generate_embedding"@);
    assert(pattern::NQL_FUNCTIONS@[7]@ == "get_facts"@);
    assert(pattern::NQL_FUNCTIONS@[8]@ == "identify_groups"@);
    assert(pattern::NQL_FUNCTIONS@[9]@ == "classify"@);
    assert(pattern::NQL_FUNCTIONS@[11]@ == "extract_json"@);
    assert(pattern::NQL_FUNCTIONS@[12]@ == "detect_language"@);
    assert(pattern::NQL_FUNCTIONS@[14]@ == "generate_code"@);
    assert(pattern::NQL_FUNCTIONS@[15]@ == "criticize"@);
    assert(pattern::NQL_FUNCTIONS@[16]@ == "synthesize"@);
    assert(pattern::NQL_FUNCTIONS@[17]@ == "breathe"@);
    assert(pattern::NQL_FUNCTIONS@[18]@ == "zoom_in"@);
}

/// Each function of two arguments that SQLite runs is an NQL function and has a
/// prompt.
pub proof fn law_binary_udf(i: int, first: Seq<char>, second: Seq<char>)
    requires
        0 <= i < sqlite_udf::BINARY_UDFS@.len(),
    ensures
        pattern::is_function(sqlite_udf::BINARY_UDFS@[i]@),
        sqlite_udf::binary_prompt(sqlite_udf::BINARY_UDFS@[i]@, first, second) is Some,
{
    assert(pattern::NQL_FUNCTIONS@[3]@ == "translate"@);
    assert(pattern::NQL_FUNCTIONS@[10]@ == "classify_into"@);
    assert(pattern::NQL_FUNCTIONS@[13]@ == "answer_question"@);
}

proof fn lemma_holds(before: Seq<char>, part: Seq<char>, after: Seq<char>)
    ensures
        extract::holds(before + part, part),
        extract::holds(part, part),
        extract::holds(before + part + after, part),
{
    let i = before.len() as int;
    let j = i + part.len();
    assert((before + part + after).subrange(i, j) =~= part);
    assert(pattern::stands_at(before + part + after, i, part));
    assert((before + part).subrange(i, j) =~= part);
    assert(pattern::stands_at(before + part, i, part));
    assert(part.subrange(0, part.len() as int) =~= part);
    assert(pattern::stands_at(part, 0, part));
}

/// What a function of one argument asks holds the argument as it is.
pub proof fn law_unary_prompt_holds_input(name: Seq<char>, text: Seq<char>)
    ensures
        sqlite_udf::unary_prompt(name, text) matches Some(prompt) ==> extract::holds(prompt, text),
{
    assert forall|before: Seq<char>| extract::holds(#[trigger] (before + text), text) by {
        lemma_holds(before, text, Seq::empty());
    }
    assert forall|before: Seq<char>, after: Seq<char>|
        extract::holds(#[trigger] (before + text + after), text) by {
        lemma_holds(before, text, after);
    }
    lemma_holds(Seq::empty(), text, Seq::empty());
}

/// What a function of two arguments asks holds both arguments as they are.
pub proof fn law_binary_prompt_holds_input(name: Seq<char>, first: Seq<char>, second: Seq<char>)
    ensures
        sqlite_udf::binary_prompt(name, first, second) matches Some(prompt) ==> extract::holds(
            prompt,
            first,
        ) && extract::holds(prompt, second),
{
    assert forall|a: Seq<char>, b: Seq<char>|
        extract::holds(#[trigger] (a + second + b + first), first) && extract::holds(
            a + second + b + first,
            second,
        ) by {
        lemma_holds(a + second + b, first, Seq::empty());
        lemma_holds(a, second, b + first);
        assert(a + second + b + first =~= a + second + (b + first));
    }
    assert forall|a: Seq<char>, b: Seq<char>|
        extract::holds(#[trigger] (a + first + b + second), first) && extract::holds(
            a + first + b + second,
            second,
        ) by {
        lemma_holds(a + first + b, second, Seq::empty());
        lemma_holds(a, first, b + second);
        assert(a + first + b + second =~= a + first + (b + second));
    }
}

/// Where no environment variable is set, the language model is the default one.
pub proof fn law_default_model(vars: LlmVars)
    requires
        vars.backend is None,
        vars.api_url is None,
        vars.model is None,
        vars.openai_api_key is None,
        vars.anthropic_api_key is None,
        vars.gemini_api_key is None,
    ensures
        sqlite_udf::config_from(vars) == (LlmConfigView {
            backend: "ollama"@,
            api_url: sqlite_udf::DEFAULT_OLLAMA_URL@,
            model: sqlite_udf::DEFAULT_MODEL@,
            api_key: None,
        }),
{
    reveal_strlit("ollama");
    reveal_strlit("openai");
    assert("ollama"@[1] != "openai"@[1]);
}

/// BigQuery runs every function as a call of an AI function and takes its
/// result.
pub proof fn law_bigquery_takes_result(func: Seq<char>, args: Seq<char>)
    ensures
        "(AI.GENERATE"@.is_prefix_of(bigquery::bigquery_sql(func, args)),
        ")).result"@.is_suffix_of(bigquery::bigquery_sql(func, args)),
{
    reveal_strlit("(AI.GENERATE");
    reveal_strlit("(AI.GENERATE(");
    reveal_strlit("(AI.GENERATE(CONCAT(");
    reveal_strlit("(AI.GENERATE_EMBEDDING(");
    reveal_strlit(")).result");
    reveal_strlit("))).result");
    let sql = bigquery::bigquery_sql(func, args);
    assert(sql.take("(AI.GENERATE"@.len() as int) =~= "(AI.GENERATE"@);
    assert(sql.skip(sql.len() - ")).result"@.len()) =~= ")).result"@);
}

/// The name of a job keeps the length of the name of its model, holds only
/// characters that may stand there, and keeps a name that holds only such.
pub proof fn law_job_name(name: Seq<char>)
    ensures
        bq::job_name(name).len() == name.len(),
        forall|i: int| 0 <= i < name.len() ==> bq::fits_job_id(#[trigger] bq::job_name(name)[i]),
        (forall|i: int| 0 <= i < name.len() ==> bq::fits_job_id(#[trigger] name[i]))
            ==> bq::job_name(name) == name,
{
    if forall|i: int| 0 <= i < name.len() ==> bq::fits_job_id(#[trigger] name[i]) {
        assert(bq::job_name(name) =~= name);
    }
}

/// The decimal digits of a number are read back as the number.
pub proof fn law_decimal_reads_back(n: nat)
    ensures
        text::decimal(n).len() > 0,
        text::all_digits(text::decimal(n)),
        text::number(text::decimal(n)) == n,
        n <= u64::MAX ==> text::read_u64(text::decimal(n)) == Some(n as u64),
    decreases n,
{
    let digits = seq!['0', '1', '2', '3', '4', '5', '6', '7', '8', '9'];
    let digit = digits[(n % 10) as int];
    let written = text::decimal(n);
    assert(digit as int - '0' as int == n % 10);
    if n < 10 {
        assert(written.drop_last() =~= Seq::empty());
        assert(text::number(Seq::empty()) == 0);
    } else {
        law_decimal_reads_back(n / 10);
        assert(written.drop_last() =~= text::decimal(n / 10));
        assert(n == n / 10 * 10 + n % 10);
    }
    assert('0' <= written[0] <= '9');
}

/// What stands before and behind the last underscore of a text is fixed by it.
proof fn lemma_last_underscore(
    a: Seq<char>,
    a_digits: Seq<char>,
    b: Seq<char>,
    b_digits: Seq<char>,
)
    requires
        text::all_digits(a_digits),
        text::all_digits(b_digits),
        a + "_"@ + a_digits == b + "_"@ + b_digits,
    ensures
        a == b,
        a_digits == b_digits,
{
    reveal_strlit("_");
    let x = a + "_"@ + a_digits;
    let y = b + "_"@ + b_digits;
    assert((a + "_"@).len() == a.len() + 1);
    assert((b + "_"@).len() == b.len() + 1);
    assert(x.len() == y.len());
    assert(x[a.len() as int] == '_');
    assert(y[b.len() as int] == '_');
    if a.len() < b.len() {
        assert(x[b.len() as int] == a_digits[b.len() - a.len() - 1]);
    } else if b.len() < a.len() {
        assert(y[a.len() as int] == b_digits[a.len() - b.len() - 1]);
    }
    assert(a =~= x.take(a.len() as int));
    assert(b =~= y.take(b.len() as int));
    assert(a_digits =~= x.skip(a.len() as int + 1));
    assert(b_digits =~= y.skip(b.len() as int + 1));
}

/// The name of a job is unique: jobs of the same name are of the same process
/// and time, and of models that have the same name among jobs.
pub proof fn law_job_id_is_unique(
    name: Seq<char>,
    process: nat,
    nanos: nat,
    name2: Seq<char>,
    process2: nat,
    nanos2: nat,
)
    requires
        bq::job_id_of(name, process, nanos) == bq::job_id_of(name2, process2, nanos2),
    ensures
        bq::job_name(name) == bq::job_name(name2),
        process == process2,
        nanos == nanos2,
{
    law_decimal_reads_back(process);
    law_decimal_reads_back(nanos);
    law_decimal_reads_back(process2);
    law_decimal_reads_back(nanos2);
    let a = "nql_"@ + bq::job_name(name);
    let b = "nql_"@ + bq::job_name(name2);
    lemma_last_underscore(
        a + "_"@ + text::decimal(process),
        text::decimal(nanos),
        b + "_"@ + text::decimal(process2),
        text::decimal(nanos2),
    );
    lemma_last_underscore(a, text::decimal(process), b, text::decimal(process2));
    assert(bq::job_name(name) =~= a.skip("nql_"@.len() as int));
    assert(bq::job_name(name2) =~= b.skip("nql_"@.len() as int));
}

}
