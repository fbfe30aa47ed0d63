//! Laws of the SQL that the targets run in place of calls.

use vstd::prelude::*;

use crate::compiler;
use crate::compiler::Target;
use crate::dialect::{args, bigquery, databricks, postgresql, snowflake};
use crate::laws::compile;
use crate::laws::parentheses;
use crate::laws::parentheses::reading;
use crate::pattern;
use crate::pattern::Reading;

verus! {

/// Whether a text closes its single-quoted strings, each of which closes its own
/// parentheses, and what reading it finds.
spec fn reads(s: Seq<char>, level: int, low: int) -> bool {
    reading(s, false) == (Reading { quoted: false, level, low }) && parentheses::is_calm(s)
}

/// What reading a text up to the place `i` has found: whether a string is open,
/// how many parentheses are, the least that they were, and how many are open in
/// the string.
spec fn so_far(s: Seq<char>, i: int, found: (bool, int, int, int)) -> bool {
    &&& 0 <= i <= s.len()
    &&& reading(s.take(i), false) == (Reading {
        quoted: found.0,
        level: found.1,
        low: found.2,
    })
    &&& reading(s.take(i), true) == (Reading { quoted: !found.0, level: found.3, low: 0 })
    &&& parentheses::is_calm_to(s, i)
}

proof fn lemma_start(s: Seq<char>)
    ensures
        so_far(s, 0, (false, 0, 0, 0)),
{
    assert(s.take(0) =~= Seq::empty());
}

proof fn lemma_grows(s: Seq<char>, i: int)
    requires
        0 <= i < s.len(),
        parentheses::is_calm_to(s, i),
        !reading(s.take(i + 1), false).quoted ==> reading(s.take(i + 1), true)
            == parentheses::unmoved(true),
    ensures
        parentheses::is_calm_to(s, i + 1),
{
    assert forall|j: int|
        0 <= j <= i + 1 && !reading(#[trigger] s.take(j), false).quoted implies reading(
        s.take(j),
        true,
    ) == parentheses::unmoved(true) by {}
}

proof fn lemma_run(s: Seq<char>, i: int, j: int, found: (bool, int, int, int))
    requires
        i <= j <= s.len(),
        so_far(s, i, found),
        forall|k: int| i <= k < j ==> parentheses::is_plain_char(#[trigger] s[k]),
    ensures
        so_far(s, j, found),
    decreases j - i,
{
    if i < j {
        assert(s.take(i + 1).drop_last() =~= s.take(i));
        assert(parentheses::is_plain_char(s[i]));
        lemma_grows(s, i);
        lemma_run(s, i + 1, j, found);
    }
}

proof fn lemma_quote(s: Seq<char>, i: int, found: (bool, int, int, int))
    requires
        i < s.len(),
        so_far(s, i, found),
        found.3 == 0,
        s[i] == '\'',
    ensures
        so_far(s, i + 1, (!found.0, found.1, found.2, 0)),
{
    assert(s.take(i + 1).drop_last() =~= s.take(i));
    lemma_grows(s, i);
}

proof fn lemma_open(s: Seq<char>, i: int, found: (bool, int, int, int))
    requires
        i < s.len(),
        so_far(s, i, found),
        s[i] == '(',
    ensures
        so_far(
            s,
            i + 1,
            if found.0 {
                (true, found.1, found.2, found.3 + 1)
            } else {
                (false, found.1 + 1, found.2, found.3)
            },
        ),
{
    assert(s.take(i + 1).drop_last() =~= s.take(i));
    lemma_grows(s, i);
}

proof fn lemma_close(s: Seq<char>, i: int, found: (bool, int, int, int))
    requires
        i < s.len(),
        so_far(s, i, found),
        s[i] == ')',
        found.0 ==> found.3 > 0,
    ensures
        so_far(
            s,
            i + 1,
            if found.0 {
                (true, found.1, found.2, found.3 - 1)
            } else {
                let level = found.1 - 1;
                (
                    false,
                    level,
                    if level < found.2 {
                        level
                    } else {
                        found.2
                    },
                    found.3,
                )
            },
        ),
{
    assert(s.take(i + 1).drop_last() =~= s.take(i));
    lemma_grows(s, i);
}

proof fn lemma_end(s: Seq<char>, level: int, low: int)
    requires
        so_far(s, s.len() as int, (false, level, low, 0)),
    ensures
        reads(s, level, low),
{
    assert(s.take(s.len() as int) =~= s);
}

/// What is read of a text that is made from the arguments of a call: `level`
/// parentheses are open at its end and never less than none, where `args`
/// closes all of its own, and it is calm where `args` is.
spec fn rises(t: Seq<char>, args: Seq<char>, level: int) -> bool {
    &&& !reading(t, false).quoted
    &&& reading(args, false) == parentheses::unmoved(false) ==> reading(t, false) == (Reading {
        quoted: false,
        level,
        low: 0,
    })
    &&& parentheses::is_calm(args) ==> parentheses::is_calm(t)
}

/// Whether a text is made from arguments that leave no string open.
spec fn is_part(x: Seq<char>, args: Seq<char>) -> bool {
    parentheses::is_as(x, args) && !reading(x, false).quoted
}

proof fn lemma_first_text(t: Seq<char>, args: Seq<char>, level: int) -> (res: Seq<char>)
    requires
        reads(t, level, 0),
    ensures
        res == t,
        rises(res, args, level),
{
    t
}

proof fn lemma_first_part(t: Seq<char>, args: Seq<char>) -> (res: Seq<char>)
    requires
        is_part(t, args),
    ensures
        res == t,
        rises(res, args, 0),
{
    t
}

proof fn lemma_add_text(
    t: Seq<char>,
    more: Seq<char>,
    args: Seq<char>,
    level: int,
    by: int,
    low: int,
) -> (res: Seq<char>)
    requires
        rises(t, args, level),
        reads(more, by, low),
        level + low >= 0,
    ensures
        res == t + more,
        rises(res, args, level + by),
{
    parentheses::lemma_join(t, more);
    t + more
}

proof fn lemma_add_part(
    t: Seq<char>,
    more: Seq<char>,
    args: Seq<char>,
    level: int,
) -> (res: Seq<char>)
    requires
        rises(t, args, level),
        is_part(more, args),
        level >= 0,
    ensures
        res == t + more,
        rises(res, args, level),
{
    parentheses::lemma_join(t, more);
    t + more
}

/// An argument of a call is made from its arguments, and so is what stands for
/// one that is not there.
proof fn lemma_argument(args: Seq<char>, k: int, default: Seq<char>)
    requires
        0 <= k,
        reads(default, 0, 0),
        parentheses::is_calm(args) || reading(args, false) == parentheses::unmoved(false),
    ensures
        is_part(args::argument(args, k, default), args),
{
    parentheses::law_arguments_close_all(args);
    if k < args::call_arguments(args).len() {
        assert(parentheses::is_as(args::call_arguments(args)[k], args));
    }
}

/// What stands for arguments that are not there.
proof fn lemma_defaults()
    ensures
        reads("''"@, 0, 0),
        reads("'en'"@, 0, 0),
        reads("'fact'"@, 0, 0),
{
    assert(reads("''"@, 0, 0)) by {
        reveal_strlit("''");
        let s = "''"@;
        lemma_start(s);
        lemma_quote(s, 0, (false, 0, 0, 0));
        lemma_quote(s, 1, (true, 0, 0, 0));
        lemma_end(s, 0, 0);
    }
    assert(reads("'en'"@, 0, 0)) by {
        reveal_strlit("'en'");
        let s = "'en'"@;
        lemma_start(s);
        lemma_quote(s, 0, (false, 0, 0, 0));
        lemma_run(s, 1, 3, (true, 0, 0, 0));
        lemma_quote(s, 3, (true, 0, 0, 0));
        lemma_end(s, 0, 0);
    }
    assert(reads("'fact'"@, 0, 0)) by {
        reveal_strlit("'fact'");
        let s = "'fact'"@;
        lemma_start(s);
        lemma_quote(s, 0, (false, 0, 0, 0));
        lemma_run(s, 1, 5, (true, 0, 0, 0));
        lemma_quote(s, 5, (true, 0, 0, 0));
        lemma_end(s, 0, 0);
    }
}

/// The name of a function is plain.
proof fn lemma_name(name: Seq<char>)
    requires
        pattern::is_function(name),
    ensures
        reads(name, 0, 0),
{
    compile::lemma_function_names(name);
    assert forall|i: int| 0 <= i < name.len() implies parentheses::is_plain_char(
        #[trigger] name[i],
    ) by {
        assert(compile::is_name_char(name[i]));
    }
    parentheses::lemma_plain(name, false);
    parentheses::lemma_no_quote_is_calm(name);
}

/// What reading the texts finds that PostgreSQL runs.
proof fn lemma_postgresql_texts()
    ensures
        reads("pgai.generate_text(prompt => "@, 1, 0),
        reads(", text => "@, 0, 0),
        reads(")"@, -1, -1),
        reads("pgai.summarize(text => "@, 1, 0),
        reads("pgai.analyze_sentiment(text => "@, 1, 0),
        reads("pgai.translate(text => "@, 1, 0),
        reads(", target_language => "@, 0, 0),
        reads("pgai.extract_entities(text => "@, 1, 0),
        reads("pgai.generate_embedding(text => "@, 1, 0),
        reads("pgai."@, 0, 0),
        reads("(text => "@, 1, 0),
{
    assert(reads("pgai.generate_text(prompt => "@, 1, 0)) by {
        reveal_strlit("pgai.generate_text(prompt => ");
        let s = "pgai.generate_text(prompt => "@;
        lemma_start(s);
        lemma_run(s, 0, 18, (false, 0, 0, 0));
        lemma_open(s, 18, (false, 0, 0, 0));
        lemma_run(s, 19, 29, (false, 1, 0, 0));
        lemma_end(s, 1, 0);
    }
    assert(reads(", text => "@, 0, 0)) by {
        reveal_strlit(", text => ");
        let s = ", text => "@;
        lemma_start(s);
        lemma_run(s, 0, 10, (false, 0, 0, 0));
        lemma_end(s, 0, 0);
    }
    assert(reads(")"@, -1, -1)) by {
        reveal_strlit(")");
        let s = ")"@;
        lemma_start(s);
        lemma_close(s, 0, (false, 0, 0, 0));
        lemma_end(s, -1, -1);
    }
    assert(reads("pgai.summarize(text => "@, 1, 0)) by {
        reveal_strlit("pgai.summarize(text => ");
        let s = "pgai.summarize(text => "@;
        lemma_start(s);
        lemma_run(s, 0, 14, (false, 0, 0, 0));
        lemma_open(s, 14, (false, 0, 0, 0));
        lemma_run(s, 15, 23, (false, 1, 0, 0));
        lemma_end(s, 1, 0);
    }
    assert(reads("pgai.analyze_sentiment(text => "@, 1, 0)) by {
        reveal_strlit("pgai.analyze_sentiment(text => ");
        let s = "pgai.analyze_sentiment(text => "@;
        lemma_start(s);
        lemma_run(s, 0, 22, (false, 0, 0, 0));
        lemma_open(s, 22, (false, 0, 0, 0));
        lemma_run(s, 23, 31, (false, 1, 0, 0));
        lemma_end(s, 1, 0);
    }
    assert(reads("pgai.translate(text => "@, 1, 0)) by {
        reveal_strlit("pgai.translate(text => ");
        let s = "pgai.translate(text => "@;
        lemma_start(s);
        lemma_run(s, 0, 14, (false, 0, 0, 0));
        lemma_open(s, 14, (false, 0, 0, 0));
        lemma_run(s, 15, 23, (false, 1, 0, 0));
        lemma_end(s, 1, 0);
    }
    assert(reads(", target_language => "@, 0, 0)) by {
        reveal_strlit(", target_language => ");
        let s = ", target_language => "@;
        lemma_start(s);
        lemma_run(s, 0, 21, (false, 0, 0, 0));
        lemma_end(s, 0, 0);
    }
    assert(reads("pgai.extract_entities(text => "@, 1, 0)) by {
        reveal_strlit("pgai.extract_entities(text => ");
        let s = "pgai.extract_entities(text => "@;
        lemma_start(s);
        lemma_run(s, 0, 21, (false, 0, 0, 0));
        lemma_open(s, 21, (false, 0, 0, 0));
        lemma_run(s, 22, 30, (false, 1, 0, 0));
        lemma_end(s, 1, 0);
    }
    assert(reads("pgai.generate_embedding(text => "@, 1, 0)) by {
        reveal_strlit("pgai.generate_embedding(text => ");
        let s = "pgai.generate_embedding(text => "@;
        lemma_start(s);
        lemma_run(s, 0, 23, (false, 0, 0, 0));
        lemma_open(s, 23, (false, 0, 0, 0));
        lemma_run(s, 24, 32, (false, 1, 0, 0));
        lemma_end(s, 1, 0);
    }
    assert(reads("pgai."@, 0, 0)) by {
        reveal_strlit("pgai.");
        let s = "pgai."@;
        lemma_start(s);
        lemma_run(s, 0, 5, (false, 0, 0, 0));
        lemma_end(s, 0, 0);
    }
    assert(reads("(text => "@, 1, 0)) by {
        reveal_strlit("(text => ");
        let s = "(text => "@;
        lemma_start(s);
        lemma_open(s, 0, (false, 0, 0, 0));
        lemma_run(s, 1, 9, (false, 1, 0, 0));
        lemma_end(s, 1, 0);
    }
}

/// What PostgreSQL runs in place of a call closes its parentheses as the arguments
/// do.
pub proof fn lemma_postgresql(func: Seq<char>, args: Seq<char>)
    requires
        pattern::is_function(func),
        parentheses::is_calm(args) || reading(args, false) == parentheses::unmoved(false),
    ensures
        parentheses::is_as(postgresql::postgresql_sql(func, args), args),
{
    lemma_postgresql_texts();
    lemma_defaults();
    lemma_name(func);
    let col = args::argument(args, 0, "''"@);
    lemma_argument(args, 0, "''"@);
    let prompt = args::argument(args, 1, "''"@);
    lemma_argument(args, 1, "''"@);
    let lang = args::argument(args, 1, "'en'"@);
    lemma_argument(args, 1, "'en'"@);
    if func == "generate_text"@ {
        let t = lemma_first_text("pgai.generate_text(prompt => "@, args, 1);
        let t = lemma_add_part(t, prompt, args, 1);
        let t = lemma_add_text(t, ", text => "@, args, 1, 0, 0);
        let t = lemma_add_part(t, col, args, 1);
        let t = lemma_add_text(t, ")"@, args, 1, -1, -1);
    } else if func == "summarize"@ {
        let t = lemma_first_text("pgai.summarize(text => "@, args, 1);
        let t = lemma_add_part(t, col, args, 1);
        let t = lemma_add_text(t, ")"@, args, 1, -1, -1);
    } else if func == "analyze_sentiment"@ {
        let t = lemma_first_text("pgai.analyze_sentiment(text => "@, args, 1);
        let t = lemma_add_part(t, col, args, 1);
        let t = lemma_add_text(t, ")"@, args, 1, -1, -1);
    } else if func == "translate"@ {
        let t = lemma_first_text("pgai.translate(text => "@, args, 1);
        let t = lemma_add_part(t, col, args, 1);
        let t = lemma_add_text(t, ", target_language => "@, args, 1, 0, 0);
        let t = lemma_add_part(t, lang, args, 1);
        let t = lemma_add_text(t, ")"@, args, 1, -1, -1);
    } else if func == "extract_entities"@ {
        let t = lemma_first_text("pgai.extract_entities(text => "@, args, 1);
        let t = lemma_add_part(t, col, args, 1);
        let t = lemma_add_text(t, ")"@, args, 1, -1, -1);
    } else if func == "generate_embedding"@ {
        let t = lemma_first_text("pgai.generate_embedding(text => "@, args, 1);
        let t = lemma_add_part(t, col, args, 1);
        let t = lemma_add_text(t, ")"@, args, 1, -1, -1);
    } else {
        let t = lemma_first_text("pgai."@, args, 0);
        let t = lemma_add_part(t, func, args, 0);
        let t = lemma_add_text(t, "(text => "@, args, 0, 1, 0);
        let t = lemma_add_part(t, args, args, 1);
        let t = lemma_add_text(t, ")"@, args, 1, -1, -1);
    }
}

/// What reading the texts finds that Snowflake runs.
proof fn lemma_snowflake_texts()
    ensures
        reads("SNOWFLAKE.CORTEX.SUMMARIZE("@, 1, 0),
        reads(")"@, -1, -1),
        reads("SNOWFLAKE.CORTEX.SENTIMENT("@, 1, 0),
        reads("SNOWFLAKE.CORTEX.TRANSLATE("@, 1, 0),
        reads(", "@, 0, 0),
        reads(", 'en')"@, -1, -1),
        reads("SNOWFLAKE.CORTEX.EXTRACT_ANSWER("@, 1, 0),
        reads(", 'Extract all entities')"@, -1, -1),
        reads("SNOWFLAKE.CORTEX.EMBED_TEXT_768('snowflake-arctic-embed-m-v1.5', "@, 1, 0),
        reads("SNOWFLAKE.CORTEX.COMPLETE('llama3.1-8b', "@, 1, 0),
{
    assert(reads("SNOWFLAKE.CORTEX.SUMMARIZE("@, 1, 0)) by {
        reveal_strlit("SNOWFLAKE.CORTEX.SUMMARIZE(");
        let s = "SNOWFLAKE.CORTEX.SUMMARIZE("@;
        lemma_start(s);
        lemma_run(s, 0, 26, (false, 0, 0, 0));
        lemma_open(s, 26, (false, 0, 0, 0));
        lemma_end(s, 1, 0);
    }
    assert(reads(")"@, -1, -1)) by {
        reveal_strlit(")");
        let s = ")"@;
        lemma_start(s);
        lemma_close(s, 0, (false, 0, 0, 0));
        lemma_end(s, -1, -1);
    }
    assert(reads("SNOWFLAKE.CORTEX.SENTIMENT("@, 1, 0)) by {
        reveal_strlit("SNOWFLAKE.CORTEX.SENTIMENT(");
        let s = "SNOWFLAKE.CORTEX.SENTIMENT("@;
        lemma_start(s);
        lemma_run(s, 0, 26, (false, 0, 0, 0));
        lemma_open(s, 26, (false, 0, 0, 0));
        lemma_end(s, 1, 0);
    }
    assert(reads("SNOWFLAKE.CORTEX.TRANSLATE("@, 1, 0)) by {
        reveal_strlit("SNOWFLAKE.CORTEX.TRANSLATE(");
        let s = "SNOWFLAKE.CORTEX.TRANSLATE("@;
        lemma_start(s);
        lemma_run(s, 0, 26, (false, 0, 0, 0));
        lemma_open(s, 26, (false, 0, 0, 0));
        lemma_end(s, 1, 0);
    }
    assert(reads(", "@, 0, 0)) by {
        reveal_strlit(", ");
        let s = ", "@;
        lemma_start(s);
        lemma_run(s, 0, 2, (false, 0, 0, 0));
        lemma_end(s, 0, 0);
    }
    assert(reads(", 'en')"@, -1, -1)) by {
        reveal_strlit(", 'en')");
        let s = ", 'en')"@;
        lemma_start(s);
        lemma_run(s, 0, 2, (false, 0, 0, 0));
        lemma_quote(s, 2, (false, 0, 0, 0));
        lemma_run(s, 3, 5, (true, 0, 0, 0));
        lemma_quote(s, 5, (true, 0, 0, 0));
        lemma_close(s, 6, (false, 0, 0, 0));
        lemma_end(s, -1, -1);
    }
    assert(reads("SNOWFLAKE.CORTEX.EXTRACT_ANSWER("@, 1, 0)) by {
        reveal_strlit("SNOWFLAKE.CORTEX.EXTRACT_ANSWER(");
        let s = "SNOWFLAKE.CORTEX.EXTRACT_ANSWER("@;
        lemma_start(s);
        lemma_run(s, 0, 31, (false, 0, 0, 0));
        lemma_open(s, 31, (false, 0, 0, 0));
        lemma_end(s, 1, 0);
    }
    assert(reads(", 'Extract all entities')"@, -1, -1)) by {
        reveal_strlit(", 'Extract all entities')");
        let s = ", 'Extract all entities')"@;
        lemma_start(s);
        lemma_run(s, 0, 2, (false, 0, 0, 0));
        lemma_quote(s, 2, (false, 0, 0, 0));
        lemma_run(s, 3, 23, (true, 0, 0, 0));
        lemma_quote(s, 23, (true, 0, 0, 0));
        lemma_close(s, 24, (false, 0, 0, 0));
        lemma_end(s, -1, -1);
    }
    assert(reads("SNOWFLAKE.CORTEX.EMBED_TEXT_768('snowflake-arctic-embed-m-v1.5', "@, 1, 0)) by {
        reveal_strlit("SNOWFLAKE.CORTEX.EMBED_TEXT_768('snowflake-arctic-embed-m-v1.5', ");
        let s = "SNOWFLAKE.CORTEX.EMBED_TEXT_768('snowflake-arctic-embed-m-v1.5', "@;
        lemma_start(s);
        lemma_run(s, 0, 31, (false, 0, 0, 0));
        lemma_open(s, 31, (false, 0, 0, 0));
        lemma_quote(s, 32, (false, 1, 0, 0));
        lemma_run(s, 33, 62, (true, 1, 0, 0));
        lemma_quote(s, 62, (true, 1, 0, 0));
        lemma_run(s, 63, 65, (false, 1, 0, 0));
        lemma_end(s, 1, 0);
    }
    assert(reads("SNOWFLAKE.CORTEX.COMPLETE('llama3.1-8b', "@, 1, 0)) by {
        reveal_strlit("SNOWFLAKE.CORTEX.COMPLETE('llama3.1-8b', ");
        let s = "SNOWFLAKE.CORTEX.COMPLETE('llama3.1-8b', "@;
        lemma_start(s);
        lemma_run(s, 0, 25, (false, 0, 0, 0));
        lemma_open(s, 25, (false, 0, 0, 0));
        lemma_quote(s, 26, (false, 1, 0, 0));
        lemma_run(s, 27, 38, (true, 1, 0, 0));
        lemma_quote(s, 38, (true, 1, 0, 0));
        lemma_run(s, 39, 41, (false, 1, 0, 0));
        lemma_end(s, 1, 0);
    }
}

/// What Snowflake runs in place of a call closes its parentheses as the arguments
/// do.
pub proof fn lemma_snowflake(func: Seq<char>, args: Seq<char>)
    requires
        pattern::is_function(func),
        parentheses::is_calm(args) || reading(args, false) == parentheses::unmoved(false),
    ensures
        parentheses::is_as(snowflake::snowflake_sql(func, args), args),
{
    lemma_snowflake_texts();
    lemma_defaults();
    lemma_name(func);
    let col = args::argument(args, 0, "''"@);
    lemma_argument(args, 0, "''"@);
    let lang = args::argument(args, 1, "'en'"@);
    lemma_argument(args, 1, "'en'"@);
    if func == "summarize"@ {
        let t = lemma_first_text("SNOWFLAKE.CORTEX.SUMMARIZE("@, args, 1);
        let t = lemma_add_part(t, args, args, 1);
        let t = lemma_add_text(t, ")"@, args, 1, -1, -1);
    } else if func == "analyze_sentiment"@ {
        let t = lemma_first_text("SNOWFLAKE.CORTEX.SENTIMENT("@, args, 1);
        let t = lemma_add_part(t, args, args, 1);
        let t = lemma_add_text(t, ")"@, args, 1, -1, -1);
    } else if func == "translate"@ {
        let t = lemma_first_text("SNOWFLAKE.CORTEX.TRANSLATE("@, args, 1);
        let t = lemma_add_part(t, col, args, 1);
        let t = lemma_add_text(t, ", "@, args, 1, 0, 0);
        let t = lemma_add_part(t, lang, args, 1);
        let t = lemma_add_text(t, ", 'en')"@, args, 1, -1, -1);
    } else if func == "extract_entities"@ {
        let t = lemma_first_text("SNOWFLAKE.CORTEX.EXTRACT_ANSWER("@, args, 1);
        let t = lemma_add_part(t, args, args, 1);
        let t = lemma_add_text(t, ", 'Extract all entities')"@, args, 1, -1, -1);
    } else if func == "generate_embedding"@ {
        let t = lemma_first_text("SNOWFLAKE.CORTEX.EMBED_TEXT_768('snowflake-arctic-embed-m-v1.5', "@, args, 1);
        let t = lemma_add_part(t, args, args, 1);
        let t = lemma_add_text(t, ")"@, args, 1, -1, -1);
    } else {
        let t = lemma_first_text("SNOWFLAKE.CORTEX.COMPLETE('llama3.1-8b', "@, args, 1);
        let t = lemma_add_part(t, args, args, 1);
        let t = lemma_add_text(t, ")"@, args, 1, -1, -1);
    }
}

/// What reading the texts finds that Databricks runs.
proof fn lemma_databricks_texts()
    ensures
        reads("ai_query('databricks-meta-llama-3-1-70b-instruct', CONCAT("@, 2, 0),
        reads(", ' ', "@, 0, 0),
        reads("))"@, -2, -2),
        reads("ai_query('databricks-meta-llama-3-1-70b-instruct', CONCAT('Summarize: ', "@, 2, 0),
        reads("ai_query('databricks-meta-llama-3-1-70b-instruct', CONCAT('Analyze sentiment of: ', "@, 2, 0),
        reads("ai_query('databricks-meta-llama-3-1-70b-instruct', CONCAT('Translate to ', "@, 2, 0),
        reads(", ': ', "@, 0, 0),
        reads("ai_query('databricks-meta-llama-3-1-70b-instruct', CONCAT('Extract entities from: ', "@, 2, 0),
        reads("ai_query('databricks-bge-large-en', "@, 1, 0),
        reads(")"@, -1, -1),
        reads("ai_query('databricks-meta-llama-3-1-70b-instruct', "@, 1, 0),
{
    assert(reads("ai_query('databricks-meta-llama-3-1-70b-instruct', CONCAT("@, 2, 0)) by {
        reveal_strlit("ai_query('databricks-meta-llama-3-1-70b-instruct', CONCAT(");
        let s = "ai_query('databricks-meta-llama-3-1-70b-instruct', CONCAT("@;
        lemma_start(s);
        lemma_run(s, 0, 8, (false, 0, 0, 0));
        lemma_open(s, 8, (false, 0, 0, 0));
        lemma_quote(s, 9, (false, 1, 0, 0));
        lemma_run(s, 10, 48, (true, 1, 0, 0));
        lemma_quote(s, 48, (true, 1, 0, 0));
        lemma_run(s, 49, 57, (false, 1, 0, 0));
        lemma_open(s, 57, (false, 1, 0, 0));
        lemma_end(s, 2, 0);
    }
    assert(reads(", ' ', "@, 0, 0)) by {
        reveal_strlit(", ' ', ");
        let s = ", ' ', "@;
        lemma_start(s);
        lemma_run(s, 0, 2, (false, 0, 0, 0));
        lemma_quote(s, 2, (false, 0, 0, 0));
        lemma_run(s, 3, 4, (true, 0, 0, 0));
        lemma_quote(s, 4, (true, 0, 0, 0));
        lemma_run(s, 5, 7, (false, 0, 0, 0));
        lemma_end(s, 0, 0);
    }
    assert(reads("))"@, -2, -2)) by {
        reveal_strlit("))");
        let s = "))"@;
        lemma_start(s);
        lemma_close(s, 0, (false, 0, 0, 0));
        lemma_close(s, 1, (false, -1, -1, 0));
        lemma_end(s, -2, -2);
    }
    assert(reads("ai_query('databricks-meta-llama-3-1-70b-instruct', CONCAT('Summarize: ', "@, 2, 0)) by {
        reveal_strlit("ai_query('databricks-meta-llama-3-1-70b-instruct', CONCAT('Summarize: ', ");
        let s = "ai_query('databricks-meta-llama-3-1-70b-instruct', CONCAT('Summarize: ', "@;
        lemma_start(s);
        lemma_run(s, 0, 8, (false, 0, 0, 0));
        lemma_open(s, 8, (false, 0, 0, 0));
        lemma_quote(s, 9, (false, 1, 0, 0));
        lemma_run(s, 10, 48, (true, 1, 0, 0));
        lemma_quote(s, 48, (true, 1, 0, 0));
        lemma_run(s, 49, 57, (false, 1, 0, 0));
        lemma_open(s, 57, (false, 1, 0, 0));
        lemma_quote(s, 58, (false, 2, 0, 0));
        lemma_run(s, 59, 70, (true, 2, 0, 0));
        lemma_quote(s, 70, (true, 2, 0, 0));
        lemma_run(s, 71, 73, (false, 2, 0, 0));
        lemma_end(s, 2, 0);
    }
    assert(reads("ai_query('databricks-meta-llama-3-1-70b-instruct', CONCAT('Analyze sentiment of: ', "@, 2, 0)) by {
        reveal_strlit("ai_query('databricks-meta-llama-3-1-70b-instruct', CONCAT('Analyze sentiment of: ', ");
        let s = "ai_query('databricks-meta-llama-3-1-70b-instruct', CONCAT('Analyze sentiment of: ', "@;
        lemma_start(s);
        lemma_run(s, 0, 8, (false, 0, 0, 0));
        lemma_open(s, 8, (false, 0, 0, 0));
        lemma_quote(s, 9, (false, 1, 0, 0));
        lemma_run(s, 10, 48, (true, 1, 0, 0));
        lemma_quote(s, 48, (true, 1, 0, 0));
        lemma_run(s, 49, 57, (false, 1, 0, 0));
        lemma_open(s, 57, (false, 1, 0, 0));
        lemma_quote(s, 58, (false, 2, 0, 0));
        lemma_run(s, 59, 81, (true, 2, 0, 0));
        lemma_quote(s, 81, (true, 2, 0, 0));
        lemma_run(s, 82, 84, (false, 2, 0, 0));
        lemma_end(s, 2, 0);
    }
    assert(reads("ai_query('databricks-meta-llama-3-1-70b-instruct', CONCAT('Translate to ', "@, 2, 0)) by {
        reveal_strlit("ai_query('databricks-meta-llama-3-1-70b-instruct', CONCAT('Translate to ', ");
        let s = "ai_query('databricks-meta-llama-3-1-70b-instruct', CONCAT('Translate to ', "@;
        lemma_start(s);
        lemma_run(s, 0, 8, (false, 0, 0, 0));
        lemma_open(s, 8, (false, 0, 0, 0));
        lemma_quote(s, 9, (false, 1, 0, 0));
        lemma_run(s, 10, 48, (true, 1, 0, 0));
        lemma_quote(s, 48, (true, 1, 0, 0));
        lemma_run(s, 49, 57, (false, 1, 0, 0));
        lemma_open(s, 57, (false, 1, 0, 0));
        lemma_quote(s, 58, (false, 2, 0, 0));
        lemma_run(s, 59, 72, (true, 2, 0, 0));
        lemma_quote(s, 72, (true, 2, 0, 0));
        lemma_run(s, 73, 75, (false, 2, 0, 0));
        lemma_end(s, 2, 0);
    }
    assert(reads(", ': ', "@, 0, 0)) by {
        reveal_strlit(", ': ', ");
        let s = ", ': ', "@;
        lemma_start(s);
        lemma_run(s, 0, 2, (false, 0, 0, 0));
        lemma_quote(s, 2, (false, 0, 0, 0));
        lemma_run(s, 3, 5, (true, 0, 0, 0));
        lemma_quote(s, 5, (true, 0, 0, 0));
        lemma_run(s, 6, 8, (false, 0, 0, 0));
        lemma_end(s, 0, 0);
    }
    assert(reads("ai_query('databricks-meta-llama-3-1-70b-instruct', CONCAT('Extract entities from: ', "@, 2, 0)) by {
        reveal_strlit("ai_query('databricks-meta-llama-3-1-70b-instruct', CONCAT('Extract entities from: ', ");
        let s = "ai_query('databricks-meta-llama-3-1-70b-instruct', CONCAT('Extract entities from: ', "@;
        lemma_start(s);
        lemma_run(s, 0, 8, (false, 0, 0, 0));
        lemma_open(s, 8, (false, 0, 0, 0));
        lemma_quote(s, 9, (false, 1, 0, 0));
        lemma_run(s, 10, 48, (true, 1, 0, 0));
        lemma_quote(s, 48, (true, 1, 0, 0));
        lemma_run(s, 49, 57, (false, 1, 0, 0));
        lemma_open(s, 57, (false, 1, 0, 0));
        lemma_quote(s, 58, (false, 2, 0, 0));
        lemma_run(s, 59, 82, (true, 2, 0, 0));
        lemma_quote(s, 82, (true, 2, 0, 0));
        lemma_run(s, 83, 85, (false, 2, 0, 0));
        lemma_end(s, 2, 0);
    }
    assert(reads("ai_query('databricks-bge-large-en', "@, 1, 0)) by {
        reveal_strlit("ai_query('databricks-bge-large-en', ");
        let s = "ai_query('databricks-bge-large-en', "@;
        lemma_start(s);
        lemma_run(s, 0, 8, (false, 0, 0, 0));
        lemma_open(s, 8, (false, 0, 0, 0));
        lemma_quote(s, 9, (false, 1, 0, 0));
        lemma_run(s, 10, 33, (true, 1, 0, 0));
        lemma_quote(s, 33, (true, 1, 0, 0));
        lemma_run(s, 34, 36, (false, 1, 0, 0));
        lemma_end(s, 1, 0);
    }
    assert(reads(")"@, -1, -1)) by {
        reveal_strlit(")");
        let s = ")"@;
        lemma_start(s);
        lemma_close(s, 0, (false, 0, 0, 0));
        lemma_end(s, -1, -1);
    }
    assert(reads("ai_query('databricks-meta-llama-3-1-70b-instruct', "@, 1, 0)) by {
        reveal_strlit("ai_query('databricks-meta-llama-3-1-70b-instruct', ");
        let s = "ai_query('databricks-meta-llama-3-1-70b-instruct', "@;
        lemma_start(s);
        lemma_run(s, 0, 8, (false, 0, 0, 0));
        lemma_open(s, 8, (false, 0, 0, 0));
        lemma_quote(s, 9, (false, 1, 0, 0));
        lemma_run(s, 10, 48, (true, 1, 0, 0));
        lemma_quote(s, 48, (true, 1, 0, 0));
        lemma_run(s, 49, 51, (false, 1, 0, 0));
        lemma_end(s, 1, 0);
    }
}

/// What Databricks runs in place of a call closes its parentheses as the arguments
/// do.
pub proof fn lemma_databricks(func: Seq<char>, args: Seq<char>)
    requires
        pattern::is_function(func),
        parentheses::is_calm(args) || reading(args, false) == parentheses::unmoved(false),
    ensures
        parentheses::is_as(databricks::databricks_sql(func, args), args),
{
    lemma_databricks_texts();
    lemma_defaults();
    lemma_name(func);
    let col = args::argument(args, 0, "''"@);
    lemma_argument(args, 0, "''"@);
    let prompt = args::argument(args, 1, "''"@);
    lemma_argument(args, 1, "''"@);
    let lang = args::argument(args, 1, "'en'"@);
    lemma_argument(args, 1, "'en'"@);
    if func == "generate_text"@ {
        let t = lemma_first_text("ai_query('databricks-meta-llama-3-1-70b-instruct', CONCAT("@, args, 2);
        let t = lemma_add_part(t, prompt, args, 2);
        let t = lemma_add_text(t, ", ' ', "@, args, 2, 0, 0);
        let t = lemma_add_part(t, col, args, 2);
        let t = lemma_add_text(t, "))"@, args, 2, -2, -2);
    } else if func == "summarize"@ {
        let t = lemma_first_text("ai_query('databricks-meta-llama-3-1-70b-instruct', CONCAT('Summarize: ', "@, args, 2);
        let t = lemma_add_part(t, col, args, 2);
        let t = lemma_add_text(t, "))"@, args, 2, -2, -2);
    } else if func == "analyze_sentiment"@ {
        let t = lemma_first_text("ai_query('databricks-meta-llama-3-1-70b-instruct', CONCAT('Analyze sentiment of: ', "@, args, 2);
        let t = lemma_add_part(t, col, args, 2);
        let t = lemma_add_text(t, "))"@, args, 2, -2, -2);
    } else if func == "translate"@ {
        let t = lemma_first_text("ai_query('databricks-meta-llama-3-1-70b-instruct', CONCAT('Translate to ', "@, args, 2);
        let t = lemma_add_part(t, lang, args, 2);
        let t = lemma_add_text(t, ", ': ', "@, args, 2, 0, 0);
        let t = lemma_add_part(t, col, args, 2);
        let t = lemma_add_text(t, "))"@, args, 2, -2, -2);
    } else if func == "extract_entities"@ {
        let t = lemma_first_text("ai_query('databricks-meta-llama-3-1-70b-instruct', CONCAT('Extract entities from: ', "@, args, 2);
        let t = lemma_add_part(t, col, args, 2);
        let t = lemma_add_text(t, "))"@, args, 2, -2, -2);
    } else if func == "generate_embedding"@ {
        let t = lemma_first_text("ai_query('databricks-bge-large-en', "@, args, 1);
        let t = lemma_add_part(t, col, args, 1);
        let t = lemma_add_text(t, ")"@, args, 1, -1, -1);
    } else {
        let t = lemma_first_text("ai_query('databricks-meta-llama-3-1-70b-instruct', "@, args, 1);
        let t = lemma_add_part(t, args, args, 1);
        let t = lemma_add_text(t, ")"@, args, 1, -1, -1);
    }
}

/// Whether a text may stand in a single-quoted string: it holds no single quote
/// and closes its own parentheses.
spec fn is_wording(s: Seq<char>) -> bool {
    parentheses::holds_no_quote(s) && reading(s, false) == parentheses::unmoved(false)
}

proof fn lemma_plain_wording(s: Seq<char>)
    requires
        parentheses::is_plain(s),
    ensures
        is_wording(s),
{
    parentheses::lemma_plain(s, false);
    assert forall|i: int| 0 <= i < s.len() implies #[trigger] s[i] != '\'' by {
        assert(parentheses::is_plain_char(s[i]));
    }
}

/// What BigQuery asks about the one argument of a call may stand in a string.
#[verifier::spinoff_prover]
proof fn lemma_bigquery_prompt(func: Seq<char>)
    ensures
        bigquery::bigquery_prompt(func) matches Some(prompt) ==> is_wording(prompt),
{
    assert(is_wording("Summarize: "@)) by {
        reveal_strlit("Summarize: ");
        lemma_plain_wording("Summarize: "@);
    }
    assert(is_wording("Analyze sentiment: "@)) by {
        reveal_strlit("Analyze sentiment: ");
        lemma_plain_wording("Analyze sentiment: "@);
    }
    assert(is_wording("Extract entities from: "@)) by {
        reveal_strlit("Extract entities from: ");
        lemma_plain_wording("Extract entities from: "@);
    }
    assert(is_wording("Analyze the sentiment of the following text. Respond with exactly one word: positive, negative, or neutral.\\n\\n"@)) by {
        reveal_strlit("Analyze the sentiment of the following text. Respond with exactly one word: positive, negative, or neutral.\\n\\n");
        lemma_plain_wording("Analyze the sentiment of the following text. Respond with exactly one word: positive, negative, or neutral.\\n\\n"@);
    }
    assert(is_wording("Extract facts from this text. A fact is a specific statement that can be sourced from the text. Return as JSON array of objects with \"statement\", \"source_text\", and \"type\" (explicit or inferred) fields.\\n\\nText: "@)) by {
        reveal_strlit("Extract facts from this text. A fact is a specific statement that can be sourced from the text. Return as JSON array of objects with \"statement\", \"source_text\", and \"type\" (explicit or inferred) fields.\\n\\nText: ");
        let s = "Extract facts from this text. A fact is a specific statement that can be sourced from the text. Return as JSON array of objects with \"statement\", \"source_text\", and \"type\" (explicit or inferred) fields.\\n\\nText: "@;
        lemma_start(s);
        lemma_run(s, 0, 172, (false, 0, 0, 0));
        lemma_open(s, 172, (false, 0, 0, 0));
        lemma_run(s, 173, 193, (false, 1, 0, 0));
        lemma_close(s, 193, (false, 1, 0, 0));
        lemma_run(s, 194, 212, (false, 0, 0, 0));
        lemma_end(s, 0, 0);
    }
    assert(is_wording("What are the main groups these items could be organized into? Return as JSON array of group names.\\n\\nItems: "@)) by {
        reveal_strlit("What are the main groups these items could be organized into? Return as JSON array of group names.\\n\\nItems: ");
        lemma_plain_wording("What are the main groups these items could be organized into? Return as JSON array of group names.\\n\\nItems: "@);
    }
    assert(is_wording("Classify the following text into a category. Return only the category name.\\n\\n"@)) by {
        reveal_strlit("Classify the following text into a category. Return only the category name.\\n\\n");
        lemma_plain_wording("Classify the following text into a category. Return only the category name.\\n\\n"@);
    }
    assert(is_wording("Extract structured data from this text and return as valid JSON:\\n\\n"@)) by {
        reveal_strlit("Extract structured data from this text and return as valid JSON:\\n\\n");
        lemma_plain_wording("Extract structured data from this text and return as valid JSON:\\n\\n"@);
    }
    assert(is_wording("Detect the language of this text. Return only the ISO 639-1 language code.\\n\\n"@)) by {
        reveal_strlit("Detect the language of this text. Return only the ISO 639-1 language code.\\n\\n");
        lemma_plain_wording("Detect the language of this text. Return only the ISO 639-1 language code.\\n\\n"@);
    }
    assert(is_wording("Generate code for the following task. Return only the code, no explanation.\\n\\n"@)) by {
        reveal_strlit("Generate code for the following task. Return only the code, no explanation.\\n\\n");
        lemma_plain_wording("Generate code for the following task. Return only the code, no explanation.\\n\\n"@);
    }
    assert(is_wording("Provide a critical analysis and constructive criticism of the following, focused on weaknesses, improvements, and alternatives:\\n\\n"@)) by {
        reveal_strlit("Provide a critical analysis and constructive criticism of the following, focused on weaknesses, improvements, and alternatives:\\n\\n");
        lemma_plain_wording("Provide a critical analysis and constructive criticism of the following, focused on weaknesses, improvements, and alternatives:\\n\\n"@);
    }
    assert(is_wording("Synthesize this content into a clear, concise summary that captures the essence:\\n\\n"@)) by {
        reveal_strlit("Synthesize this content into a clear, concise summary that captures the essence:\\n\\n");
        lemma_plain_wording("Synthesize this content into a clear, concise summary that captures the essence:\\n\\n"@);
    }
    assert(is_wording("Read the following and identify the high level objective, most recent task, accomplishments, and failures. Return as JSON with keys: high_level_objective, most_recent_task, accomplishments, failures.\\n\\n"@)) by {
        reveal_strlit("Read the following and identify the high level objective, most recent task, accomplishments, and failures. Return as JSON with keys: high_level_objective, most_recent_task, accomplishments, failures.\\n\\n");
        lemma_plain_wording("Read the following and identify the high level objective, most recent task, accomplishments, and failures. Return as JSON with keys: high_level_objective, most_recent_task, accomplishments, failures.\\n\\n"@);
    }
    assert(is_wording("Look at these facts and infer new implied facts. Return as JSON array of objects with \"statement\" and \"inferred_from\" fields.\\n\\n"@)) by {
        reveal_strlit("Look at these facts and infer new implied facts. Return as JSON array of objects with \"statement\" and \"inferred_from\" fields.\\n\\n");
        lemma_plain_wording("Look at these facts and infer new implied facts. Return as JSON array of objects with \"statement\" and \"inferred_from\" fields.\\n\\n"@);
    }
    assert(is_wording("Create more abstract categories from this list of groups. Group names should never be more than two words, should not contain gerunds, and should never contain conjunctions like AND or OR. Generate no more than 5 new concepts and no fewer than 2. Return as JSON: {\\\"groups\\\": [{\\\"name\\\": \\\"abstract category name\\\"}]}.\\n\\nGroups: "@)) by {
        reveal_strlit("Create more abstract categories from this list of groups. Group names should never be more than two words, should not contain gerunds, and should never contain conjunctions like AND or OR. Generate no more than 5 new concepts and no fewer than 2. Return as JSON: {\\\"groups\\\": [{\\\"name\\\": \\\"abstract category name\\\"}]}.\\n\\nGroups: ");
        lemma_plain_wording("Create more abstract categories from this list of groups. Group names should never be more than two words, should not contain gerunds, and should never contain conjunctions like AND or OR. Generate no more than 5 new concepts and no fewer than 2. Return as JSON: {\\\"groups\\\": [{\\\"name\\\": \\\"abstract category name\\\"}]}.\\n\\nGroups: "@);
    }
    assert(is_wording("Generate conceptual groups for these facts. Group names should never be more than two words, should not contain gerunds, and should never contain conjunctions like AND or OR. Return as JSON: {\\\"groups\\\": [{\\\"name\\\": \\\"group name\\\"}]}.\\n\\nFacts: "@)) by {
        reveal_strlit("Generate conceptual groups for these facts. Group names should never be more than two words, should not contain gerunds, and should never contain conjunctions like AND or OR. Return as JSON: {\\\"groups\\\": [{\\\"name\\\": \\\"group name\\\"}]}.\\n\\nFacts: ");
        lemma_plain_wording("Generate conceptual groups for these facts. Group names should never be more than two words, should not contain gerunds, and should never contain conjunctions like AND or OR. Return as JSON: {\\\"groups\\\": [{\\\"name\\\": \\\"group name\\\"}]}.\\n\\nFacts: "@);
    }
    assert(is_wording("Remove redundant groups from this list. Merge similar groups and keep only distinct concepts. Group names should never be more than two words, should not contain gerunds, and should never contain conjunctions like AND or OR. Return as JSON: {\\\"groups\\\": [{\\\"name\\\": \\\"final group name\\\"}]}.\\n\\nGroups: "@)) by {
        reveal_strlit("Remove redundant groups from this list. Merge similar groups and keep only distinct concepts. Group names should never be more than two words, should not contain gerunds, and should never contain conjunctions like AND or OR. Return as JSON: {\\\"groups\\\": [{\\\"name\\\": \\\"final group name\\\"}]}.\\n\\nGroups: ");
        lemma_plain_wording("Remove redundant groups from this list. Merge similar groups and keep only distinct concepts. Group names should never be more than two words, should not contain gerunds, and should never contain conjunctions like AND or OR. Return as JSON: {\\\"groups\\\": [{\\\"name\\\": \\\"final group name\\\"}]}.\\n\\nGroups: "@);
    }
    assert(is_wording("From the following list of facts, select the most informative subset that preserves the core meaning without redundancy. Return as JSON: {\\\"kept_facts\\\": [\\\"fact statement\\\"]}.\\n\\nFacts: "@)) by {
        reveal_strlit("From the following list of facts, select the most informative subset that preserves the core meaning without redundancy. Return as JSON: {\\\"kept_facts\\\": [\\\"fact statement\\\"]}.\\n\\nFacts: ");
        lemma_plain_wording("From the following list of facts, select the most informative subset that preserves the core meaning without redundancy. Return as JSON: {\\\"kept_facts\\\": [\\\"fact statement\\\"]}.\\n\\nFacts: "@);
    }
}

/// A text in single quotes, and the comma behind it.
proof fn lemma_wording(s: Seq<char>)
    requires
        is_wording(s),
    ensures
        reads("'"@ + s + "', "@, 0, 0),
{
    reveal_strlit("'");
    reveal_strlit("', ");
    let a = "'"@;
    let b = "', "@;
    let whole = a + s + b;
    assert(a.drop_last() =~= Seq::empty());
    reveal_with_fuel(pattern::reading, 2);
    assert(reading(a, false) == (Reading { quoted: true, level: 0, low: 0 }));
    assert(reading(a, true) == parentheses::unmoved(false));
    parentheses::lemma_no_quote(s);
    assert(b.take(1) =~= a);
    let n = s.len() as int + 1;
    assert(so_far(whole, n, (true, 0, 0, 0))) by {
        assert(whole.take(n) =~= a + s);
        parentheses::lemma_read_both(a, s, false);
        parentheses::lemma_read_both(a, s, true);
        assert forall|i: int|
            0 <= i <= n && !reading(#[trigger] whole.take(i), false).quoted implies reading(
            whole.take(i),
            true,
        ) == parentheses::unmoved(true) by {
            if i > 0 {
                let part = s.take(i - 1);
                assert(whole.take(i) =~= a + part);
                parentheses::lemma_read_both(a, part, false);
                assert forall|j: int| 0 <= j < part.len() implies #[trigger] part[j] != '\'' by {
                    assert(s[j] != '\'');
                }
                parentheses::lemma_no_quote(part);
            } else {
                assert(whole.take(0) =~= Seq::empty());
            }
        }
    }
    assert(whole[n] == b[0] && whole[n + 1] == b[1] && whole[n + 2] == b[2]);
    lemma_quote(whole, n, (true, 0, 0, 0));
    lemma_run(whole, n + 1, n + 3, (false, 0, 0, 0));
    lemma_end(whole, 0, 0);
}

/// What reading the texts finds that BigQuery puts into questions.
proof fn lemma_bigquery_questions()
    ensures
        reads("'Translate to ', "@, 0, 0),
        reads(", ': ', "@, 0, 0),
        reads("'Classify the following text into one of these categories: ', "@, 0, 0),
        reads(", '. Return only the category name.\\n\\n', "@, 0, 0),
        reads("'Based on the following context, answer the question.\\n\\nContext: ', "@, 0, 0),
        reads(", '\\n\\nQuestion: ', "@, 0, 0),
        reads("'Given this fact, assign it to any relevant groups. Return as JSON: {\\\"groups\\\": [\\\"list of group names\\\"]}.\\n\\nFact: ', "@, 0, 0),
        reads(", '\\n\\nGroups: ', "@, 0, 0),
        reads("'Which of the following concepts relate to the given ', "@, 0, 0),
        reads(", '? Select all that apply from most specific to most abstract. ', INITCAP("@, 1, 0),
        reads("), ': \"', "@, -1, -1),
        reads(", '\"\\n\\nAvailable Concepts: ', "@, 0, 0),
        reads(", '\\n\\nReturn as JSON: {\\\"related_concepts\\\": [\\\"Concept A\\\", \\\"Concept B\\\"]}'"@, 0, 0),
        reads("'A new fact has been learned: \"', "@, 0, 0),
        reads(", '\". Which of the following existing facts are directly related to it (causally, sequentially, or thematically)? Select only the most direct and meaningful connections.\\n\\nExisting Facts: ', "@, 0, 0),
        reads(", '\\n\\nReturn as JSON: {\\\"related_facts\\\": [\\\"statement of a related fact\\\"]}'"@, 0, 0),
        reads("'Here is a new candidate concept: \"', "@, 0, 0),
        reads(", '\". Which of the following existing concepts is it most closely related to? The relationship could be as a sub-category, a similar idea, or a related domain. Respond with the single best-fit concept from the list, or \"none\" if it is genuinely new.\\n\\nExisting Concepts: ', "@, 0, 0),
        reads(", '\\n\\nReturn as JSON: {\\\"best_link_concept\\\": \\\"The single best concept name OR none\\\"}'"@, 0, 0),
        reads(", '\". Determine whether it duplicates or contradicts any of these existing facts. Return as JSON: {\\\"action\\\": \\\"add|merge|replace|skip\\\", \\\"target_fact\\\": \\\"statement of existing fact or null\\\", \\\"final_statement\\\": \\\"merged statement or null\\\"}.\\n\\nExisting Facts: ', "@, 0, 0),
{
    assert(reads("'Translate to ', "@, 0, 0)) by {
        reveal_strlit("'Translate to ', ");
        let s = "'Translate to ', "@;
        lemma_start(s);
        lemma_quote(s, 0, (false, 0, 0, 0));
        lemma_run(s, 1, 14, (true, 0, 0, 0));
        lemma_quote(s, 14, (true, 0, 0, 0));
        lemma_run(s, 15, 17, (false, 0, 0, 0));
        lemma_end(s, 0, 0);
    }
    assert(reads(", ': ', "@, 0, 0)) by {
        reveal_strlit(", ': ', ");
        let s = ", ': ', "@;
        lemma_start(s);
        lemma_run(s, 0, 2, (false, 0, 0, 0));
        lemma_quote(s, 2, (false, 0, 0, 0));
        lemma_run(s, 3, 5, (true, 0, 0, 0));
        lemma_quote(s, 5, (true, 0, 0, 0));
        lemma_run(s, 6, 8, (false, 0, 0, 0));
        lemma_end(s, 0, 0);
    }
    assert(reads("'Classify the following text into one of these categories: ', "@, 0, 0)) by {
        reveal_strlit("'Classify the following text into one of these categories: ', ");
        let s = "'Classify the following text into one of these categories: ', "@;
        lemma_start(s);
        lemma_quote(s, 0, (false, 0, 0, 0));
        lemma_run(s, 1, 59, (true, 0, 0, 0));
        lemma_quote(s, 59, (true, 0, 0, 0));
        lemma_run(s, 60, 62, (false, 0, 0, 0));
        lemma_end(s, 0, 0);
    }
    assert(reads(", '. Return only the category name.\\n\\n', "@, 0, 0)) by {
        reveal_strlit(", '. Return only the category name.\\n\\n', ");
        let s = ", '. Return only the category name.\\n\\n', "@;
        lemma_start(s);
        lemma_run(s, 0, 2, (false, 0, 0, 0));
        lemma_quote(s, 2, (false, 0, 0, 0));
        lemma_run(s, 3, 39, (true, 0, 0, 0));
        lemma_quote(s, 39, (true, 0, 0, 0));
        lemma_run(s, 40, 42, (false, 0, 0, 0));
        lemma_end(s, 0, 0);
    }
    assert(reads("'Based on the following context, answer the question.\\n\\nContext: ', "@, 0, 0)) by {
        reveal_strlit("'Based on the following context, answer the question.\\n\\nContext: ', ");
        let s = "'Based on the following context, answer the question.\\n\\nContext: ', "@;
        lemma_start(s);
        lemma_quote(s, 0, (false, 0, 0, 0));
        lemma_run(s, 1, 66, (true, 0, 0, 0));
        lemma_quote(s, 66, (true, 0, 0, 0));
        lemma_run(s, 67, 69, (false, 0, 0, 0));
        lemma_end(s, 0, 0);
    }
    assert(reads(", '\\n\\nQuestion: ', "@, 0, 0)) by {
        reveal_strlit(", '\\n\\nQuestion: ', ");
        let s = ", '\\n\\nQuestion: ', "@;
        lemma_start(s);
        lemma_run(s, 0, 2, (false, 0, 0, 0));
        lemma_quote(s, 2, (false, 0, 0, 0));
        lemma_run(s, 3, 17, (true, 0, 0, 0));
        lemma_quote(s, 17, (true, 0, 0, 0));
        lemma_run(s, 18, 20, (false, 0, 0, 0));
        lemma_end(s, 0, 0);
    }
    assert(reads("'Given this fact, assign it to any relevant groups. Return as JSON: {\\\"groups\\\": [\\\"list of group names\\\"]}.\\n\\nFact: ', "@, 0, 0)) by {
        reveal_strlit("'Given this fact, assign it to any relevant groups. Return as JSON: {\\\"groups\\\": [\\\"list of group names\\\"]}.\\n\\nFact: ', ");
        let s = "'Given this fact, assign it to any relevant groups. Return as JSON: {\\\"groups\\\": [\\\"list of group names\\\"]}.\\n\\nFact: ', "@;
        lemma_start(s);
        lemma_quote(s, 0, (false, 0, 0, 0));
        lemma_run(s, 1, 118, (true, 0, 0, 0));
        lemma_quote(s, 118, (true, 0, 0, 0));
        lemma_run(s, 119, 121, (false, 0, 0, 0));
        lemma_end(s, 0, 0);
    }
    assert(reads(", '\\n\\nGroups: ', "@, 0, 0)) by {
        reveal_strlit(", '\\n\\nGroups: ', ");
        let s = ", '\\n\\nGroups: ', "@;
        lemma_start(s);
        lemma_run(s, 0, 2, (false, 0, 0, 0));
        lemma_quote(s, 2, (false, 0, 0, 0));
        lemma_run(s, 3, 15, (true, 0, 0, 0));
        lemma_quote(s, 15, (true, 0, 0, 0));
        lemma_run(s, 16, 18, (false, 0, 0, 0));
        lemma_end(s, 0, 0);
    }
    assert(reads("'Which of the following concepts relate to the given ', "@, 0, 0)) by {
        reveal_strlit("'Which of the following concepts relate to the given ', ");
        let s = "'Which of the following concepts relate to the given ', "@;
        lemma_start(s);
        lemma_quote(s, 0, (false, 0, 0, 0));
        lemma_run(s, 1, 53, (true, 0, 0, 0));
        lemma_quote(s, 53, (true, 0, 0, 0));
        lemma_run(s, 54, 56, (false, 0, 0, 0));
        lemma_end(s, 0, 0);
    }
    assert(reads(", '? Select all that apply from most specific to most abstract. ', INITCAP("@, 1, 0)) by {
        reveal_strlit(", '? Select all that apply from most specific to most abstract. ', INITCAP(");
        let s = ", '? Select all that apply from most specific to most abstract. ', INITCAP("@;
        lemma_start(s);
        lemma_run(s, 0, 2, (false, 0, 0, 0));
        lemma_quote(s, 2, (false, 0, 0, 0));
        lemma_run(s, 3, 64, (true, 0, 0, 0));
        lemma_quote(s, 64, (true, 0, 0, 0));
        lemma_run(s, 65, 74, (false, 0, 0, 0));
        lemma_open(s, 74, (false, 0, 0, 0));
        lemma_end(s, 1, 0);
    }
    assert(reads("), ': \"', "@, -1, -1)) by {
        reveal_strlit("), ': \"', ");
        let s = "), ': \"', "@;
        lemma_start(s);
        lemma_close(s, 0, (false, 0, 0, 0));
        lemma_run(s, 1, 3, (false, -1, -1, 0));
        lemma_quote(s, 3, (false, -1, -1, 0));
        lemma_run(s, 4, 7, (true, -1, -1, 0));
        lemma_quote(s, 7, (true, -1, -1, 0));
        lemma_run(s, 8, 10, (false, -1, -1, 0));
        lemma_end(s, -1, -1);
    }
    assert(reads(", '\"\\n\\nAvailable Concepts: ', "@, 0, 0)) by {
        reveal_strlit(", '\"\\n\\nAvailable Concepts: ', ");
        let s = ", '\"\\n\\nAvailable Concepts: ', "@;
        lemma_start(s);
        lemma_run(s, 0, 2, (false, 0, 0, 0));
        lemma_quote(s, 2, (false, 0, 0, 0));
        lemma_run(s, 3, 28, (true, 0, 0, 0));
        lemma_quote(s, 28, (true, 0, 0, 0));
        lemma_run(s, 29, 31, (false, 0, 0, 0));
        lemma_end(s, 0, 0);
    }
    assert(reads(", '\\n\\nReturn as JSON: {\\\"related_concepts\\\": [\\\"Concept A\\\", \\\"Concept B\\\"]}'"@, 0, 0)) by {
        reveal_strlit(", '\\n\\nReturn as JSON: {\\\"related_concepts\\\": [\\\"Concept A\\\", \\\"Concept B\\\"]}'");
        let s = ", '\\n\\nReturn as JSON: {\\\"related_concepts\\\": [\\\"Concept A\\\", \\\"Concept B\\\"]}'"@;
        lemma_start(s);
        lemma_run(s, 0, 2, (false, 0, 0, 0));
        lemma_quote(s, 2, (false, 0, 0, 0));
        lemma_run(s, 3, 77, (true, 0, 0, 0));
        lemma_quote(s, 77, (true, 0, 0, 0));
        lemma_end(s, 0, 0);
    }
    assert(reads("'A new fact has been learned: \"', "@, 0, 0)) by {
        reveal_strlit("'A new fact has been learned: \"', ");
        let s = "'A new fact has been learned: \"', "@;
        lemma_start(s);
        lemma_quote(s, 0, (false, 0, 0, 0));
        lemma_run(s, 1, 31, (true, 0, 0, 0));
        lemma_quote(s, 31, (true, 0, 0, 0));
        lemma_run(s, 32, 34, (false, 0, 0, 0));
        lemma_end(s, 0, 0);
    }
    assert(reads(", '\". Which of the following existing facts are directly related to it (causally, sequentially, or thematically)? Select only the most direct and meaningful connections.\\n\\nExisting Facts: ', "@, 0, 0)) by {
        reveal_strlit(", '\". Which of the following existing facts are directly related to it (causally, sequentially, or thematically)? Select only the most direct and meaningful connections.\\n\\nExisting Facts: ', ");
        let s = ", '\". Which of the following existing facts are directly related to it (causally, sequentially, or thematically)? Select only the most direct and meaningful connections.\\n\\nExisting Facts: ', "@;
        lemma_start(s);
        lemma_run(s, 0, 2, (false, 0, 0, 0));
        lemma_quote(s, 2, (false, 0, 0, 0));
        lemma_run(s, 3, 71, (true, 0, 0, 0));
        lemma_open(s, 71, (true, 0, 0, 0));
        lemma_run(s, 72, 111, (true, 0, 0, 1));
        lemma_close(s, 111, (true, 0, 0, 1));
        lemma_run(s, 112, 189, (true, 0, 0, 0));
        lemma_quote(s, 189, (true, 0, 0, 0));
        lemma_run(s, 190, 192, (false, 0, 0, 0));
        lemma_end(s, 0, 0);
    }
    assert(reads(", '\\n\\nReturn as JSON: {\\\"related_facts\\\": [\\\"statement of a related fact\\\"]}'"@, 0, 0)) by {
        reveal_strlit(", '\\n\\nReturn as JSON: {\\\"related_facts\\\": [\\\"statement of a related fact\\\"]}'");
        let s = ", '\\n\\nReturn as JSON: {\\\"related_facts\\\": [\\\"statement of a related fact\\\"]}'"@;
        lemma_start(s);
        lemma_run(s, 0, 2, (false, 0, 0, 0));
        lemma_quote(s, 2, (false, 0, 0, 0));
        lemma_run(s, 3, 77, (true, 0, 0, 0));
        lemma_quote(s, 77, (true, 0, 0, 0));
        lemma_end(s, 0, 0);
    }
    assert(reads("'Here is a new candidate concept: \"', "@, 0, 0)) by {
        reveal_strlit("'Here is a new candidate concept: \"', ");
        let s = "'Here is a new candidate concept: \"', "@;
        lemma_start(s);
        lemma_quote(s, 0, (false, 0, 0, 0));
        lemma_run(s, 1, 35, (true, 0, 0, 0));
        lemma_quote(s, 35, (true, 0, 0, 0));
        lemma_run(s, 36, 38, (false, 0, 0, 0));
        lemma_end(s, 0, 0);
    }
    assert(reads(", '\". Which of the following existing concepts is it most closely related to? The relationship could be as a sub-category, a similar idea, or a related domain. Respond with the single best-fit concept from the list, or \"none\" if it is genuinely new.\\n\\nExisting Concepts: ', "@, 0, 0)) by {
        reveal_strlit(", '\". Which of the following existing concepts is it most closely related to? The relationship could be as a sub-category, a similar idea, or a related domain. Respond with the single best-fit concept from the list, or \"none\" if it is genuinely new.\\n\\nExisting Concepts: ', ");
        let s = ", '\". Which of the following existing concepts is it most closely related to? The relationship could be as a sub-category, a similar idea, or a related domain. Respond with the single best-fit concept from the list, or \"none\" if it is genuinely new.\\n\\nExisting Concepts: ', "@;
        lemma_start(s);
        lemma_run(s, 0, 2, (false, 0, 0, 0));
        lemma_quote(s, 2, (false, 0, 0, 0));
        lemma_run(s, 3, 272, (true, 0, 0, 0));
        lemma_quote(s, 272, (true, 0, 0, 0));
        lemma_run(s, 273, 275, (false, 0, 0, 0));
        lemma_end(s, 0, 0);
    }
    assert(reads(", '\\n\\nReturn as JSON: {\\\"best_link_concept\\\": \\\"The single best concept name OR none\\\"}'"@, 0, 0)) by {
        reveal_strlit(", '\\n\\nReturn as JSON: {\\\"best_link_concept\\\": \\\"The single best concept name OR none\\\"}'");
        let s = ", '\\n\\nReturn as JSON: {\\\"best_link_concept\\\": \\\"The single best concept name OR none\\\"}'"@;
        lemma_start(s);
        lemma_run(s, 0, 2, (false, 0, 0, 0));
        lemma_quote(s, 2, (false, 0, 0, 0));
        lemma_run(s, 3, 88, (true, 0, 0, 0));
        lemma_quote(s, 88, (true, 0, 0, 0));
        lemma_end(s, 0, 0);
    }
    assert(reads(", '\". Determine whether it duplicates or contradicts any of these existing facts. Return as JSON: {\\\"action\\\": \\\"add|merge|replace|skip\\\", \\\"target_fact\\\": \\\"statement of existing fact or null\\\", \\\"final_statement\\\": \\\"merged statement or null\\\"}.\\n\\nExisting Facts: ', "@, 0, 0)) by {
        reveal_strlit(", '\". Determine whether it duplicates or contradicts any of these existing facts. Return as JSON: {\\\"action\\\": \\\"add|merge|replace|skip\\\", \\\"target_fact\\\": \\\"statement of existing fact or null\\\", \\\"final_statement\\\": \\\"merged statement or null\\\"}.\\n\\nExisting Facts: ', ");
        let s = ", '\". Determine whether it duplicates or contradicts any of these existing facts. Return as JSON: {\\\"action\\\": \\\"add|merge|replace|skip\\\", \\\"target_fact\\\": \\\"statement of existing fact or null\\\", \\\"final_statement\\\": \\\"merged statement or null\\\"}.\\n\\nExisting Facts: ', "@;
        lemma_start(s);
        lemma_run(s, 0, 2, (false, 0, 0, 0));
        lemma_quote(s, 2, (false, 0, 0, 0));
        lemma_run(s, 3, 267, (true, 0, 0, 0));
        lemma_quote(s, 267, (true, 0, 0, 0));
        lemma_run(s, 268, 270, (false, 0, 0, 0));
        lemma_end(s, 0, 0);
    }
}

/// What reading the texts finds that BigQuery puts around questions.
proof fn lemma_bigquery_texts()
    ensures
        reads("(AI.GENERATE(CONCAT("@, 3, 0),
        reads("))).result"@, -3, -3),
        reads("(AI.GENERATE_EMBEDDING("@, 2, 0),
        reads(")).result"@, -2, -2),
        reads("(AI.GENERATE("@, 2, 0),
{
    assert(reads("(AI.GENERATE(CONCAT("@, 3, 0)) by {
        reveal_strlit("(AI.GENERATE(CONCAT(");
        let s = "(AI.GENERATE(CONCAT("@;
        lemma_start(s);
        lemma_open(s, 0, (false, 0, 0, 0));
        lemma_run(s, 1, 12, (false, 1, 0, 0));
        lemma_open(s, 12, (false, 1, 0, 0));
        lemma_run(s, 13, 19, (false, 2, 0, 0));
        lemma_open(s, 19, (false, 2, 0, 0));
        lemma_end(s, 3, 0);
    }
    assert(reads("))).result"@, -3, -3)) by {
        reveal_strlit("))).result");
        let s = "))).result"@;
        lemma_start(s);
        lemma_close(s, 0, (false, 0, 0, 0));
        lemma_close(s, 1, (false, -1, -1, 0));
        lemma_close(s, 2, (false, -2, -2, 0));
        lemma_run(s, 3, 10, (false, -3, -3, 0));
        lemma_end(s, -3, -3);
    }
    assert(reads("(AI.GENERATE_EMBEDDING("@, 2, 0)) by {
        reveal_strlit("(AI.GENERATE_EMBEDDING(");
        let s = "(AI.GENERATE_EMBEDDING("@;
        lemma_start(s);
        lemma_open(s, 0, (false, 0, 0, 0));
        lemma_run(s, 1, 22, (false, 1, 0, 0));
        lemma_open(s, 22, (false, 1, 0, 0));
        lemma_end(s, 2, 0);
    }
    assert(reads(")).result"@, -2, -2)) by {
        reveal_strlit(")).result");
        let s = ")).result"@;
        lemma_start(s);
        lemma_close(s, 0, (false, 0, 0, 0));
        lemma_close(s, 1, (false, -1, -1, 0));
        lemma_run(s, 2, 9, (false, -2, -2, 0));
        lemma_end(s, -2, -2);
    }
    assert(reads("(AI.GENERATE("@, 2, 0)) by {
        reveal_strlit("(AI.GENERATE(");
        let s = "(AI.GENERATE("@;
        lemma_start(s);
        lemma_open(s, 0, (false, 0, 0, 0));
        lemma_run(s, 1, 12, (false, 1, 0, 0));
        lemma_open(s, 12, (false, 1, 0, 0));
        lemma_end(s, 2, 0);
    }
}

/// What BigQuery asks is made from the arguments of the call.
proof fn lemma_bigquery_question(func: Seq<char>, args: Seq<char>)
    requires
        parentheses::is_calm(args) || reading(args, false) == parentheses::unmoved(false),
    ensures
        bigquery::bigquery_question(func, args) matches Some(question) ==> is_part(question, args),
{
    lemma_bigquery_questions();
    lemma_defaults();
    lemma_bigquery_prompt(func);
    let first = args::argument(args, 0, "''"@);
    lemma_argument(args, 0, "''"@);
    let second = args::argument(args, 1, "''"@);
    lemma_argument(args, 1, "''"@);
    let third = args::argument(args, 2, "''"@);
    lemma_argument(args, 2, "''"@);
    let lang = args::argument(args, 1, "'en'"@);
    lemma_argument(args, 1, "'en'"@);
    let kind = args::argument(args, 1, "'fact'"@);
    lemma_argument(args, 1, "'fact'"@);
    if let Some(prompt) = bigquery::bigquery_prompt(func) {
        lemma_wording(prompt);
        let t = lemma_first_text("'"@ + prompt + "', "@, args, 0);
        let t = lemma_add_part(t, args, args, 0);
    } else if func == "translate"@ {
        let t = lemma_first_text("'Translate to ', "@, args, 0);
        let t = lemma_add_part(t, lang, args, 0);
        let t = lemma_add_text(t, ", ': ', "@, args, 0, 0, 0);
        let t = lemma_add_part(t, first, args, 0);
    } else if func == "classify_into"@ {
        let t = lemma_first_text("'Classify the following text into one of these categories: ', "@, args, 0);
        let t = lemma_add_part(t, second, args, 0);
        let t = lemma_add_text(t, ", '. Return only the category name.\\n\\n', "@, args, 0, 0, 0);
        let t = lemma_add_part(t, first, args, 0);
    } else if func == "answer_question"@ {
        let t = lemma_first_text("'Based on the following context, answer the question.\\n\\nContext: ', "@, args, 0);
        let t = lemma_add_part(t, first, args, 0);
        let t = lemma_add_text(t, ", '\\n\\nQuestion: ', "@, args, 0, 0, 0);
        let t = lemma_add_part(t, second, args, 0);
    } else if func == "assign_groups_to_fact"@ {
        let t = lemma_first_text("'Given this fact, assign it to any relevant groups. Return as JSON: {\\\"groups\\\": [\\\"list of group names\\\"]}.\\n\\nFact: ', "@, args, 0);
        let t = lemma_add_part(t, first, args, 0);
        let t = lemma_add_text(t, ", '\\n\\nGroups: ', "@, args, 0, 0, 0);
        let t = lemma_add_part(t, second, args, 0);
    } else if func == "get_related_concepts_multi"@ {
        let t = lemma_first_text("'Which of the following concepts relate to the given ', "@, args, 0);
        let t = lemma_add_part(t, kind, args, 0);
        let t = lemma_add_text(t, ", '? Select all that apply from most specific to most abstract. ', INITCAP("@, args, 0, 1, 0);
        let t = lemma_add_part(t, kind, args, 1);
        let t = lemma_add_text(t, "), ': \"', "@, args, 1, -1, -1);
        let t = lemma_add_part(t, first, args, 0);
        let t = lemma_add_text(t, ", '\"\\n\\nAvailable Concepts: ', "@, args, 0, 0, 0);
        let t = lemma_add_part(t, third, args, 0);
        let t = lemma_add_text(t, ", '\\n\\nReturn as JSON: {\\\"related_concepts\\\": [\\\"Concept A\\\", \\\"Concept B\\\"]}'"@, args, 0, 0, 0);
    } else if func == "get_related_facts_llm"@ {
        let t = lemma_first_text("'A new fact has been learned: \"', "@, args, 0);
        let t = lemma_add_part(t, first, args, 0);
        let t = lemma_add_text(t, ", '\". Which of the following existing facts are directly related to it (causally, sequentially, or thematically)? Select only the most direct and meaningful connections.\\n\\nExisting Facts: ', "@, args, 0, 0, 0);
        let t = lemma_add_part(t, second, args, 0);
        let t = lemma_add_text(t, ", '\\n\\nReturn as JSON: {\\\"related_facts\\\": [\\\"statement of a related fact\\\"]}'"@, args, 0, 0, 0);
    } else if func == "find_best_link_concept"@ {
        let t = lemma_first_text("'Here is a new candidate concept: \"', "@, args, 0);
        let t = lemma_add_part(t, first, args, 0);
        let t = lemma_add_text(t, ", '\". Which of the following existing concepts is it most closely related to? The relationship could be as a sub-category, a similar idea, or a related domain. Respond with the single best-fit concept from the list, or \"none\" if it is genuinely new.\\n\\nExisting Concepts: ', "@, args, 0, 0, 0);
        let t = lemma_add_part(t, second, args, 0);
        let t = lemma_add_text(t, ", '\\n\\nReturn as JSON: {\\\"best_link_concept\\\": \\\"The single best concept name OR none\\\"}'"@, args, 0, 0, 0);
    } else if func == "consolidate_facts"@ {
        let t = lemma_first_text("'A new fact has been learned: \"', "@, args, 0);
        let t = lemma_add_part(t, first, args, 0);
        let t = lemma_add_text(t, ", '\". Determine whether it duplicates or contradicts any of these existing facts. Return as JSON: {\\\"action\\\": \\\"add|merge|replace|skip\\\", \\\"target_fact\\\": \\\"statement of existing fact or null\\\", \\\"final_statement\\\": \\\"merged statement or null\\\"}.\\n\\nExisting Facts: ', "@, args, 0, 0, 0);
        let t = lemma_add_part(t, second, args, 0);
    }
}

/// What BigQuery runs in place of a call closes its parentheses as the arguments
/// do.
pub proof fn lemma_bigquery(func: Seq<char>, args: Seq<char>)
    requires
        parentheses::is_calm(args) || reading(args, false) == parentheses::unmoved(false),
    ensures
        parentheses::is_as(bigquery::bigquery_sql(func, args), args),
{
    lemma_bigquery_texts();
    lemma_bigquery_question(func, args);
    if let Some(question) = bigquery::bigquery_question(func, args) {
        let t = lemma_first_text("(AI.GENERATE(CONCAT("@, args, 3);
        let t = lemma_add_part(t, question, args, 3);
        let t = lemma_add_text(t, "))).result"@, args, 3, -3, -3);
    } else if func == "generate_embedding"@ {
        let t = lemma_first_text("(AI.GENERATE_EMBEDDING("@, args, 2);
        let t = lemma_add_part(t, args, args, 2);
        let t = lemma_add_text(t, ")).result"@, args, 2, -2, -2);
    } else {
        let t = lemma_first_text("(AI.GENERATE("@, args, 2);
        let t = lemma_add_part(t, args, args, 2);
        let t = lemma_add_text(t, ")).result"@, args, 2, -2, -2);
    }
}

/// What a target runs in place of a call closes all of its parentheses where the
/// arguments do. Where each single-quoted string in the arguments closes its own
/// parentheses, so does each in what the target runs.
pub proof fn law_translation_closes_all(target: Target, func: Seq<char>, args: Seq<char>)
    requires
        pattern::is_function(func),
        parentheses::is_calm(args) || reading(args, false) == parentheses::unmoved(false),
    ensures
        parentheses::is_as(compiler::translated(target, func, args), args),
{
    match target {
        Target::Sqlite => {
            lemma_name(func);
            lemma_sqlite_texts();
            let t = lemma_first_part(func, args);
            let t = lemma_add_text(t, "("@, args, 0, 1, 0);
            let t = lemma_add_part(t, args, args, 1);
            let t = lemma_add_text(t, ")"@, args, 1, -1, -1);
        },
        Target::Postgresql => {
            lemma_postgresql(func, args);
        },
        Target::Snowflake => {
            lemma_snowflake(func, args);
        },
        Target::Bigquery => {
            lemma_bigquery(func, args);
        },
        Target::Databricks => {
            lemma_databricks(func, args);
        },
    }
}

/// What reading the texts finds that SQLite runs.
proof fn lemma_sqlite_texts()
    ensures
        reads("("@, 1, 0),
        reads(")"@, -1, -1),
{
    assert(reads("("@, 1, 0)) by {
        reveal_strlit("(");
        let s = "("@;
        lemma_start(s);
        lemma_open(s, 0, (false, 0, 0, 0));
        lemma_end(s, 1, 0);
    }
    assert(reads(")"@, -1, -1)) by {
        reveal_strlit(")");
        let s = ")"@;
        lemma_start(s);
        lemma_close(s, 0, (false, 0, 0, 0));
        lemma_end(s, -1, -1);
    }
}

}
