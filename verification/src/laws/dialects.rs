//! Laws of the dialects: what each target runs in place of a call, and where the
//! arguments of the call stand in it.

use vstd::prelude::*;

use crate::compiler;
use crate::compiler::Target;
use crate::dialect::args;
use crate::laws::extract;
use crate::pattern;

verus! {

/// The names of the functions differ: in their lengths or in some character.
pub proof fn lemma_names_differ()
    ensures
        "generate_text"@.len() == 13 && "generate_text"@[0] == 'g' && "generate_text"@[12] == 't',
        "summarize"@.len() == 9 && "summarize"@[0] == 's' && "summarize"@[8] == 'e',
        "analyze_sentiment"@.len() == 17 && "analyze_sentiment"@[0] == 'a' && "analyze_sentiment"@[16] == 't',
        "translate"@.len() == 9 && "translate"@[0] == 't' && "translate"@[8] == 'e',
        "extract_entities"@.len() == 16 && "extract_entities"@[0] == 'e' && "extract_entities"@[15] == 's',
        "generate_embedding"@.len() == 18 && "generate_embedding"@[0] == 'g' && "generate_embedding"@[17] == 'g',
        "sentiment"@.len() == 9 && "sentiment"@[0] == 's' && "sentiment"@[8] == 't',
        "get_facts"@.len() == 9 && "get_facts"@[0] == 'g' && "get_facts"@[8] == 's',
        "identify_groups"@.len() == 15 && "identify_groups"@[0] == 'i' && "identify_groups"@[14] == 's',
        "classify"@.len() == 8 && "classify"@[0] == 'c' && "classify"@[7] == 'y',
        "classify_into"@.len() == 13 && "classify_into"@[0] == 'c' && "classify_into"@[12] == 'o',
        "extract_json"@.len() == 12 && "extract_json"@[0] == 'e' && "extract_json"@[11] == 'n',
        "detect_language"@.len() == 15 && "detect_language"@[0] == 'd' && "detect_language"@[14] == 'e',
        "answer_question"@.len() == 15 && "answer_question"@[0] == 'a' && "answer_question"@[14] == 'n',
        "generate_code"@.len() == 13 && "generate_code"@[0] == 'g' && "generate_code"@[12] == 'e',
        "criticize"@.len() == 9 && "criticize"@[0] == 'c' && "criticize"@[8] == 'e',
        "synthesize"@.len() == 10 && "synthesize"@[0] == 's' && "synthesize"@[9] == 'e',
        "breathe"@.len() == 7 && "breathe"@[0] == 'b' && "breathe"@[6] == 'e',
        "zoom_in"@.len() == 7 && "zoom_in"@[0] == 'z' && "zoom_in"@[6] == 'n',
        "abstract"@.len() == 8 && "abstract"@[0] == 'a' && "abstract"@[7] == 't',
        "generate_groups"@.len() == 15 && "generate_groups"@[0] == 'g' && "generate_groups"@[14] == 's',
        "remove_redundant_groups"@.len() == 23 && "remove_redundant_groups"@[0] == 'r' && "remove_redundant_groups"@[22] == 's',
        "assign_groups_to_fact"@.len() == 21 && "assign_groups_to_fact"@[0] == 'a' && "assign_groups_to_fact"@[20] == 't',
        "get_related_concepts_multi"@.len() == 26 && "get_related_concepts_multi"@[0] == 'g' && "get_related_concepts_multi"@[25] == 'i',
        "get_related_facts_llm"@.len() == 21 && "get_related_facts_llm"@[0] == 'g' && "get_related_facts_llm"@[20] == 'm',
        "find_best_link_concept"@.len() == 22 && "find_best_link_concept"@[0] == 'f' && "find_best_link_concept"@[21] == 't',
        "consolidate_facts"@.len() == 17 && "consolidate_facts"@[0] == 'c' && "consolidate_facts"@[16] == 's',
        "prune_fact_subset"@.len() == 17 && "prune_fact_subset"@[0] == 'p' && "prune_fact_subset"@[16] == 't',
{
    reveal_strlit("generate_text");
    reveal_strlit("summarize");
    reveal_strlit("analyze_sentiment");
    reveal_strlit("translate");
    reveal_strlit("extract_entities");
    reveal_strlit("generate_embedding");
    reveal_strlit("sentiment");
    reveal_strlit("get_facts");
    reveal_strlit("identify_groups");
    reveal_strlit("classify");
    reveal_strlit("classify_into");
    reveal_strlit("extract_json");
    reveal_strlit("detect_language");
    reveal_strlit("answer_question");
    reveal_strlit("generate_code");
    reveal_strlit("criticize");
    reveal_strlit("synthesize");
    reveal_strlit("breathe");
    reveal_strlit("zoom_in");
    reveal_strlit("abstract");
    reveal_strlit("generate_groups");
    reveal_strlit("remove_redundant_groups");
    reveal_strlit("assign_groups_to_fact");
    reveal_strlit("get_related_concepts_multi");
    reveal_strlit("get_related_facts_llm");
    reveal_strlit("find_best_link_concept");
    reveal_strlit("consolidate_facts");
    reveal_strlit("prune_fact_subset");
}

/// Whether `value` is the argument `k` of a call whose parentheses hold `args`,
/// or `default` where it has fewer.
pub open spec fn is_argument(
    args: Seq<char>,
    k: int,
    default: Seq<char>,
    value: Seq<char>,
) -> bool {
    &&& k < args::call_arguments(args).len() ==> value == args::call_arguments(args)[k]
    &&& k >= args::call_arguments(args).len() ==> value == default
}

/// SQLite runs a call as it is: the name and, in parentheses, all that stands
/// in those of the call.
pub proof fn law_sqlite_call(func: Seq<char>, args: Seq<char>)
    ensures
        compiler::translated(Target::Sqlite, func, args) == func + "("@ + args + ")"@,
{
}

/// PostgreSQL runs the function of the same name of the pgai extension. The
/// first argument is its text. The second one is the prompt of a generated text,
/// or the language of a translation, English where it is missing. A function
/// that is not known by its arguments takes all of them as its text.
pub proof fn law_postgresql_call(
    func: Seq<char>,
    args: Seq<char>,
    col: Seq<char>,
    prompt: Seq<char>,
    lang: Seq<char>,
)
    requires
        is_argument(args, 0, "''"@, col),
        is_argument(args, 1, "''"@, prompt),
        is_argument(args, 1, "'en'"@, lang),
    ensures
        ({
            let sql = compiler::translated(Target::Postgresql, func, args);
            &&& func == "generate_text"@ ==> sql == "pgai.generate_text(prompt => "@ + prompt
                + ", text => "@ + col + ")"@
            &&& func == "translate"@ ==> sql == "pgai.translate(text => "@ + col
                + ", target_language => "@ + lang + ")"@
            &&& func == "summarize"@ ==> sql == "pgai.summarize(text => "@ + col + ")"@
            &&& func == "analyze_sentiment"@ ==> sql == "pgai.analyze_sentiment(text => "@ + col
                + ")"@
            &&& func == "extract_entities"@ ==> sql == "pgai.extract_entities(text => "@ + col
                + ")"@
            &&& func == "generate_embedding"@ ==> sql == "pgai.generate_embedding(text => "@ + col
                + ")"@
            &&& func != "generate_text"@ && func != "translate"@ && func != "summarize"@ && func
                != "analyze_sentiment"@ && func != "extract_entities"@ && func
                != "generate_embedding"@ ==> sql == "pgai."@ + func + "(text => "@ + args + ")"@
        }),
{
    lemma_names_differ();
}

/// Snowflake runs a Cortex function. All but a translation keep the whole text
/// of the arguments; a translation takes the first argument as its text and the
/// second one as the language, English where it is missing. What has no Cortex
/// function of its own is completed by a language model.
pub proof fn law_snowflake_call(
    func: Seq<char>,
    args: Seq<char>,
    col: Seq<char>,
    lang: Seq<char>,
)
    requires
        is_argument(args, 0, "''"@, col),
        is_argument(args, 1, "'en'"@, lang),
    ensures
        ({
            let sql = compiler::translated(Target::Snowflake, func, args);
            &&& func == "summarize"@ ==> sql == "SNOWFLAKE.CORTEX.SUMMARIZE("@ + args + ")"@
            &&& func == "analyze_sentiment"@ ==> sql == "SNOWFLAKE.CORTEX.SENTIMENT("@ + args
                + ")"@
            &&& func == "translate"@ ==> sql == "SNOWFLAKE.CORTEX.TRANSLATE("@ + col + ", "@ + lang
                + ", 'en')"@
            &&& func == "extract_entities"@ ==> sql == "SNOWFLAKE.CORTEX.EXTRACT_ANSWER("@ + args
                + ", 'Extract all entities')"@
            &&& func == "generate_embedding"@ ==> sql
                == "SNOWFLAKE.CORTEX.EMBED_TEXT_768('snowflake-arctic-embed-m-v1.5', "@ + args
                + ")"@
            &&& func != "summarize"@ && func != "analyze_sentiment"@ && func != "translate"@ && func
                != "extract_entities"@ && func != "generate_embedding"@ ==> sql
                == "SNOWFLAKE.CORTEX.COMPLETE('llama3.1-8b', "@ + args + ")"@
            &&& func != "translate"@ ==> extract::holds(sql, args)
        }),
{
    lemma_names_differ();
    let sql = compiler::translated(Target::Snowflake, func, args);
    if func != "translate"@ {
        assert forall|before: Seq<char>, after: Seq<char>|
            extract::holds(#[trigger] (before + args + after), args) by {
            lemma_holds_part(before, args, after);
        }
    }
}

/// A text stands between what is put before and behind it.
pub proof fn lemma_holds_part(before: Seq<char>, part: Seq<char>, after: Seq<char>)
    ensures
        extract::holds(before + part + after, part),
{
    let i = before.len() as int;
    assert((before + part + after).subrange(i, i + part.len()) =~= part);
    assert(pattern::stands_at(before + part + after, i, part));
}

/// Databricks asks a language model by `ai_query`. The first argument comes last
/// in what it is asked, behind the prompt of a generated text, the language of a
/// translation or words for the function. A function that is not known by its
/// arguments asks all of them.
pub proof fn law_databricks_call(
    func: Seq<char>,
    args: Seq<char>,
    col: Seq<char>,
    prompt: Seq<char>,
    lang: Seq<char>,
)
    requires
        is_argument(args, 0, "''"@, col),
        is_argument(args, 1, "''"@, prompt),
        is_argument(args, 1, "'en'"@, lang),
    ensures
        ({
            let sql = compiler::translated(Target::Databricks, func, args);
            &&& func == "generate_text"@ ==> sql
                == "ai_query('databricks-meta-llama-3-1-70b-instruct', CONCAT("@ + prompt
                + ", ' ', "@ + col + "))"@
            &&& func == "summarize"@ ==> sql
                == "ai_query('databricks-meta-llama-3-1-70b-instruct', CONCAT('Summarize: ', "@
                + col + "))"@
            &&& func == "analyze_sentiment"@ ==> sql
                == "ai_query('databricks-meta-llama-3-1-70b-instruct', CONCAT('Analyze sentiment of: ', "@
                + col + "))"@
            &&& func == "translate"@ ==> sql
                == "ai_query('databricks-meta-llama-3-1-70b-instruct', CONCAT('Translate to ', "@
                + lang + ", ': ', "@ + col + "))"@
            &&& func == "extract_entities"@ ==> sql
                == "ai_query('databricks-meta-llama-3-1-70b-instruct', CONCAT('Extract entities from: ', "@
                + col + "))"@
            &&& func == "generate_embedding"@ ==> sql == "ai_query('databricks-bge-large-en', "@
                + col + ")"@
            &&& func != "generate_text"@ && func != "summarize"@ && func != "analyze_sentiment"@
                && func != "translate"@ && func != "extract_entities"@ && func
                != "generate_embedding"@ ==> sql
                == "ai_query('databricks-meta-llama-3-1-70b-instruct', "@ + args + ")"@
        }),
{
    lemma_names_differ();
}

/// Whether `sql` is the result of what BigQuery generates for the question whose
/// parts are listed in `question`.
pub open spec fn asks(sql: Seq<char>, question: Seq<char>) -> bool {
    sql == "(AI.GENERATE(CONCAT("@ + question + "))).result"@
}

/// A function that BigQuery asks about in words, and that takes its arguments as
/// one text, asks with those words before the whole text of the arguments.
pub proof fn law_bigquery_words(func: Seq<char>, args: Seq<char>, sql: Seq<char>)
    requires
        sql == compiler::translated(Target::Bigquery, func, args),
    ensures
        func == "summarize"@ ==> asks(sql, "'"@ + "Summarize: "@ + "', "@ + args),
        func == "analyze_sentiment"@ ==> asks(sql, "'"@ + "Analyze sentiment: "@ + "', "@ + args),
        func == "extract_entities"@ ==> asks(sql, "'"@ + "Extract entities from: "@ + "', "@ + args),
        func == "sentiment"@ ==> asks(sql, "'"@ + "Analyze the sentiment of the following text. Respond with exactly one word: positive, negative, or neutral.\\n\\n"@ + "', "@ + args),
        func == "get_facts"@ ==> asks(sql, "'"@ + "Extract facts from this text. A fact is a specific statement that can be sourced from the text. Return as JSON array of objects with \"statement\", \"source_text\", and \"type\" (explicit or inferred) fields.\\n\\nText: "@ + "', "@ + args),
        func == "identify_groups"@ ==> asks(sql, "'"@ + "What are the main groups these items could be organized into? Return as JSON array of group names.\\n\\nItems: "@ + "', "@ + args),
        func == "classify"@ ==> asks(sql, "'"@ + "Classify the following text into a category. Return only the category name.\\n\\n"@ + "', "@ + args),
        func == "extract_json"@ ==> asks(sql, "'"@ + "Extract structured data from this text and return as valid JSON:\\n\\n"@ + "', "@ + args),
        func == "detect_language"@ ==> asks(sql, "'"@ + "Detect the language of this text. Return only the ISO 639-1 language code.\\n\\n"@ + "', "@ + args),
        func == "generate_code"@ ==> asks(sql, "'"@ + "Generate code for the following task. Return only the code, no explanation.\\n\\n"@ + "', "@ + args),
        func == "criticize"@ ==> asks(sql, "'"@ + "Provide a critical analysis and constructive criticism of the following, focused on weaknesses, improvements, and alternatives:\\n\\n"@ + "', "@ + args),
        func == "synthesize"@ ==> asks(sql, "'"@ + "Synthesize this content into a clear, concise summary that captures the essence:\\n\\n"@ + "', "@ + args),
        func == "breathe"@ ==> asks(sql, "'"@ + "Read the following and identify the high level objective, most recent task, accomplishments, and failures. Return as JSON with keys: high_level_objective, most_recent_task, accomplishments, failures.\\n\\n"@ + "', "@ + args),
        func == "zoom_in"@ ==> asks(sql, "'"@ + "Look at these facts and infer new implied facts. Return as JSON array of objects with \"statement\" and \"inferred_from\" fields.\\n\\n"@ + "', "@ + args),
        func == "abstract"@ ==> asks(sql, "'"@ + "Create more abstract categories from this list of groups. Group names should never be more than two words, should not contain gerunds, and should never contain conjunctions like AND or OR. Generate no more than 5 new concepts and no fewer than 2. Return as JSON: {\\\"groups\\\": [{\\\"name\\\": \\\"abstract category name\\\"}]}.\\n\\nGroups: "@ + "', "@ + args),
        func == "generate_groups"@ ==> asks(sql, "'"@ + "Generate conceptual groups for these facts. Group names should never be more than two words, should not contain gerunds, and should never contain conjunctions like AND or OR. Return as JSON: {\\\"groups\\\": [{\\\"name\\\": \\\"group name\\\"}]}.\\n\\nFacts: "@ + "', "@ + args),
        func == "remove_redundant_groups"@ ==> asks(sql, "'"@ + "Remove redundant groups from this list. Merge similar groups and keep only distinct concepts. Group names should never be more than two words, should not contain gerunds, and should never contain conjunctions like AND or OR. Return as JSON: {\\\"groups\\\": [{\\\"name\\\": \\\"final group name\\\"}]}.\\n\\nGroups: "@ + "', "@ + args),
        func == "prune_fact_subset"@ ==> asks(sql, "'"@ + "From the following list of facts, select the most informative subset that preserves the core meaning without redundancy. Return as JSON: {\\\"kept_facts\\\": [\\\"fact statement\\\"]}.\\n\\nFacts: "@ + "', "@ + args),
{
    lemma_names_differ();
}

/// A function with several arguments asks BigQuery with each of them at the
/// place that the words around it are about.
pub proof fn law_bigquery_places(
    func: Seq<char>,
    args: Seq<char>,
    sql: Seq<char>,
    first: Seq<char>,
    second: Seq<char>,
    third: Seq<char>,
    lang: Seq<char>,
    kind: Seq<char>,
)
    requires
        sql == compiler::translated(Target::Bigquery, func, args),
        is_argument(args, 0, "''"@, first),
        is_argument(args, 1, "''"@, second),
        is_argument(args, 2, "''"@, third),
        is_argument(args, 1, "'en'"@, lang),
        is_argument(args, 1, "'fact'"@, kind),
    ensures
        func == "translate"@ ==> asks(sql, "'Translate to ', "@ + lang + ", ': ', "@ + first),
        func == "classify_into"@ ==> asks(sql, "'Classify the following text into one of these categories: ', "@ + second + ", '. Return only the category name.\\n\\n', "@ + first),
        func == "answer_question"@ ==> asks(sql, "'Based on the following context, answer the question.\\n\\nContext: ', "@ + first + ", '\\n\\nQuestion: ', "@ + second),
        func == "assign_groups_to_fact"@ ==> asks(sql, "'Given this fact, assign it to any relevant groups. Return as JSON: {\\\"groups\\\": [\\\"list of group names\\\"]}.\\n\\nFact: ', "@ + first + ", '\\n\\nGroups: ', "@ + second),
        func == "get_related_concepts_multi"@ ==> asks(sql, "'Which of the following concepts relate to the given ', "@ + kind + ", '? Select all that apply from most specific to most abstract. ', INITCAP("@ + kind + "), ': \"', "@ + first + ", '\"\\n\\nAvailable Concepts: ', "@ + third + ", '\\n\\nReturn as JSON: {\\\"related_concepts\\\": [\\\"Concept A\\\", \\\"Concept B\\\"]}'"@),
        func == "get_related_facts_llm"@ ==> asks(sql, "'A new fact has been learned: \"', "@ + first + ", '\". Which of the following existing facts are directly related to it (causally, sequentially, or thematically)? Select only the most direct and meaningful connections.\\n\\nExisting Facts: ', "@ + second + ", '\\n\\nReturn as JSON: {\\\"related_facts\\\": [\\\"statement of a related fact\\\"]}'"@),
        func == "find_best_link_concept"@ ==> asks(sql, "'Here is a new candidate concept: \"', "@ + first + ", '\". Which of the following existing concepts is it most closely related to? The relationship could be as a sub-category, a similar idea, or a related domain. Respond with the single best-fit concept from the list, or \"none\" if it is genuinely new.\\n\\nExisting Concepts: ', "@ + second + ", '\\n\\nReturn as JSON: {\\\"best_link_concept\\\": \\\"The single best concept name OR none\\\"}'"@),
        func == "consolidate_facts"@ ==> asks(sql, "'A new fact has been learned: \"', "@ + first + ", '\". Determine whether it duplicates or contradicts any of these existing facts. Return as JSON: {\\\"action\\\": \\\"add|merge|replace|skip\\\", \\\"target_fact\\\": \\\"statement of existing fact or null\\\", \\\"final_statement\\\": \\\"merged statement or null\\\"}.\\n\\nExisting Facts: ', "@ + second),
{
    lemma_names_differ();
}

/// BigQuery embeds the whole text of the arguments by its function for that, and
/// generates a text out of it for a function that it does not ask about in words.
pub proof fn law_bigquery_without_words(func: Seq<char>, args: Seq<char>)
    ensures
        ({
            let sql = compiler::translated(Target::Bigquery, func, args);
            &&& func == "generate_embedding"@ ==> sql == "(AI.GENERATE_EMBEDDING("@ + args
                + ")).result"@
            &&& func == "generate_text"@ || !pattern::is_function(func) ==> sql
                == "(AI.GENERATE("@ + args + ")).result"@
        }),
{
    lemma_names_differ();
    if !pattern::is_function(func) {
        assert(pattern::NQL_FUNCTIONS@[0]@ == "generate_text"@);
        assert(pattern::NQL_FUNCTIONS@[1]@ == "summarize"@);
        assert(pattern::NQL_FUNCTIONS@[2]@ == "analyze_sentiment"@);
        assert(pattern::NQL_FUNCTIONS@[3]@ == "translate"@);
        assert(pattern::NQL_FUNCTIONS@[4]@ == "extract_entities"@);
        assert(pattern::NQL_FUNCTIONS@[5]@ == "generate_embedding"@);
        assert(pattern::NQL_FUNCTIONS@[6]@ == "sentiment"@);
        assert(pattern::NQL_FUNCTIONS@[7]@ == "get_facts"@);
        assert(pattern::NQL_FUNCTIONS@[8]@ == "identify_groups"@);
        assert(pattern::NQL_FUNCTIONS@[9]@ == "classify"@);
        assert(pattern::NQL_FUNCTIONS@[10]@ == "classify_into"@);
        assert(pattern::NQL_FUNCTIONS@[11]@ == "extract_json"@);
        assert(pattern::NQL_FUNCTIONS@[12]@ == "detect_language"@);
        assert(pattern::NQL_FUNCTIONS@[13]@ == "answer_question"@);
        assert(pattern::NQL_FUNCTIONS@[14]@ == "generate_code"@);
        assert(pattern::NQL_FUNCTIONS@[15]@ == "criticize"@);
        assert(pattern::NQL_FUNCTIONS@[16]@ == "synthesize"@);
        assert(pattern::NQL_FUNCTIONS@[17]@ == "breathe"@);
        assert(pattern::NQL_FUNCTIONS@[18]@ == "zoom_in"@);
        assert(pattern::NQL_FUNCTIONS@[19]@ == "abstract"@);
        assert(pattern::NQL_FUNCTIONS@[20]@ == "generate_groups"@);
        assert(pattern::NQL_FUNCTIONS@[21]@ == "remove_redundant_groups"@);
        assert(pattern::NQL_FUNCTIONS@[22]@ == "assign_groups_to_fact"@);
        assert(pattern::NQL_FUNCTIONS@[23]@ == "get_related_concepts_multi"@);
        assert(pattern::NQL_FUNCTIONS@[24]@ == "get_related_facts_llm"@);
        assert(pattern::NQL_FUNCTIONS@[25]@ == "find_best_link_concept"@);
        assert(pattern::NQL_FUNCTIONS@[26]@ == "consolidate_facts"@);
        assert(pattern::NQL_FUNCTIONS@[27]@ == "prune_fact_subset"@);
    }
}

/// The NQL functions are these, and no others.
pub proof fn law_functions(name: Seq<char>)
    ensures
        pattern::is_function(name) <==> ({
            ||| name == "generate_text"@
            ||| name == "summarize"@
            ||| name == "analyze_sentiment"@
            ||| name == "translate"@
            ||| name == "extract_entities"@
            ||| name == "generate_embedding"@
            ||| name == "sentiment"@
            ||| name == "get_facts"@
            ||| name == "identify_groups"@
            ||| name == "classify"@
            ||| name == "classify_into"@
            ||| name == "extract_json"@
            ||| name == "detect_language"@
            ||| name == "answer_question"@
            ||| name == "generate_code"@
            ||| name == "criticize"@
            ||| name == "synthesize"@
            ||| name == "breathe"@
            ||| name == "zoom_in"@
            ||| name == "abstract"@
            ||| name == "generate_groups"@
            ||| name == "remove_redundant_groups"@
            ||| name == "assign_groups_to_fact"@
            ||| name == "get_related_concepts_multi"@
            ||| name == "get_related_facts_llm"@
            ||| name == "find_best_link_concept"@
            ||| name == "consolidate_facts"@
            ||| name == "prune_fact_subset"@
        }),
{
    assert(pattern::NQL_FUNCTIONS@[0]@ == "generate_text"@);
    assert(pattern::NQL_FUNCTIONS@[1]@ == "summarize"@);
    assert(pattern::NQL_FUNCTIONS@[2]@ == "analyze_sentiment"@);
    assert(pattern::NQL_FUNCTIONS@[3]@ == "translate"@);
    assert(pattern::NQL_FUNCTIONS@[4]@ == "extract_entities"@);
    assert(pattern::NQL_FUNCTIONS@[5]@ == "generate_embedding"@);
    assert(pattern::NQL_FUNCTIONS@[6]@ == "sentiment"@);
    assert(pattern::NQL_FUNCTIONS@[7]@ == "get_facts"@);
    assert(pattern::NQL_FUNCTIONS@[8]@ == "identify_groups"@);
    assert(pattern::NQL_FUNCTIONS@[9]@ == "classify"@);
    assert(pattern::NQL_FUNCTIONS@[10]@ == "classify_into"@);
    assert(pattern::NQL_FUNCTIONS@[11]@ == "extract_json"@);
    assert(pattern::NQL_FUNCTIONS@[12]@ == "detect_language"@);
    assert(pattern::NQL_FUNCTIONS@[13]@ == "answer_question"@);
    assert(pattern::NQL_FUNCTIONS@[14]@ == "generate_code"@);
    assert(pattern::NQL_FUNCTIONS@[15]@ == "criticize"@);
    assert(pattern::NQL_FUNCTIONS@[16]@ == "synthesize"@);
    assert(pattern::NQL_FUNCTIONS@[17]@ == "breathe"@);
    assert(pattern::NQL_FUNCTIONS@[18]@ == "zoom_in"@);
    assert(pattern::NQL_FUNCTIONS@[19]@ == "abstract"@);
    assert(pattern::NQL_FUNCTIONS@[20]@ == "generate_groups"@);
    assert(pattern::NQL_FUNCTIONS@[21]@ == "remove_redundant_groups"@);
    assert(pattern::NQL_FUNCTIONS@[22]@ == "assign_groups_to_fact"@);
    assert(pattern::NQL_FUNCTIONS@[23]@ == "get_related_concepts_multi"@);
    assert(pattern::NQL_FUNCTIONS@[24]@ == "get_related_facts_llm"@);
    assert(pattern::NQL_FUNCTIONS@[25]@ == "find_best_link_concept"@);
    assert(pattern::NQL_FUNCTIONS@[26]@ == "consolidate_facts"@);
    assert(pattern::NQL_FUNCTIONS@[27]@ == "prune_fact_subset"@);
}

}
