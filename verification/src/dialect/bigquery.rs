//! BigQuery: the built-in AI functions.

use vstd::prelude::*;

use crate::compiler::Compiler;
use crate::dialect::args;
use crate::text;

verus! {

/// What BigQuery asks about the one argument of a call, where it asks about it
/// in words.
pub open spec fn bigquery_prompt(func: Seq<char>) -> Option<Seq<char>> {
    if func == "summarize"@ {
        Some("Summarize: "@)
    } else if func == "analyze_sentiment"@ {
        Some("Analyze sentiment: "@)
    } else if func == "extract_entities"@ {
        Some("Extract entities from: "@)
    } else if func == "sentiment"@ {
        Some("Analyze the sentiment of the following text. Respond with exactly one word: positive, negative, or neutral.\\n\\n"@)
    } else if func == "get_facts"@ {
        Some("Extract facts from this text. A fact is a specific statement that can be sourced from the text. Return as JSON array of objects with \"statement\", \"source_text\", and \"type\" (explicit or inferred) fields.\\n\\nText: "@)
    } else if func == "identify_groups"@ {
        Some("What are the main groups these items could be organized into? Return as JSON array of group names.\\n\\nItems: "@)
    } else if func == "classify"@ {
        Some("Classify the following text into a category. Return only the category name.\\n\\n"@)
    } else if func == "extract_json"@ {
        Some("Extract structured data from this text and return as valid JSON:\\n\\n"@)
    } else if func == "detect_language"@ {
        Some("Detect the language of this text. Return only the ISO 639-1 language code.\\n\\n"@)
    } else if func == "generate_code"@ {
        Some("Generate code for the following task. Return only the code, no explanation.\\n\\n"@)
    } else if func == "criticize"@ {
        Some("Provide a critical analysis and constructive criticism of the following, focused on weaknesses, improvements, and alternatives:\\n\\n"@)
    } else if func == "synthesize"@ {
        Some("Synthesize this content into a clear, concise summary that captures the essence:\\n\\n"@)
    } else if func == "breathe"@ {
        Some("Read the following and identify the high level objective, most recent task, accomplishments, and failures. Return as JSON with keys: high_level_objective, most_recent_task, accomplishments, failures.\\n\\n"@)
    } else if func == "zoom_in"@ {
        Some("Look at these facts and infer new implied facts. Return as JSON array of objects with \"statement\" and \"inferred_from\" fields.\\n\\n"@)
    } else if func == "abstract"@ {
        Some("Create more abstract categories from this list of groups. Group names should never be more than two words, should not contain gerunds, and should never contain conjunctions like AND or OR. Generate no more than 5 new concepts and no fewer than 2. Return as JSON: {\\\"groups\\\": [{\\\"name\\\": \\\"abstract category name\\\"}]}.\\n\\nGroups: "@)
    } else if func == "generate_groups"@ {
        Some("Generate conceptual groups for these facts. Group names should never be more than two words, should not contain gerunds, and should never contain conjunctions like AND or OR. Return as JSON: {\\\"groups\\\": [{\\\"name\\\": \\\"group name\\\"}]}.\\n\\nFacts: "@)
    } else if func == "remove_redundant_groups"@ {
        Some("Remove redundant groups from this list. Merge similar groups and keep only distinct concepts. Group names should never be more than two words, should not contain gerunds, and should never contain conjunctions like AND or OR. Return as JSON: {\\\"groups\\\": [{\\\"name\\\": \\\"final group name\\\"}]}.\\n\\nGroups: "@)
    } else if func == "prune_fact_subset"@ {
        Some("From the following list of facts, select the most informative subset that preserves the core meaning without redundancy. Return as JSON: {\\\"kept_facts\\\": [\\\"fact statement\\\"]}.\\n\\nFacts: "@)
    } else {
        None
    }
}

/// Finds what BigQuery asks about the one argument of a call.
pub fn bigquery_prompt_text(func_name: &str) -> (res: Option<&'static str>)
    ensures
        match res {
            Some(prompt) => bigquery_prompt(func_name@) == Some(prompt@),
            None => bigquery_prompt(func_name@) is None,
        },
{
    if text::same(func_name, "summarize") {
        Some("Summarize: ")
    } else if text::same(func_name, "analyze_sentiment") {
        Some("Analyze sentiment: ")
    } else if text::same(func_name, "extract_entities") {
        Some("Extract entities from: ")
    } else if text::same(func_name, "sentiment") {
        Some("Analyze the sentiment of the following text. Respond with exactly one word: positive, negative, or neutral.\\n\\n")
    } else if text::same(func_name, "get_facts") {
        Some("Extract facts from this text. A fact is a specific statement that can be sourced from the text. Return as JSON array of objects with \"statement\", \"source_text\", and \"type\" (explicit or inferred) fields.\\n\\nText: ")
    } else if text::same(func_name, "identify_groups") {
        Some("What are the main groups these items could be organized into? Return as JSON array of group names.\\n\\nItems: ")
    } else if text::same(func_name, "classify") {
        Some("Classify the following text into a category. Return only the category name.\\n\\n")
    } else if text::same(func_name, "extract_json") {
        Some("Extract structured data from this text and return as valid JSON:\\n\\n")
    } else if text::same(func_name, "detect_language") {
        Some("Detect the language of this text. Return only the ISO 639-1 language code.\\n\\n")
    } else if text::same(func_name, "generate_code") {
        Some("Generate code for the following task. Return only the code, no explanation.\\n\\n")
    } else if text::same(func_name, "criticize") {
        Some("Provide a critical analysis and constructive criticism of the following, focused on weaknesses, improvements, and alternatives:\\n\\n")
    } else if text::same(func_name, "synthesize") {
        Some("Synthesize this content into a clear, concise summary that captures the essence:\\n\\n")
    } else if text::same(func_name, "breathe") {
        Some("Read the following and identify the high level objective, most recent task, accomplishments, and failures. Return as JSON with keys: high_level_objective, most_recent_task, accomplishments, failures.\\n\\n")
    } else if text::same(func_name, "zoom_in") {
        Some("Look at these facts and infer new implied facts. Return as JSON array of objects with \"statement\" and \"inferred_from\" fields.\\n\\n")
    } else if text::same(func_name, "abstract") {
        Some("Create more abstract categories from this list of groups. Group names should never be more than two words, should not contain gerunds, and should never contain conjunctions like AND or OR. Generate no more than 5 new concepts and no fewer than 2. Return as JSON: {\\\"groups\\\": [{\\\"name\\\": \\\"abstract category name\\\"}]}.\\n\\nGroups: ")
    } else if text::same(func_name, "generate_groups") {
        Some("Generate conceptual groups for these facts. Group names should never be more than two words, should not contain gerunds, and should never contain conjunctions like AND or OR. Return as JSON: {\\\"groups\\\": [{\\\"name\\\": \\\"group name\\\"}]}.\\n\\nFacts: ")
    } else if text::same(func_name, "remove_redundant_groups") {
        Some("Remove redundant groups from this list. Merge similar groups and keep only distinct concepts. Group names should never be more than two words, should not contain gerunds, and should never contain conjunctions like AND or OR. Return as JSON: {\\\"groups\\\": [{\\\"name\\\": \\\"final group name\\\"}]}.\\n\\nGroups: ")
    } else if text::same(func_name, "prune_fact_subset") {
        Some("From the following list of facts, select the most informative subset that preserves the core meaning without redundancy. Return as JSON: {\\\"kept_facts\\\": [\\\"fact statement\\\"]}.\\n\\nFacts: ")
    } else {
        None
    }
}

/// The parts of the question that BigQuery puts together for a call, where it
/// asks in words.
pub open spec fn bigquery_question(func: Seq<char>, args: Seq<char>) -> Option<Seq<char>> {
    let first = args::argument(args, 0, "''"@);
    let second = args::argument(args, 1, "''"@);
    let third = args::argument(args, 2, "''"@);
    let lang = args::argument(args, 1, "'en'"@);
    let kind = args::argument(args, 1, "'fact'"@);
    if let Some(prompt) = bigquery_prompt(func) {
        Some("'"@ + prompt + "', "@ + args)
    } else if func == "translate"@ {
        Some("'Translate to ', "@ + lang + ", ': ', "@ + first)
    } else if func == "classify_into"@ {
        Some("'Classify the following text into one of these categories: ', "@ + second + ", '. Return only the category name.\\n\\n', "@ + first)
    } else if func == "answer_question"@ {
        Some("'Based on the following context, answer the question.\\n\\nContext: ', "@ + first + ", '\\n\\nQuestion: ', "@ + second)
    } else if func == "assign_groups_to_fact"@ {
        Some("'Given this fact, assign it to any relevant groups. Return as JSON: {\\\"groups\\\": [\\\"list of group names\\\"]}.\\n\\nFact: ', "@ + first + ", '\\n\\nGroups: ', "@ + second)
    } else if func == "get_related_concepts_multi"@ {
        Some("'Which of the following concepts relate to the given ', "@ + kind + ", '? Select all that apply from most specific to most abstract. ', INITCAP("@ + kind + "), ': \"', "@ + first + ", '\"\\n\\nAvailable Concepts: ', "@ + third + ", '\\n\\nReturn as JSON: {\\\"related_concepts\\\": [\\\"Concept A\\\", \\\"Concept B\\\"]}'"@)
    } else if func == "get_related_facts_llm"@ {
        Some("'A new fact has been learned: \"', "@ + first + ", '\". Which of the following existing facts are directly related to it (causally, sequentially, or thematically)? Select only the most direct and meaningful connections.\\n\\nExisting Facts: ', "@ + second + ", '\\n\\nReturn as JSON: {\\\"related_facts\\\": [\\\"statement of a related fact\\\"]}'"@)
    } else if func == "find_best_link_concept"@ {
        Some("'Here is a new candidate concept: \"', "@ + first + ", '\". Which of the following existing concepts is it most closely related to? The relationship could be as a sub-category, a similar idea, or a related domain. Respond with the single best-fit concept from the list, or \"none\" if it is genuinely new.\\n\\nExisting Concepts: ', "@ + second + ", '\\n\\nReturn as JSON: {\\\"best_link_concept\\\": \\\"The single best concept name OR none\\\"}'"@)
    } else if func == "consolidate_facts"@ {
        Some("'A new fact has been learned: \"', "@ + first + ", '\". Determine whether it duplicates or contradicts any of these existing facts. Return as JSON: {\\\"action\\\": \\\"add|merge|replace|skip\\\", \\\"target_fact\\\": \\\"statement of existing fact or null\\\", \\\"final_statement\\\": \\\"merged statement or null\\\"}.\\n\\nExisting Facts: ', "@ + second)
    } else {
        None
    }
}

/// Lists the parts of the question that BigQuery puts together for a call.
fn bigquery_question_text(func_name: &str, args: &str) -> (res: Option<String>)
    ensures
        match res {
            Some(question) => bigquery_question(func_name@, args@) == Some(question@),
            None => bigquery_question(func_name@, args@) is None,
        },
{
    let parts = args::split_call_args(args);
    let first = args::argument_or(&parts, 0, "''");
    let second = args::argument_or(&parts, 1, "''");
    let third = args::argument_or(&parts, 2, "''");
    let lang = args::argument_or(&parts, 1, "'en'");
    let kind = args::argument_or(&parts, 1, "'fact'");
    if let Some(prompt) = bigquery_prompt_text(func_name) {
        Some(text::cat4("'", prompt, "', ", args))
    } else if text::same(func_name, "translate") {
        Some(text::cat4("'Translate to ', ", lang, ", ': ', ", first))
    } else if text::same(func_name, "classify_into") {
        Some(text::cat4("'Classify the following text into one of these categories: ', ", second, ", '. Return only the category name.\\n\\n', ", first))
    } else if text::same(func_name, "answer_question") {
        Some(text::cat4("'Based on the following context, answer the question.\\n\\nContext: ', ", first, ", '\\n\\nQuestion: ', ", second))
    } else if text::same(func_name, "assign_groups_to_fact") {
        Some(text::cat4("'Given this fact, assign it to any relevant groups. Return as JSON: {\\\"groups\\\": [\\\"list of group names\\\"]}.\\n\\nFact: ', ", first, ", '\\n\\nGroups: ', ", second))
    } else if text::same(func_name, "get_related_concepts_multi") {
        Some(text::cat9("'Which of the following concepts relate to the given ', ", kind, ", '? Select all that apply from most specific to most abstract. ', INITCAP(", kind, "), ': \"', ", first, ", '\"\\n\\nAvailable Concepts: ', ", third, ", '\\n\\nReturn as JSON: {\\\"related_concepts\\\": [\\\"Concept A\\\", \\\"Concept B\\\"]}'"))
    } else if text::same(func_name, "get_related_facts_llm") {
        Some(text::cat5("'A new fact has been learned: \"', ", first, ", '\". Which of the following existing facts are directly related to it (causally, sequentially, or thematically)? Select only the most direct and meaningful connections.\\n\\nExisting Facts: ', ", second, ", '\\n\\nReturn as JSON: {\\\"related_facts\\\": [\\\"statement of a related fact\\\"]}'"))
    } else if text::same(func_name, "find_best_link_concept") {
        Some(text::cat5("'Here is a new candidate concept: \"', ", first, ", '\". Which of the following existing concepts is it most closely related to? The relationship could be as a sub-category, a similar idea, or a related domain. Respond with the single best-fit concept from the list, or \"none\" if it is genuinely new.\\n\\nExisting Concepts: ', ", second, ", '\\n\\nReturn as JSON: {\\\"best_link_concept\\\": \\\"The single best concept name OR none\\\"}'"))
    } else if text::same(func_name, "consolidate_facts") {
        Some(text::cat4("'A new fact has been learned: \"', ", first, ", '\". Determine whether it duplicates or contradicts any of these existing facts. Return as JSON: {\\\"action\\\": \\\"add|merge|replace|skip\\\", \\\"target_fact\\\": \\\"statement of existing fact or null\\\", \\\"final_statement\\\": \\\"merged statement or null\\\"}.\\n\\nExisting Facts: ', ", second))
    } else {
        None
    }
}

/// What BigQuery runs in place of the call.
pub open spec fn bigquery_sql(func: Seq<char>, args: Seq<char>) -> Seq<char> {
    if let Some(question) = bigquery_question(func, args) {
        "(AI.GENERATE(CONCAT("@ + question + "))).result"@
    } else if func == "generate_embedding"@ {
        "(AI.GENERATE_EMBEDDING("@ + args + ")).result"@
    } else {
        "(AI.GENERATE("@ + args + ")).result"@
    }
}

impl Compiler {
    /// Translate a single call for BigQuery.
    pub fn translate_bigquery(&self, func_name: &str, args: &str) -> (res: String)
        ensures
            res@ == bigquery_sql(func_name@, args@),
    {
        if let Some(question) = bigquery_question_text(func_name, args) {
            text::cat3("(AI.GENERATE(CONCAT(", question.as_str(), "))).result")
        } else if text::same(func_name, "generate_embedding") {
            text::cat3("(AI.GENERATE_EMBEDDING(", args, ")).result")
        } else {
            text::cat3("(AI.GENERATE(", args, ")).result")
        }
    }
}

}
