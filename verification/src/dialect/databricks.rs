//! Databricks: the `ai_query` function.

use vstd::prelude::*;

use crate::compiler::Compiler;
use crate::dialect::args;
use crate::text;

verus! {

/// What Databricks runs in place of the call.
pub open spec fn databricks_sql(func: Seq<char>, args: Seq<char>) -> Seq<char> {
    let col = args::argument(args, 0, "''"@);
    let prompt = args::argument(args, 1, "''"@);
    let lang = args::argument(args, 1, "'en'"@);
    if func == "generate_text"@ {
        "ai_query('databricks-meta-llama-3-1-70b-instruct', CONCAT("@ + prompt + ", ' ', "@ + col + "))"@
    } else if func == "summarize"@ {
        "ai_query('databricks-meta-llama-3-1-70b-instruct', CONCAT('Summarize: ', "@ + col + "))"@
    } else if func == "analyze_sentiment"@ {
        "ai_query('databricks-meta-llama-3-1-70b-instruct', CONCAT('Analyze sentiment of: ', "@ + col + "))"@
    } else if func == "translate"@ {
        "ai_query('databricks-meta-llama-3-1-70b-instruct', CONCAT('Translate to ', "@ + lang + ", ': ', "@ + col + "))"@
    } else if func == "extract_entities"@ {
        "ai_query('databricks-meta-llama-3-1-70b-instruct', CONCAT('Extract entities from: ', "@ + col + "))"@
    } else if func == "generate_embedding"@ {
        "ai_query('databricks-bge-large-en', "@ + col + ")"@
    } else {
        "ai_query('databricks-meta-llama-3-1-70b-instruct', "@ + args + ")"@
    }
}

impl Compiler {
    /// Translate a single call for Databricks.
    pub fn translate_databricks(&self, func_name: &str, args: &str) -> (res: String)
        ensures
            res@ == databricks_sql(func_name@, args@),
    {
        let parts = args::split_call_args(args);
        let col = args::argument_or(&parts, 0, "''");
        let prompt = args::argument_or(&parts, 1, "''");
        let lang = args::argument_or(&parts, 1, "'en'");
        if text::same(func_name, "generate_text") {
            text::cat5("ai_query('databricks-meta-llama-3-1-70b-instruct', CONCAT(", prompt, ", ' ', ", col, "))")
        } else if text::same(func_name, "summarize") {
            text::cat3("ai_query('databricks-meta-llama-3-1-70b-instruct', CONCAT('Summarize: ', ", col, "))")
        } else if text::same(func_name, "analyze_sentiment") {
            text::cat3("ai_query('databricks-meta-llama-3-1-70b-instruct', CONCAT('Analyze sentiment of: ', ", col, "))")
        } else if text::same(func_name, "translate") {
            text::cat5("ai_query('databricks-meta-llama-3-1-70b-instruct', CONCAT('Translate to ', ", lang, ", ': ', ", col, "))")
        } else if text::same(func_name, "extract_entities") {
            text::cat3("ai_query('databricks-meta-llama-3-1-70b-instruct', CONCAT('Extract entities from: ', ", col, "))")
        } else if text::same(func_name, "generate_embedding") {
            text::cat3("ai_query('databricks-bge-large-en', ", col, ")")
        } else {
            text::cat3("ai_query('databricks-meta-llama-3-1-70b-instruct', ", args, ")")
        }
    }
}

}
