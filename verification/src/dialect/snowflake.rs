//! Snowflake: the Cortex functions.

use vstd::prelude::*;

use crate::compiler::Compiler;
use crate::dialect::args;
use crate::text;

verus! {

/// What Snowflake runs in place of the call.
pub open spec fn snowflake_sql(func: Seq<char>, args: Seq<char>) -> Seq<char> {
    let col = args::argument(args, 0, "''"@);
    let lang = args::argument(args, 1, "'en'"@);
    if func == "summarize"@ {
        "SNOWFLAKE.CORTEX.SUMMARIZE("@ + args + ")"@
    } else if func == "analyze_sentiment"@ {
        "SNOWFLAKE.CORTEX.SENTIMENT("@ + args + ")"@
    } else if func == "translate"@ {
        "SNOWFLAKE.CORTEX.TRANSLATE("@ + col + ", "@ + lang + ", 'en')"@
    } else if func == "extract_entities"@ {
        "SNOWFLAKE.CORTEX.EXTRACT_ANSWER("@ + args + ", 'Extract all entities')"@
    } else if func == "generate_embedding"@ {
        "SNOWFLAKE.CORTEX.EMBED_TEXT_768('snowflake-arctic-embed-m-v1.5', "@ + args + ")"@
    } else {
        "SNOWFLAKE.CORTEX.COMPLETE('llama3.1-8b', "@ + args + ")"@
    }
}

impl Compiler {
    /// Translate a single call for Snowflake.
    pub fn translate_snowflake(&self, func_name: &str, args: &str) -> (res: String)
        ensures
            res@ == snowflake_sql(func_name@, args@),
    {
        let parts = args::split_call_args(args);
        let col = args::argument_or(&parts, 0, "''");
        let lang = args::argument_or(&parts, 1, "'en'");
        if text::same(func_name, "summarize") {
            text::cat3("SNOWFLAKE.CORTEX.SUMMARIZE(", args, ")")
        } else if text::same(func_name, "analyze_sentiment") {
            text::cat3("SNOWFLAKE.CORTEX.SENTIMENT(", args, ")")
        } else if text::same(func_name, "translate") {
            text::cat5("SNOWFLAKE.CORTEX.TRANSLATE(", col, ", ", lang, ", 'en')")
        } else if text::same(func_name, "extract_entities") {
            text::cat3("SNOWFLAKE.CORTEX.EXTRACT_ANSWER(", args, ", 'Extract all entities')")
        } else if text::same(func_name, "generate_embedding") {
            text::cat3("SNOWFLAKE.CORTEX.EMBED_TEXT_768('snowflake-arctic-embed-m-v1.5', ", args, ")")
        } else {
            text::cat3("SNOWFLAKE.CORTEX.COMPLETE('llama3.1-8b', ", args, ")")
        }
    }
}

}
