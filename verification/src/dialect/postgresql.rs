//! PostgreSQL: the pgai extension.

use vstd::prelude::*;

use crate::compiler::Compiler;
use crate::dialect::args;
use crate::text;

verus! {

/// What PostgreSQL runs in place of the call.
pub open spec fn postgresql_sql(func: Seq<char>, args: Seq<char>) -> Seq<char> {
    let col = args::argument(args, 0, "''"@);
    let prompt = args::argument(args, 1, "''"@);
    let lang = args::argument(args, 1, "'en'"@);
    if func == "generate_text"@ {
        "pgai.generate_text(prompt => "@ + prompt + ", text => "@ + col + ")"@
    } else if func == "summarize"@ {
        "pgai.summarize(text => "@ + col + ")"@
    } else if func == "analyze_sentiment"@ {
        "pgai.analyze_sentiment(text => "@ + col + ")"@
    } else if func == "translate"@ {
        "pgai.translate(text => "@ + col + ", target_language => "@ + lang + ")"@
    } else if func == "extract_entities"@ {
        "pgai.extract_entities(text => "@ + col + ")"@
    } else if func == "generate_embedding"@ {
        "pgai.generate_embedding(text => "@ + col + ")"@
    } else {
        "pgai."@ + func + "(text => "@ + args + ")"@
    }
}

impl Compiler {
    /// Translate a single call for PostgreSQL.
    pub fn translate_postgresql(&self, func_name: &str, args: &str) -> (res: String)
        ensures
            res@ == postgresql_sql(func_name@, args@),
    {
        let parts = args::split_call_args(args);
        let col = args::argument_or(&parts, 0, "''");
        let prompt = args::argument_or(&parts, 1, "''");
        let lang = args::argument_or(&parts, 1, "'en'");
        if text::same(func_name, "generate_text") {
            text::cat5("pgai.generate_text(prompt => ", prompt, ", text => ", col, ")")
        } else if text::same(func_name, "summarize") {
            text::cat3("pgai.summarize(text => ", col, ")")
        } else if text::same(func_name, "analyze_sentiment") {
            text::cat3("pgai.analyze_sentiment(text => ", col, ")")
        } else if text::same(func_name, "translate") {
            text::cat5("pgai.translate(text => ", col, ", target_language => ", lang, ")")
        } else if text::same(func_name, "extract_entities") {
            text::cat3("pgai.extract_entities(text => ", col, ")")
        } else if text::same(func_name, "generate_embedding") {
            text::cat3("pgai.generate_embedding(text => ", col, ")")
        } else {
            text::cat5("pgai.", func_name, "(text => ", args, ")")
        }
    }
}

}
