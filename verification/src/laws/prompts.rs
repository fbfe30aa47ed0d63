//! Laws of what SQLite functions ask a language model, and of what is sent to it.

use vstd::prelude::*;

use crate::laws::arguments;
use crate::laws::dialects;
use crate::pattern;
use crate::sqlite_udf;
use crate::sqlite_udf::{LlmConfigView, LlmVars, RequestView, StepView};
use crate::text;

verus! {

/// What a function of one argument asks is what it is for, in words before and
/// behind the argument, and a text that is to be generated is asked for as it is.
pub proof fn law_unary_prompt_asks(name: Seq<char>, text: Seq<char>)
    ensures
        name == "sentiment"@ ==> sqlite_udf::unary_prompt(name, text) == Some("Analyze the sentiment of the following text. Respond with exactly one word: positive, negative, or neutral.\n\n"@ + text),
        name == "summarize"@ ==> sqlite_udf::unary_prompt(name, text) == Some("Summarize the following text concisely:\n\n"@ + text),
        name == "extract_entities"@ ==> sqlite_udf::unary_prompt(name, text) == Some("Extract all named entities (people, places, organizations) from the following text. Return as JSON array.\n\n"@ + text),
        name == "generate_text"@ ==> sqlite_udf::unary_prompt(name, text) == Some(text),
        name == "generate_embedding"@ ==> sqlite_udf::unary_prompt(name, text) == Some("Generate a semantic embedding description for: "@ + text),
        name == "get_facts"@ ==> sqlite_udf::unary_prompt(name, text) == Some("Extract facts from this text. A fact is a specific statement that can be sourced from the text.\n\nText: \""@ + text + "\"\n\nReturn as JSON array of objects with \"statement\", \"source_text\", and \"type\" (explicit or inferred) fields."@),
        name == "identify_groups"@ ==> sqlite_udf::unary_prompt(name, text) == Some("What are the main groups these items could be organized into? Express in plain language.\n\nItems: "@ + text + "\n\nReturn as JSON array of group names."@),
        name == "classify"@ ==> sqlite_udf::unary_prompt(name, text) == Some("Classify the following text into a category. Return only the category name.\n\n"@ + text),
        name == "extract_json"@ ==> sqlite_udf::unary_prompt(name, text) == Some("Extract structured data from this text and return as valid JSON:\n\n"@ + text),
        name == "detect_language"@ ==> sqlite_udf::unary_prompt(name, text) == Some("Detect the language of this text. Return only the ISO 639-1 language code.\n\n"@ + text),
        name == "generate_code"@ ==> sqlite_udf::unary_prompt(name, text) == Some("Generate code for the following task. Return only the code, no explanation.\n\n"@ + text),
        name == "criticize"@ ==> sqlite_udf::unary_prompt(name, text) == Some("Provide a critical analysis and constructive criticism of the following:\n"@ + text + "\n\nFocus on identifying weaknesses, potential improvements, and alternative approaches."@),
        name == "synthesize"@ ==> sqlite_udf::unary_prompt(name, text) == Some("Synthesize this content into a clear, concise summary that captures the essence:\n\n"@ + text),
        name == "breathe"@ ==> sqlite_udf::unary_prompt(name, text) == Some("Read the following conversation and identify:\n1. The high level objective\n2. The most recent task\n3. The accomplishments thus far\n4. The failures thus far\n\nReturn as JSON with keys: high_level_objective, most_recent_task, accomplishments, failures.\n\n"@ + text),
        name == "zoom_in"@ ==> sqlite_udf::unary_prompt(name, text) == Some("Look at these facts and infer new implied facts:\n\n"@ + text + "\n\nReturn as JSON array of objects with \"statement\" and \"inferred_from\" fields."@),
{
    dialects::lemma_names_differ();
}

/// A function of one argument asks about different texts in different prompts.
pub proof fn law_unary_prompt_tells_texts_apart(name: Seq<char>, text: Seq<char>, other: Seq<char>)
    requires
        sqlite_udf::unary_prompt(name, text) is Some,
        sqlite_udf::unary_prompt(name, text) == sqlite_udf::unary_prompt(name, other),
    ensures
        text == other,
{
    assert forall|a: Seq<char>, b: Seq<char>|
        #![trigger a + text + b]
        a + text + b == a + other + b implies text == other by {
        lemma_same_between(a, text, other, b);
    }
    assert forall|a: Seq<char>| #[trigger] (a + text) == a + other implies text == other by {
        lemma_same_between(a, text, other, Seq::empty());
        assert(a + text + Seq::<char>::empty() =~= a + text);
        assert(a + other + Seq::<char>::empty() =~= a + other);
    }
}

proof fn lemma_same_between(a: Seq<char>, x: Seq<char>, y: Seq<char>, b: Seq<char>)
    ensures
        a + x + b == a + y + b ==> x == y,
{
    if a + x + b == a + y + b {
        assert((a + x + b).len() == (a + y + b).len());
        assert(x =~= (a + x + b).subrange(a.len() as int, (a.len() + x.len()) as int));
        assert(y =~= (a + y + b).subrange(a.len() as int, (a.len() + y.len()) as int));
    }
}

/// Whether `part` stands in `prompt` right behind `words`.
pub open spec fn stands_behind(prompt: Seq<char>, words: Seq<char>, part: Seq<char>) -> bool {
    exists|i: int| #[trigger]
        pattern::stands_at(prompt, i, words) && pattern::stands_at(prompt, i + words.len(), part)
}

proof fn lemma_stands_behind(
    before: Seq<char>,
    words: Seq<char>,
    part: Seq<char>,
    after: Seq<char>,
)
    ensures
        stands_behind(before + words + part + after, words, part),
{
    let whole = before + words + part + after;
    let i = before.len() as int;
    assert(whole.subrange(i, i + words.len()) =~= words);
    let j = i + words.len();
    assert(whole.subrange(j, j + part.len()) =~= part);
    assert(pattern::stands_at(whole, i, words) && pattern::stands_at(whole, j, part));
}

/// A translation is asked for with the second argument as the language, right
/// behind the words that ask for it, and the first argument as the text, at the
/// end.
pub proof fn law_translation_prompt(text: Seq<char>, lang: Seq<char>)
    ensures
        sqlite_udf::binary_prompt("translate"@, text, lang) matches Some(prompt) && {
            &&& prompt == "Translate the following text to "@ + lang + ":\n\n"@ + text
            &&& text.is_suffix_of(prompt)
            &&& stands_behind(prompt, "Translate the following text to "@, lang)
        },
{
    let words = "Translate the following text to "@;
    let prompt = words + lang + ":\n\n"@ + text;
    assert(prompt.skip(prompt.len() - text.len()) =~= text);
    lemma_stands_behind(Seq::empty(), words, lang, ":\n\n"@ + text);
    assert(prompt =~= Seq::<char>::empty() + words + lang + (":\n\n"@ + text));
}

/// A classification is asked for with the second argument as the categories,
/// right behind the words that name them, and the first argument as the text, at
/// the end.
pub proof fn law_classification_prompt(text: Seq<char>, categories: Seq<char>)
    ensures
        sqlite_udf::binary_prompt("classify_into"@, text, categories) matches Some(prompt) && {
            &&& prompt == "Classify the following text into one of these categories: "@ + categories
                + ". Return only the category name.\n\n"@ + text
            &&& text.is_suffix_of(prompt)
            &&& stands_behind(
                prompt,
                "Classify the following text into one of these categories: "@,
                categories,
            )
        },
{
    dialects::lemma_names_differ();
    let words = "Classify the following text into one of these categories: "@;
    let between = ". Return only the category name.\n\n"@;
    let prompt = words + categories + between + text;
    assert(prompt.skip(prompt.len() - text.len()) =~= text);
    lemma_stands_behind(Seq::empty(), words, categories, between + text);
    assert(prompt =~= Seq::<char>::empty() + words + categories + (between + text));
}

/// An answer is asked for with the first argument as the context, right behind
/// the word for it, and the second argument as the question, at the end.
pub proof fn law_answer_prompt(context: Seq<char>, question: Seq<char>)
    ensures
        sqlite_udf::binary_prompt("answer_question"@, context, question) matches Some(prompt) && {
            &&& prompt
                == "Based on the following context, answer the question.\n\nContext: "@ + context
                + "\n\nQuestion: "@ + question
            &&& question.is_suffix_of(prompt)
            &&& stands_behind(
                prompt,
                "Based on the following context, answer the question.\n\nContext: "@,
                context,
            )
            &&& stands_behind(prompt, "\n\nQuestion: "@, question)
        },
{
    dialects::lemma_names_differ();
    let words = "Based on the following context, answer the question.\n\nContext: "@;
    let between = "\n\nQuestion: "@;
    let prompt = words + context + between + question;
    assert(prompt.skip(prompt.len() - question.len()) =~= question);
    lemma_stands_behind(Seq::empty(), words, context, between + question);
    assert(prompt =~= Seq::<char>::empty() + words + context + (between + question));
    lemma_stands_behind(words + context, between, question, Seq::empty());
    assert(prompt =~= words + context + between + question + Seq::<char>::empty());
}

/// The functions of one argument that have a prompt, and those of two, are those
/// that SQLite runs with as many.
pub proof fn law_prompts_are_of_udfs(name: Seq<char>, first: Seq<char>, second: Seq<char>)
    ensures
        sqlite_udf::unary_prompt(name, first) is Some <==> exists|i: int|
            0 <= i < sqlite_udf::UNARY_UDFS@.len() && (#[trigger] sqlite_udf::UNARY_UDFS@[i])@
                == name,
        sqlite_udf::binary_prompt(name, first, second) is Some <==> exists|i: int|
            0 <= i < sqlite_udf::BINARY_UDFS@.len() && (#[trigger] sqlite_udf::BINARY_UDFS@[i])@
                == name,
        sqlite_udf::unary_prompt(name, first) is None || sqlite_udf::binary_prompt(
            name,
            first,
            second,
        ) is None,
{
    dialects::lemma_names_differ();
    assert(sqlite_udf::UNARY_UDFS@[0]@ == "sentiment"@);
    assert(sqlite_udf::UNARY_UDFS@[1]@ == "summarize"@);
    assert(sqlite_udf::UNARY_UDFS@[2]@ == "extract_entities"@);
    assert(sqlite_udf::UNARY_UDFS@[3]@ == "generate_text"@);
    assert(sqlite_udf::UNARY_UDFS@[4]@ == "generate_embedding"@);
    assert(sqlite_udf::UNARY_UDFS@[5]@ == "get_facts"@);
    assert(sqlite_udf::UNARY_UDFS@[6]@ == "identify_groups"@);
    assert(sqlite_udf::UNARY_UDFS@[7]@ == "classify"@);
    assert(sqlite_udf::UNARY_UDFS@[8]@ == "extract_json"@);
    assert(sqlite_udf::UNARY_UDFS@[9]@ == "detect_language"@);
    assert(sqlite_udf::UNARY_UDFS@[10]@ == "generate_code"@);
    assert(sqlite_udf::UNARY_UDFS@[11]@ == "criticize"@);
    assert(sqlite_udf::UNARY_UDFS@[12]@ == "synthesize"@);
    assert(sqlite_udf::UNARY_UDFS@[13]@ == "breathe"@);
    assert(sqlite_udf::UNARY_UDFS@[14]@ == "zoom_in"@);
    assert(sqlite_udf::BINARY_UDFS@[0]@ == "translate"@);
    assert(sqlite_udf::BINARY_UDFS@[1]@ == "classify_into"@);
    assert(sqlite_udf::BINARY_UDFS@[2]@ == "answer_question"@);
}

/// Where the backend is OpenAI and no API key is known, nothing is sent, and
/// otherwise something is.
pub proof fn law_request_needs_key(config: LlmConfigView, prompt: Seq<char>)
    ensures
        match sqlite_udf::request_for(config, prompt) {
            Ok(_) => config.backend != "openai"@ || config.api_key is Some,
            Err(message) => config.backend == "openai"@ && config.api_key is None && message
                == "API key not set"@,
        },
{
}

/// Whatever the backend, a request goes to the address of the configuration,
/// names its model and carries the prompt as it is. To OpenAI it goes with the
/// API key, and asks for no more than so many tokens; to any other backend it
/// goes as one to Ollama, for a reply in one piece.
pub proof fn law_request_follows_config(config: LlmConfigView, prompt: Seq<char>)
    ensures
        sqlite_udf::request_for(config, prompt) matches Ok(request) ==> match request {
            RequestView::Ollama { api_url, model, prompt: sent, stream } => {
                &&& config.backend != "openai"@
                &&& api_url == config.api_url
                &&& model == config.model
                &&& sent == prompt
                &&& !stream
            },
            RequestView::OpenAi { api_url, authorization, model, prompt: sent, max_tokens } => {
                &&& config.backend == "openai"@
                &&& api_url == config.api_url
                &&& model == config.model
                &&& sent == prompt
                &&& max_tokens == 512
                &&& config.api_key matches Some(key) && authorization == "Bearer "@ + key
            },
        },
{
}

/// What is set in the environment counts: the backend, the address and the model
/// that it names are those of the configuration.
pub proof fn law_environment_counts(vars: LlmVars)
    ensures
        ({
            let config = sqlite_udf::config_from(vars);
            &&& vars.backend matches Some(backend) ==> config.backend == backend@
            &&& vars.api_url matches Some(url) ==> config.api_url == url@
            &&& vars.model matches Some(model) ==> config.model == model@
        }),
{
}

/// What is not set in the environment has a default: Ollama as the backend, and
/// an address and a model that go with the backend.
pub proof fn law_environment_defaults(vars: LlmVars)
    ensures
        ({
            let config = sqlite_udf::config_from(vars);
            let openai = config.backend == "openai"@;
            &&& vars.backend is None ==> config.backend == "ollama"@
            &&& vars.api_url is None && openai ==> config.api_url
                == "https://api.openai.com/v1/chat/completions"@
            &&& vars.api_url is None && !openai ==> config.api_url
                == "http://localhost:11434/api/generate"@
            &&& vars.model is None && openai ==> config.model == "gpt-4o-mini"@
            &&& vars.model is None && !openai ==> config.model == "llama3.2"@
        }),
{
}

/// The API key is that of OpenAI where it is set, else that of Anthropic, else
/// that of Gemini, and none where none is set.
pub proof fn law_environment_key(vars: LlmVars)
    ensures
        ({
            let key = sqlite_udf::config_from(vars).api_key;
            match (vars.openai_api_key, vars.anthropic_api_key, vars.gemini_api_key) {
                (Some(openai), _, _) => key == Some(openai@),
                (None, Some(anthropic), _) => key == Some(anthropic@),
                (None, None, Some(gemini)) => key == Some(gemini@),
                (None, None, None) => key is None,
            }
        }),
{
}

/// What the environment names is what is sent: a request goes to the address and
/// names the model that are set.
pub proof fn law_environment_reaches_request(vars: LlmVars, prompt: Seq<char>)
    requires
        vars.api_url is Some,
        vars.model is Some,
    ensures
        sqlite_udf::request_for(sqlite_udf::config_from(vars), prompt) matches Ok(request) ==> ({
            let url = vars.api_url->Some_0@;
            let model = vars.model->Some_0@;
            match request {
                RequestView::Ollama { api_url, model: named, prompt: sent, .. } => api_url == url
                    && named == model && sent == prompt,
                RequestView::OpenAi { api_url, model: named, prompt: sent, .. } => api_url == url
                    && named == model && sent == prompt,
            }
        }),
{
    law_environment_counts(vars);
    law_request_follows_config(sqlite_udf::config_from(vars), prompt);
}

/// The content of a reply is looked for where the backend puts it: Ollama as its
/// response, OpenAI as the content of the message of its first choice.
pub proof fn law_content_is_where_backend_puts_it(request: RequestView)
    ensures
        ({
            let steps = sqlite_udf::content_steps(request);
            &&& request is Ollama ==> steps.len() == 1 && steps[0] == StepView::Field("response"@)
            &&& request is OpenAi ==> {
                &&& steps.len() == 4
                &&& steps[0] == StepView::Field("choices"@)
                &&& steps[1] == StepView::Item(0)
                &&& steps[2] == StepView::Field("message"@)
                &&& steps[3] == StepView::Field("content"@)
            }
        }),
{
}

/// A reply is its content without the white space around it: what was left off
/// at either end is white space, and no white space is left there. A reply
/// without content is an error that names what is missing.
pub proof fn law_reply_is_content(request: RequestView, content: Option<Seq<char>>)
    ensures
        content is Some <==> sqlite_udf::reply_to(request, content) is Ok,
        content is Some ==> exists|i: int| #[trigger]
            is_left(content->Some_0, i, sqlite_udf::reply_to(request, content)->Ok_0),
        content is None && request is Ollama ==> sqlite_udf::reply_to(request, content)->Err_0
            == "No response"@,
        content is None && request is OpenAi ==> sqlite_udf::reply_to(request, content)->Err_0
            == "No content"@,
{
    if content is Some {
        let i = law_trimmed(content->Some_0);
        let reply = sqlite_udf::reply_to(request, content)->Ok_0;
        assert(reply == text::trimmed(content->Some_0));
        assert(is_left(content->Some_0, i, reply));
    }
}

/// Whether `part` stands in `s` at the place `i`, with nothing but white space
/// before and behind it, and none at its own ends.
pub open spec fn is_left(s: Seq<char>, i: int, part: Seq<char>) -> bool {
    &&& pattern::stands_at(s, i, part)
    &&& pattern::is_blank(s.take(i))
    &&& pattern::is_blank(s.skip(i + part.len()))
    &&& part.len() > 0 ==> !text::is_white_space(part[0]) && !text::is_white_space(part.last())
}

/// A trimmed text is the part of a text that is left where white space is taken
/// off at both ends.
pub proof fn law_trimmed(s: Seq<char>) -> (i: int)
    ensures
        is_left(s, i, text::trimmed(s)),
{
    let i = lemma_trimmed_start(s);
    let rest = s.skip(i);
    let n = lemma_trimmed_end(rest);
    let res = text::trimmed(s);
    assert(res =~= s.subrange(i, i + n));
    assert(s.skip(i + n) =~= rest.skip(n));
    arguments::lemma_trimmed_ends(s);
    i
}

proof fn lemma_trimmed_start(s: Seq<char>) -> (i: int)
    ensures
        0 <= i <= s.len(),
        text::trimmed_start(s) == s.skip(i),
        pattern::is_blank(s.take(i)),
    decreases s.len(),
{
    if s.len() > 0 && text::is_white_space(s[0]) {
        let j = lemma_trimmed_start(s.drop_first());
        assert(s.drop_first().skip(j) =~= s.skip(j + 1));
        assert forall|k: int| 0 <= k < j + 1 implies text::is_white_space(
            #[trigger] s.take(j + 1)[k],
        ) by {
            if k > 0 {
                assert(s.drop_first().take(j)[k - 1] == s[k]);
            }
        }
        j + 1
    } else {
        assert(s.skip(0) =~= s);
        0
    }
}

proof fn lemma_trimmed_end(s: Seq<char>) -> (n: int)
    ensures
        0 <= n <= s.len(),
        text::trimmed_end(s) == s.take(n),
        pattern::is_blank(s.skip(n)),
    decreases s.len(),
{
    if s.len() > 0 && text::is_white_space(s.last()) {
        let n = lemma_trimmed_end(s.drop_last());
        assert(s.drop_last().take(n) =~= s.take(n));
        assert forall|k: int| 0 <= k < s.len() - n implies text::is_white_space(
            #[trigger] s.skip(n)[k],
        ) by {
            if n + k < s.len() - 1 {
                assert(s.drop_last().skip(n)[k] == s[n + k]);
            }
        }
        n
    } else {
        assert(s.take(s.len() as int) =~= s);
        s.len() as int
    }
}

/// What is said where a request could not be sent names the backend, and then
/// says why.
pub proof fn law_send_error_names_backend(request: RequestView, error: Seq<char>)
    ensures
        request is Ollama ==> sqlite_udf::send_error(request, error) == "Ollama: "@ + error,
        request is OpenAi ==> sqlite_udf::send_error(request, error) == "OpenAI: "@ + error,
{
}

/// The value of a function is the reply as it is, and an error is told from it by
/// the word before it.
pub proof fn law_value_is_reply(reply: Seq<char>, error: Seq<char>)
    ensures
        sqlite_udf::value_of(Ok(reply)) == reply,
        sqlite_udf::value_of(Err(error)) == "ERROR: "@ + error,
{
}

}
