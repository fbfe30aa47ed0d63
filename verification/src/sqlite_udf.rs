//! The functions that SQLite runs: what they ask a language model, and which
//! model they ask.

use vstd::prelude::*;

use crate::parser;
use crate::text;

verus! {

pub const DEFAULT_OLLAMA_URL: &'static str = "http://localhost:11434/api/generate";

pub const DEFAULT_MODEL: &'static str = "llama3.2";

#[derive(Debug, Clone)]
pub struct LlmConfig {
    pub backend: String,
    pub api_url: String,
    pub model: String,
    pub api_key: Option<String>,
}

/// A [`LlmConfig`] in terms of characters.
pub struct LlmConfigView {
    pub backend: Seq<char>,
    pub api_url: Seq<char>,
    pub model: Seq<char>,
    pub api_key: Option<Seq<char>>,
}

impl View for LlmConfig {
    type V = LlmConfigView;

    open spec fn view(&self) -> LlmConfigView {
        LlmConfigView {
            backend: self.backend@,
            api_url: self.api_url@,
            model: self.model@,
            api_key: parser::option_view(self.api_key),
        }
    }
}

impl Default for LlmConfig {
    fn default() -> (res: Self)
        ensures
            res@ == (LlmConfigView {
                backend: "ollama"@,
                api_url: DEFAULT_OLLAMA_URL@,
                model: DEFAULT_MODEL@,
                api_key: None,
            }),
    {
        LlmConfig {
            backend: "ollama".to_owned(),
            api_url: DEFAULT_OLLAMA_URL.to_owned(),
            model: DEFAULT_MODEL.to_owned(),
            api_key: None,
        }
    }
}

/// The environment variables that choose the language model, each where it is
/// set.
#[derive(Debug)]
pub struct LlmVars {
    /// `NQL_LLM_BACKEND`
    pub backend: Option<String>,
    /// `NQL_API_URL`
    pub api_url: Option<String>,
    /// `NQL_MODEL`
    pub model: Option<String>,
    /// `OPENAI_API_KEY`
    pub openai_api_key: Option<String>,
    /// `ANTHROPIC_API_KEY`
    pub anthropic_api_key: Option<String>,
    /// `GEMINI_API_KEY`
    pub gemini_api_key: Option<String>,
}

/// The characters of an optional string, or `default` where there is none.
pub open spec fn view_or(s: Option<String>, default: Seq<char>) -> Seq<char> {
    match s {
        Some(s) => s@,
        None => default,
    }
}

/// The configuration that environment variables give. The first API key that
/// is set counts.
pub open spec fn config_from(vars: LlmVars) -> LlmConfigView {
    let backend = view_or(vars.backend, "ollama"@);
    let openai = backend == "openai"@;
    LlmConfigView {
        backend,
        api_url: view_or(
            vars.api_url,
            if openai {
                "https://api.openai.com/v1/chat/completions"@
            } else {
                DEFAULT_OLLAMA_URL@
            },
        ),
        model: view_or(
            vars.model,
            if openai {
                "gpt-4o-mini"@
            } else {
                DEFAULT_MODEL@
            },
        ),
        api_key: if vars.openai_api_key is Some {
            parser::option_view(vars.openai_api_key)
        } else if vars.anthropic_api_key is Some {
            parser::option_view(vars.anthropic_api_key)
        } else {
            parser::option_view(vars.gemini_api_key)
        },
    }
}

fn string_or(s: Option<String>, default: &str) -> (res: String)
    ensures
        res@ == view_or(s, default@),
{
    match s {
        Some(s) => s,
        None => default.to_owned(),
    }
}

impl LlmConfig {
    /// The configuration that environment variables give.
    pub fn from_vars(vars: LlmVars) -> (res: Self)
        ensures
            res@ == config_from(vars),
    {
        let backend = string_or(vars.backend, "ollama");
        let api_key = match vars.openai_api_key {
            Some(key) => Some(key),
            None => match vars.anthropic_api_key {
                Some(key) => Some(key),
                None => vars.gemini_api_key,
            },
        };
        let (api_url, model) = if text::same(backend.as_str(), "openai") {
            (
                string_or(vars.api_url, "https://api.openai.com/v1/chat/completions"),
                string_or(vars.model, "gpt-4o-mini"),
            )
        } else {
            (string_or(vars.api_url, DEFAULT_OLLAMA_URL), string_or(vars.model, DEFAULT_MODEL))
        };
        LlmConfig { backend, api_url, model, api_key }
    }
}

/// What is sent to a language model.
#[derive(Debug)]
pub enum LlmRequest {
    Ollama { api_url: String, model: String, prompt: String, stream: bool },
    OpenAi {
        api_url: String,
        authorization: String,
        model: String,
        prompt: String,
        max_tokens: u32,
    },
}

/// A [`LlmRequest`] in terms of characters.
pub enum RequestView {
    Ollama { api_url: Seq<char>, model: Seq<char>, prompt: Seq<char>, stream: bool },
    OpenAi {
        api_url: Seq<char>,
        authorization: Seq<char>,
        model: Seq<char>,
        prompt: Seq<char>,
        max_tokens: u32,
    },
}

impl View for LlmRequest {
    type V = RequestView;

    open spec fn view(&self) -> RequestView {
        match self {
            LlmRequest::Ollama { api_url, model, prompt, stream } => RequestView::Ollama {
                api_url: api_url@,
                model: model@,
                prompt: prompt@,
                stream: *stream,
            },
            LlmRequest::OpenAi { api_url, authorization, model, prompt, max_tokens } =>
            RequestView::OpenAi {
                api_url: api_url@,
                authorization: authorization@,
                model: model@,
                prompt: prompt@,
                max_tokens: *max_tokens,
            },
        }
    }
}

/// What is sent for a prompt, or why nothing can be sent.
pub open spec fn request_for(config: LlmConfigView, prompt: Seq<char>) -> Result<
    RequestView,
    Seq<char>,
> {
    if config.backend == "openai"@ {
        match config.api_key {
            Some(key) => Ok(
                RequestView::OpenAi {
                    api_url: config.api_url,
                    authorization: "Bearer "@ + key,
                    model: config.model,
                    prompt,
                    max_tokens: 512,
                },
            ),
            None => Err("API key not set"@),
        }
    } else {
        Ok(
            RequestView::Ollama {
                api_url: config.api_url,
                model: config.model,
                prompt,
                stream: false,
            },
        )
    }
}

/// What is said where a request could not be sent.
pub open spec fn send_error(request: RequestView, error: Seq<char>) -> Seq<char> {
    match request {
        RequestView::Ollama { .. } => "Ollama: "@ + error,
        RequestView::OpenAi { .. } => "OpenAI: "@ + error,
    }
}

/// The text of a reply, or what is said where it has none.
pub open spec fn reply_to(request: RequestView, content: Option<Seq<char>>) -> Result<
    Seq<char>,
    Seq<char>,
> {
    match content {
        Some(content) => Ok(text::trimmed(content)),
        None => match request {
            RequestView::Ollama { .. } => Err("No response"@),
            RequestView::OpenAi { .. } => Err("No content"@),
        },
    }
}

/// One step into a reply: to the value under a key, or to an item of an array.
#[derive(Debug)]
pub enum ReplyStep {
    Field(String),
    Item(usize),
}

/// A [`ReplyStep`] in terms of characters.
pub enum StepView {
    Field(Seq<char>),
    Item(usize),
}

impl View for ReplyStep {
    type V = StepView;

    open spec fn view(&self) -> StepView {
        match self {
            ReplyStep::Field(key) => StepView::Field(key@),
            ReplyStep::Item(i) => StepView::Item(*i),
        }
    }
}

/// The steps of a path in terms of characters.
pub open spec fn step_views(steps: Seq<ReplyStep>) -> Seq<StepView> {
    steps.map_values(|step: ReplyStep| step@)
}

/// Where the content of the reply to a request stands.
pub open spec fn content_steps(request: RequestView) -> Seq<StepView> {
    match request {
        RequestView::Ollama { .. } => seq![StepView::Field("response"@)],
        RequestView::OpenAi { .. } => seq![
            StepView::Field("choices"@),
            StepView::Item(0),
            StepView::Field("message"@),
            StepView::Field("content"@),
        ],
    }
}

/// Plans what is sent for a prompt.
pub fn plan_request(config: &LlmConfig, prompt: &str) -> (res: Result<LlmRequest, String>)
    ensures
        match res {
            Ok(request) => request_for(config@, prompt@) == Ok::<RequestView, Seq<char>>(request@),
            Err(message) => request_for(config@, prompt@) == Err::<RequestView, Seq<char>>(
                message@,
            ),
        },
{
    if text::same(config.backend.as_str(), "openai") {
        match &config.api_key {
            Some(key) => Ok(
                LlmRequest::OpenAi {
                    api_url: config.api_url.clone(),
                    authorization: text::cat2("Bearer ", key.as_str()),
                    model: config.model.clone(),
                    prompt: prompt.to_owned(),
                    max_tokens: 512,
                },
            ),
            None => Err("API key not set".to_owned()),
        }
    } else {
        Ok(
            LlmRequest::Ollama {
                api_url: config.api_url.clone(),
                model: config.model.clone(),
                prompt: prompt.to_owned(),
                stream: false,
            },
        )
    }
}

impl LlmRequest {
    /// What is said where the request could not be sent.
    pub fn send_error(&self, error: &str) -> (res: String)
        ensures
            res@ == send_error(self@, error@),
    {
        match self {
            LlmRequest::Ollama { .. } => text::cat2("Ollama: ", error),
            LlmRequest::OpenAi { .. } => text::cat2("OpenAI: ", error),
        }
    }

    /// Where the content of the reply stands.
    pub fn content_path(&self) -> (res: Vec<ReplyStep>)
        ensures
            step_views(res@) == content_steps(self@),
    {
        let mut path: Vec<ReplyStep> = Vec::new();
        match self {
            LlmRequest::Ollama { .. } => {
                path.push(ReplyStep::Field("response".to_owned()));
            },
            LlmRequest::OpenAi { .. } => {
                path.push(ReplyStep::Field("choices".to_owned()));
                path.push(ReplyStep::Item(0));
                path.push(ReplyStep::Field("message".to_owned()));
                path.push(ReplyStep::Field("content".to_owned()));
            },
        }
        assert(step_views(path@) =~= content_steps(self@));
        path
    }

    /// The text of the reply, where it has a content.
    pub fn reply(&self, content: Option<&str>) -> (res: Result<String, String>)
        ensures
            ({
                let wanted = reply_to(
                    self@,
                    match content {
                        Some(content) => Some(content@),
                        None => None,
                    },
                );
                match res {
                    Ok(reply) => wanted == Ok::<Seq<char>, Seq<char>>(reply@),
                    Err(message) => wanted == Err::<Seq<char>, Seq<char>>(message@),
                }
            }),
    {
        match content {
            Some(content) => Ok(content.trim().to_owned()),
            None => match self {
                LlmRequest::Ollama { .. } => Err("No response".to_owned()),
                LlmRequest::OpenAi { .. } => Err("No content".to_owned()),
            },
        }
    }
}

/// What is said where a reply could not be parsed.
pub fn parse_error(error: &str) -> (res: String)
    ensures
        res@ == "Parse: "@ + error@,
{
    text::cat2("Parse: ", error)
}

/// The value of a function for a reply or an error.
pub open spec fn value_of(reply: Result<Seq<char>, Seq<char>>) -> Seq<char> {
    match reply {
        Ok(reply) => reply,
        Err(error) => "ERROR: "@ + error,
    }
}

/// The value of a function: the reply, or the error in words.
pub fn udf_value(reply: Result<String, String>) -> (res: String)
    ensures
        res@ == value_of(
            match reply {
                Ok(reply) => Ok(reply@),
                Err(error) => Err(error@),
            },
        ),
        res@ == match reply {
            Ok(reply) => reply@,
            Err(error) => "ERROR: "@ + error@,
        },
{
    match reply {
        Ok(reply) => reply,
        Err(error) => text::cat2("ERROR: ", error.as_str()),
    }
}

/// The functions of one argument that SQLite runs.
pub const UNARY_UDFS: [&'static str; 15] = [
    "sentiment",
    "summarize",
    "extract_entities",
    "generate_text",
    "generate_embedding",
    "get_facts",
    "identify_groups",
    "classify",
    "extract_json",
    "detect_language",
    "generate_code",
    "criticize",
    "synthesize",
    "breathe",
    "zoom_in",
];

/// The functions of two arguments that SQLite runs.
pub const BINARY_UDFS: [&'static str; 3] = [
    "translate",
    "classify_into",
    "answer_question",
];

/// What a function of one argument asks a language model.
pub open spec fn unary_prompt(name: Seq<char>, text: Seq<char>) -> Option<Seq<char>> {
    if name == "sentiment"@ {
        Some("Analyze the sentiment of the following text. Respond with exactly one word: positive, negative, or neutral.\n\n"@ + text)
    } else if name == "summarize"@ {
        Some("Summarize the following text concisely:\n\n"@ + text)
    } else if name == "extract_entities"@ {
        Some("Extract all named entities (people, places, organizations) from the following text. Return as JSON array.\n\n"@ + text)
    } else if name == "generate_text"@ {
        Some(text)
    } else if name == "generate_embedding"@ {
        Some("Generate a semantic embedding description for: "@ + text)
    } else if name == "get_facts"@ {
        Some("Extract facts from this text. A fact is a specific statement that can be sourced from the text.\n\nText: \""@ + text + "\"\n\nReturn as JSON array of objects with \"statement\", \"source_text\", and \"type\" (explicit or inferred) fields."@)
    } else if name == "identify_groups"@ {
        Some("What are the main groups these items could be organized into? Express in plain language.\n\nItems: "@ + text + "\n\nReturn as JSON array of group names."@)
    } else if name == "classify"@ {
        Some("Classify the following text into a category. Return only the category name.\n\n"@ + text)
    } else if name == "extract_json"@ {
        Some("Extract structured data from this text and return as valid JSON:\n\n"@ + text)
    } else if name == "detect_language"@ {
        Some("Detect the language of this text. Return only the ISO 639-1 language code.\n\n"@ + text)
    } else if name == "generate_code"@ {
        Some("Generate code for the following task. Return only the code, no explanation.\n\n"@ + text)
    } else if name == "criticize"@ {
        Some("Provide a critical analysis and constructive criticism of the following:\n"@ + text + "\n\nFocus on identifying weaknesses, potential improvements, and alternative approaches."@)
    } else if name == "synthesize"@ {
        Some("Synthesize this content into a clear, concise summary that captures the essence:\n\n"@ + text)
    } else if name == "breathe"@ {
        Some("Read the following conversation and identify:\n1. The high level objective\n2. The most recent task\n3. The accomplishments thus far\n4. The failures thus far\n\nReturn as JSON with keys: high_level_objective, most_recent_task, accomplishments, failures.\n\n"@ + text)
    } else if name == "zoom_in"@ {
        Some("Look at these facts and infer new implied facts:\n\n"@ + text + "\n\nReturn as JSON array of objects with \"statement\" and \"inferred_from\" fields."@)
    } else {
        None
    }
}

/// What a function of two arguments asks a language model.
pub open spec fn binary_prompt(
    name: Seq<char>,
    first: Seq<char>,
    second: Seq<char>,
) -> Option<Seq<char>> {
    if name == "translate"@ {
        Some("Translate the following text to "@ + second + ":\n\n"@ + first)
    } else if name == "classify_into"@ {
        Some("Classify the following text into one of these categories: "@ + second + ". Return only the category name.\n\n"@ + first)
    } else if name == "answer_question"@ {
        Some("Based on the following context, answer the question.\n\nContext: "@ + first + "\n\nQuestion: "@ + second)
    } else {
        None
    }
}

/// Builds what a function of one argument asks a language model.
pub fn build_unary_prompt(name: &str, input: &str) -> (res: Option<String>)
    ensures
        match res {
            Some(prompt) => unary_prompt(name@, input@) == Some(prompt@),
            None => unary_prompt(name@, input@) is None,
        },
{
    if text::same(name, "sentiment") {
        Some(text::cat2("Analyze the sentiment of the following text. Respond with exactly one word: positive, negative, or neutral.\n\n", input))
    } else if text::same(name, "summarize") {
        Some(text::cat2("Summarize the following text concisely:\n\n", input))
    } else if text::same(name, "extract_entities") {
        Some(text::cat2("Extract all named entities (people, places, organizations) from the following text. Return as JSON array.\n\n", input))
    } else if text::same(name, "generate_text") {
        Some(input.to_owned())
    } else if text::same(name, "generate_embedding") {
        Some(text::cat2("Generate a semantic embedding description for: ", input))
    } else if text::same(name, "get_facts") {
        Some(text::cat3("Extract facts from this text. A fact is a specific statement that can be sourced from the text.\n\nText: \"", input, "\"\n\nReturn as JSON array of objects with \"statement\", \"source_text\", and \"type\" (explicit or inferred) fields."))
    } else if text::same(name, "identify_groups") {
        Some(text::cat3("What are the main groups these items could be organized into? Express in plain language.\n\nItems: ", input, "\n\nReturn as JSON array of group names."))
    } else if text::same(name, "classify") {
        Some(text::cat2("Classify the following text into a category. Return only the category name.\n\n", input))
    } else if text::same(name, "extract_json") {
        Some(text::cat2("Extract structured data from this text and return as valid JSON:\n\n", input))
    } else if text::same(name, "detect_language") {
        Some(text::cat2("Detect the language of this text. Return only the ISO 639-1 language code.\n\n", input))
    } else if text::same(name, "generate_code") {
        Some(text::cat2("Generate code for the following task. Return only the code, no explanation.\n\n", input))
    } else if text::same(name, "criticize") {
        Some(text::cat3("Provide a critical analysis and constructive criticism of the following:\n", input, "\n\nFocus on identifying weaknesses, potential improvements, and alternative approaches."))
    } else if text::same(name, "synthesize") {
        Some(text::cat2("Synthesize this content into a clear, concise summary that captures the essence:\n\n", input))
    } else if text::same(name, "breathe") {
        Some(text::cat2("Read the following conversation and identify:\n1. The high level objective\n2. The most recent task\n3. The accomplishments thus far\n4. The failures thus far\n\nReturn as JSON with keys: high_level_objective, most_recent_task, accomplishments, failures.\n\n", input))
    } else if text::same(name, "zoom_in") {
        Some(text::cat3("Look at these facts and infer new implied facts:\n\n", input, "\n\nReturn as JSON array of objects with \"statement\" and \"inferred_from\" fields."))
    } else {
        None
    }
}

/// Builds what a function of two arguments asks a language model.
pub fn build_binary_prompt(name: &str, first: &str, second: &str) -> (res: Option<String>)
    ensures
        match res {
            Some(prompt) => binary_prompt(name@, first@, second@) == Some(prompt@),
            None => binary_prompt(name@, first@, second@) is None,
        },
{
    if text::same(name, "translate") {
        Some(text::cat4("Translate the following text to ", second, ":\n\n", first))
    } else if text::same(name, "classify_into") {
        Some(text::cat4("Classify the following text into one of these categories: ", second, ". Return only the category name.\n\n", first))
    } else if text::same(name, "answer_question") {
        Some(text::cat4("Based on the following context, answer the question.\n\nContext: ", first, "\n\nQuestion: ", second))
    } else {
        None
    }
}

}
