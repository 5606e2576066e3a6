//! What the remote language model is asked and what is made of its reply.
//! Sending the request is left to the caller.

use vstd::prelude::*;
use vstd::string::*;

verus! {

/// The settings of the remote model, as the configuration file gives them.
#[derive(Debug, Clone, PartialEq, Eq)]
pub struct LlmSettings {
    pub api_base: String,
    pub api_key: String,
    pub model: String,
    pub max_tokens: u32,
    pub timeout: u64,
}

/// What the user interface shows of the settings.
#[derive(Debug, Clone, PartialEq, Eq)]
pub struct LlmConfigInfo {
    pub api_base: String,
    pub model: String,
    pub configured: bool,
}

/// Why a query of the remote model gave no text.
#[derive(Debug, Clone, Copy, PartialEq, Eq)]
pub enum LlmError {
    /// No settings have been loaded.
    NotConfigured,
    /// The reply holds no choice.
    NoReply,
}

/// A request to the chat endpoint of the remote model.
#[derive(Debug, Clone, PartialEq, Eq)]
pub struct ChatRequest {
    /// The address of the endpoint.
    pub url: String,
    /// The value of the `Authorization` header.
    pub authorization: String,
    pub model: String,
    /// The one message of the request, sent in the role of the user.
    pub prompt: String,
    pub max_tokens: u32,
    /// The time allowed for the request, in seconds.
    pub timeout: u64,
}

/// The greatest number of tokens of a reply, where the settings name none.
pub fn default_max_tokens() -> (tokens: u32)
    ensures
        tokens == 2048,
{
    2048
}

/// The time allowed for a request in seconds, where the settings name none.
pub fn default_timeout() -> (seconds: u64)
    ensures
        seconds == 30,
{
    30
}

/// A text without the slashes at its end.
pub open spec fn without_slashes(text: Seq<char>) -> Seq<char>
    decreases text.len(),
{
    if text.len() > 0 && text.last() == '/' {
        without_slashes(text.drop_last())
    } else {
        text
    }
}

/// The text in front of the word in the prompt.
pub open spec fn prompt_head() -> Seq<char> {
    "请解释英语单词或短语 \""@
}

/// The text behind the word in the prompt.
pub open spec fn prompt_tail() -> Seq<char> {
    "\"，返回 JSON 格式（不要包含 markdown 代码块标记）：\n\n{\n  \"phonetic_us\": \"美式音标，如无则为 null\",\n  \"phonetic_uk\": \"英式音标，如无则为 null\",\n  \"translations\": [\n    { \"pos\": \"词性（如 n. / v. / adj.）\", \"tranCn\": \"中文释义\" }\n  ],\n  \"sentences\": [\n    { \"en\": \"英文例句\", \"cn\": \"中文翻译\" }\n  ],\n  \"phrases\": [\n    { \"phrase\": \"短语\", \"meaning\": \"含义\" }\n  ],\n  \"rememberMethod\": \"记忆技巧或词源说明，如无则为 null\"\n}\n\n要求：\n1. translations 至少包含 1 个释义\n2. sentences 包含 2-3 个例句\n3. phrases 包含常用短语搭配（如有），否则为空数组\n4. 只返回 JSON，不要其他内容"@
}

/// The address of the chat endpoint under an API base.
pub fn chat_url(api_base: &str) -> (url: String)
    ensures
        url@ == without_slashes(api_base@) + "/chat/completions"@,
{
    let mut keep: usize = api_base.unicode_len();
    assert(api_base@.subrange(0, keep as int) =~= api_base@);
    while keep > 0 && api_base.get_char(keep - 1) == '/'
        invariant
            keep <= api_base@.len(),
            without_slashes(api_base@) == without_slashes(api_base@.subrange(0, keep as int)),
        decreases keep,
    {
        assert(api_base@.subrange(0, keep as int).drop_last() =~= api_base@.subrange(
            0,
            keep as int - 1,
        ));
        keep -= 1;
    }
    crate::text::prefix_with(api_base, keep, "/chat/completions")
}

/// The value of the `Authorization` header for an API key.
pub fn authorization(api_key: &str) -> (value: String)
    ensures
        value@ == "Bearer "@ + api_key@,
{
    let mut value = "Bearer ".to_owned();
    value.append(api_key);
    value
}

/// The message that asks the model to explain a word.
pub fn prompt_for(word: &str) -> (prompt: String)
    ensures
        prompt@ == prompt_head() + word@ + prompt_tail(),
{
    let mut prompt = "请解释英语单词或短语 \"".to_owned();
    prompt.append(word);
    prompt.append(
        "\"，返回 JSON 格式（不要包含 markdown 代码块标记）：\n\n{\n  \"phonetic_us\": \"美式音标，如无则为 null\",\n  \"phonetic_uk\": \"英式音标，如无则为 null\",\n  \"translations\": [\n    { \"pos\": \"词性（如 n. / v. / adj.）\", \"tranCn\": \"中文释义\" }\n  ],\n  \"sentences\": [\n    { \"en\": \"英文例句\", \"cn\": \"中文翻译\" }\n  ],\n  \"phrases\": [\n    { \"phrase\": \"短语\", \"meaning\": \"含义\" }\n  ],\n  \"rememberMethod\": \"记忆技巧或词源说明，如无则为 null\"\n}\n\n要求：\n1. translations 至少包含 1 个释义\n2. sentences 包含 2-3 个例句\n3. phrases 包含常用短语搭配（如有），否则为空数组\n4. 只返回 JSON，不要其他内容",
    );
    prompt
}

/// The request that asks the model about `word`; an error while no
/// settings are loaded.
pub fn plan_query(settings: Option<&LlmSettings>, word: &str) -> (plan: Result<
    ChatRequest,
    LlmError,
>)
    ensures
        match settings {
            None => plan == Err::<ChatRequest, LlmError>(LlmError::NotConfigured),
            Some(known) => {
                &&& plan matches Ok(request)
                &&& request.url@ == without_slashes(known.api_base@) + "/chat/completions"@
                &&& request.authorization@ == "Bearer "@ + known.api_key@
                &&& request.model@ == known.model@
                &&& request.prompt@ == prompt_head() + word@ + prompt_tail()
                &&& request.max_tokens == known.max_tokens
                &&& request.timeout == known.timeout
            },
        },
{
    match settings {
        None => Err(LlmError::NotConfigured),
        Some(known) => Ok(
            ChatRequest {
                url: chat_url(known.api_base.as_str()),
                authorization: authorization(known.api_key.as_str()),
                model: known.model.clone(),
                prompt: prompt_for(word),
                max_tokens: known.max_tokens,
                timeout: known.timeout,
            },
        ),
    }
}

/// The text of a reply: the message of its first choice; an error where
/// the reply holds none.
pub fn first_reply(choices: Vec<String>) -> (reply: Result<String, LlmError>)
    ensures
        match reply {
            Ok(text) => choices@.len() > 0 && text == choices@[0],
            Err(error) => choices@.len() == 0 && error == LlmError::NoReply,
        },
{
    if choices.len() > 0 {
        Ok(choices[0].clone())
    } else {
        Err(LlmError::NoReply)
    }
}

/// What the user interface shows of the settings: base address and model
/// where settings are loaded, two empty texts where none are.
pub fn get_llm_config(settings: Option<&LlmSettings>) -> (info: LlmConfigInfo)
    ensures
        match settings {
            Some(known) => info.configured && info.api_base == known.api_base && info.model
                == known.model,
            None => !info.configured && info.api_base@.len() == 0 && info.model@.len() == 0,
        },
{
    match settings {
        Some(known) => LlmConfigInfo {
            api_base: known.api_base.clone(),
            model: known.model.clone(),
            configured: true,
        },
        None => LlmConfigInfo { api_base: String::new(), model: String::new(), configured: false },
    }
}

impl LlmError {
    /// The message that the user interface shows for the error.
    pub fn message(&self) -> (text: String)
        ensures
            text@ == match *self {
                LlmError::NotConfigured => "LLM not configured"@,
                LlmError::NoReply => "No response from LLM"@,
            },
    {
        match self {
            LlmError::NotConfigured => "LLM not configured".to_owned(),
            LlmError::NoReply => "No response from LLM".to_owned(),
        }
    }
}

} // verus!
