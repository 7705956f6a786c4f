//! Chat completions: from a request to a prompt, and from a completion to a reply.
use vstd::prelude::*;

use crate::server::generation::GenResult;
use crate::server::reply::{
    openai_error, ErrorReply, INTERNAL_SERVER_ERROR, SERVICE_UNAVAILABLE,
};
use crate::server::settings::SamplingDefaults;
use crate::server::stop::parse_stop;

verus! {

/// One message of a conversation.
pub struct ChatMessage {
    pub role: String,
    pub content: String,
}

/// A request for a completion. `F` is the type of a number with a fraction.
pub struct ChatCompletionRequest<F> {
    pub model: Option<String>,
    pub messages: Vec<ChatMessage>,
    pub temperature: Option<F>,
    pub top_k: Option<usize>,
    pub top_p: Option<F>,
    pub max_tokens: Option<usize>,
    pub repetition_penalty: Option<F>,
    pub stream: Option<bool>,
    pub stop: Option<serde_json::Value>,
}

/// How a completion is generated.
pub struct GenParams<F> {
    pub prompt_ids: Vec<u32>,
    pub max_tokens: usize,
    pub temperature: F,
    pub top_k: usize,
    pub top_p: F,
    pub rep_penalty: F,
    pub stop_strings: Vec<String>,
    pub ctx_len: usize,
    pub prefill_batch: usize,
}

/// What a request asks for, or the default.
pub open spec fn asked_or<T>(asked: Option<T>, default: T) -> T {
    match asked {
        Some(v) => v,
        None => default,
    }
}

fn pick<T: Copy>(asked: Option<T>, default: T) -> (picked: T)
    ensures
        picked == asked_or(asked, default),
{
    match asked {
        Some(v) => v,
        None => default,
    }
}

impl<F: Copy> ChatCompletionRequest<F> {
    /// Whether the completion is sent piece by piece.
    pub fn wants_stream(&self) -> (stream: bool)
        ensures
            stream == asked_or(self.stream, false),
    {
        pick(self.stream, false)
    }

    /// How the completion of a prompt is generated: what the request does not say is taken from
    /// the defaults.
    pub fn gen_params(
        &self,
        defaults: &SamplingDefaults<F>,
        prompt_ids: Vec<u32>,
    ) -> (p: GenParams<F>)
        ensures
            p.prompt_ids == prompt_ids,
            p.max_tokens == asked_or(self.max_tokens, defaults.max_tokens),
            p.temperature == asked_or(self.temperature, defaults.temperature),
            p.top_k == asked_or(self.top_k, defaults.top_k),
            p.top_p == asked_or(self.top_p, defaults.top_p),
            p.rep_penalty == asked_or(self.repetition_penalty, defaults.repetition_penalty),
            p.stop_strings.deep_view() == crate::server::stop::stop_texts_of(self.stop),
            p.ctx_len == defaults.ctx_len,
            p.prefill_batch == defaults.prefill_batch,
    {
        GenParams {
            prompt_ids,
            max_tokens: pick(self.max_tokens, defaults.max_tokens),
            temperature: pick(self.temperature, defaults.temperature),
            top_k: pick(self.top_k, defaults.top_k),
            top_p: pick(self.top_p, defaults.top_p),
            rep_penalty: pick(self.repetition_penalty, defaults.repetition_penalty),
            stop_strings: parse_stop(self.stop.as_ref()),
            ctx_len: defaults.ctx_len,
            prefill_batch: defaults.prefill_batch,
        }
    }
}

/// The reply where no model is loaded.
pub fn no_model() -> (reply: ErrorReply)
    ensures
        reply.says(SERVICE_UNAVAILABLE, "no_model"@, "No model loaded"@),
{
    openai_error(SERVICE_UNAVAILABLE, "no_model", "No model loaded".to_owned())
}

/// The reply where generating a completion failed.
pub fn server_error(message: String) -> (reply: ErrorReply)
    ensures
        reply.says(INTERNAL_SERVER_ERROR, "server_error"@, message@),
{
    openai_error(INTERNAL_SERVER_ERROR, "server_error", message)
}

/// How many tokens a completion took.
#[derive(Clone, Copy, Debug, PartialEq, Eq, Structural)]
pub struct Usage {
    pub prompt_tokens: usize,
    pub completion_tokens: usize,
    pub total_tokens: usize,
}

/// A completed message.
pub struct Choice {
    pub index: usize,
    pub message: ChatMessage,
    pub finish_reason: String,
}

/// A completion as a whole.
pub struct ChatCompletion {
    pub id: String,
    pub object: String,
    pub created: u64,
    pub model: String,
    pub choices: Vec<Choice>,
    pub usage: Usage,
}

impl ChatCompletion {
    /// The reply with one choice, the text that was generated.
    pub open spec fn carries(
        self,
        id: Seq<char>,
        created: u64,
        model: Seq<char>,
        result: GenResult,
        prompt_tokens: usize,
    ) -> bool {
        &&& self.id@ == id
        &&& self.object@ == "chat.completion"@
        &&& self.created == created
        &&& self.model@ == model
        &&& self.choices@.len() == 1
        &&& self.choices@[0].index == 0
        &&& self.choices@[0].message.role@ == "assistant"@
        &&& self.choices@[0].message.content@ == result.text@
        &&& self.choices@[0].finish_reason@ == result.finish_reason.text()
        &&& self.usage.prompt_tokens == prompt_tokens
        &&& self.usage.completion_tokens == result.tokens_gen
        &&& self.usage.total_tokens == prompt_tokens + result.tokens_gen
    }
}

/// The model that a reply names: the one that is loaded when it is written, or the one that
/// was loaded when the prompt was.
pub open spec fn reported_model(loaded: Option<Seq<char>>, prompted: Seq<char>) -> Seq<char> {
    match loaded {
        Some(id) => id,
        None => prompted,
    }
}

/// The reply that holds a completion.
pub fn completion(
    id: String,
    created: u64,
    loaded: Option<&str>,
    prompted: &str,
    result: GenResult,
    prompt_tokens: usize,
) -> (reply: ChatCompletion)
    requires
        prompt_tokens + result.tokens_gen <= usize::MAX,
    ensures
        reply.carries(
            id@,
            created,
            reported_model(crate::text::text_of(loaded), prompted@),
            result,
            prompt_tokens,
        ),
{
    let model = match loaded {
        Some(l) => l.to_owned(),
        None => prompted.to_owned(),
    };
    let usage = Usage {
        prompt_tokens,
        completion_tokens: result.tokens_gen,
        total_tokens: prompt_tokens + result.tokens_gen,
    };
    let finish_reason = result.finish_reason.reason();
    let message = ChatMessage { role: "assistant".to_owned(), content: result.text };
    let mut choices: Vec<Choice> = Vec::new();
    choices.push(Choice { index: 0, message, finish_reason });
    ChatCompletion { id, object: "chat.completion".to_owned(), created, model, choices, usage }
}

/// What a piece adds to a message.
pub struct Delta {
    pub role: Option<String>,
    pub content: Option<String>,
}

/// A piece of a message.
pub struct ChoiceDelta {
    pub index: usize,
    pub delta: Delta,
    pub finish_reason: Option<String>,
}

/// A completion that is sent piece by piece: one piece.
pub struct ChatCompletionChunk {
    pub id: String,
    pub object: String,
    pub created: u64,
    pub model: String,
    pub choices: Vec<ChoiceDelta>,
}

impl ChatCompletionChunk {
    /// The piece with this role, content and reason, each of which may be missing.
    pub open spec fn carries(
        self,
        id: Seq<char>,
        created: u64,
        model: Seq<char>,
        role: Option<Seq<char>>,
        content: Option<Seq<char>>,
        finish_reason: Option<Seq<char>>,
    ) -> bool {
        &&& self.id@ == id
        &&& self.object@ == "chat.completion.chunk"@
        &&& self.created == created
        &&& self.model@ == model
        &&& self.choices@.len() == 1
        &&& self.choices@[0].index == 0
        &&& crate::text::owned_text(self.choices@[0].delta.role) == role
        &&& crate::text::owned_text(self.choices@[0].delta.content) == content
        &&& crate::text::owned_text(self.choices@[0].finish_reason) == finish_reason
    }
}

fn chunk(
    id: &str,
    created: u64,
    model: &str,
    delta: Delta,
    finish_reason: Option<String>,
) -> (piece: ChatCompletionChunk)
    ensures
        piece.carries(
            id@,
            created,
            model@,
            crate::text::owned_text(delta.role),
            crate::text::owned_text(delta.content),
            crate::text::owned_text(finish_reason),
        ),
{
    let mut choices: Vec<ChoiceDelta> = Vec::new();
    choices.push(ChoiceDelta { index: 0, delta, finish_reason });
    ChatCompletionChunk {
        id: id.to_owned(),
        object: "chat.completion.chunk".to_owned(),
        created,
        model: model.to_owned(),
        choices,
    }
}

/// The first piece, which says whose message it is.
pub fn opening_chunk(id: &str, created: u64, model: &str) -> (piece: ChatCompletionChunk)
    ensures
        piece.carries(id@, created, model@, Some("assistant"@), None, None),
{
    chunk(id, created, model, Delta { role: Some("assistant".to_owned()), content: None }, None)
}

/// A piece with some text.
pub fn content_chunk(id: &str, created: u64, model: &str, word: String) -> (piece:
    ChatCompletionChunk)
    ensures
        piece.carries(id@, created, model@, None, Some(word@), None),
{
    chunk(id, created, model, Delta { role: None, content: Some(word) }, None)
}

/// The last piece, which says why the completion ended.
pub fn closing_chunk(id: &str, created: u64, model: &str, reason: String) -> (piece:
    ChatCompletionChunk)
    ensures
        piece.carries(id@, created, model@, None, None, Some(reason@)),
{
    chunk(id, created, model, Delta { role: None, content: None }, Some(reason))
}

/// What follows the last piece.
pub fn end_of_stream() -> (text: String)
    ensures
        text@ == "[DONE]"@,
{
    "[DONE]".to_owned()
}

/// What a request says comes before the default.
pub proof fn law_request_before_default<T>(asked: T, default: T)
    ensures
        asked_or(Some(asked), default) == asked,
        asked_or(None, default) == default,
{
}

/// A reply names the model that is loaded when it is written, and the one that the prompt was
/// written for where none is.
pub proof fn law_reply_names_the_loaded_model(loaded: Seq<char>, prompted: Seq<char>)
    ensures
        reported_model(Some(loaded), prompted) == loaded,
        reported_model(None, prompted) == prompted,
{
}

/// A reply reads back as what was generated: one choice, the assistant's, with the text and the
/// reason, and the tokens of prompt and completion counted apart and together.
pub proof fn law_reply_reads_back(
    reply: ChatCompletion,
    id: Seq<char>,
    created: u64,
    model: Seq<char>,
    result: GenResult,
    prompt_tokens: usize,
)
    requires
        reply.carries(id, created, model, result, prompt_tokens),
    ensures
        reply.id@ == id,
        reply.object@ == "chat.completion"@,
        reply.created == created,
        reply.model@ == model,
        reply.choices@.len() == 1,
        reply.choices@[0].index == 0,
        reply.choices@[0].message.role@ == "assistant"@,
        reply.choices@[0].message.content@ == result.text@,
        result.finish_reason == crate::server::generation::Finish::Stop
            ==> reply.choices@[0].finish_reason@ == "stop"@,
        result.finish_reason == crate::server::generation::Finish::Length
            ==> reply.choices@[0].finish_reason@ == "length"@,
        reply.usage.prompt_tokens == prompt_tokens,
        reply.usage.completion_tokens == result.tokens_gen,
        reply.usage.total_tokens == reply.usage.prompt_tokens + reply.usage.completion_tokens,
{
}

/// A piece reads back as what was put into it.
pub proof fn law_piece_reads_back(
    piece: ChatCompletionChunk,
    id: Seq<char>,
    created: u64,
    model: Seq<char>,
    role: Option<Seq<char>>,
    content: Option<Seq<char>>,
    finish_reason: Option<Seq<char>>,
)
    requires
        piece.carries(id, created, model, role, content, finish_reason),
    ensures
        piece.id@ == id,
        piece.object@ == "chat.completion.chunk"@,
        piece.created == created,
        piece.model@ == model,
        piece.choices@.len() == 1,
        piece.choices@[0].index == 0,
        match piece.choices@[0].delta.role {
            Some(text) => role == Some(text@),
            None => role is None,
        },
        match piece.choices@[0].delta.content {
            Some(text) => content == Some(text@),
            None => content is None,
        },
        match piece.choices@[0].finish_reason {
            Some(text) => finish_reason == Some(text@),
            None => finish_reason is None,
        },
{
}

} // verus!
