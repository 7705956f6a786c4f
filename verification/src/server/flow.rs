//! The way of a completion request through the server.
//!
//! A request may need another model first; then its prompt is written and its completion is
//! generated. At each step the request may be refused. What comes next is decided here.
use vstd::prelude::*;

use crate::server::catalog::ModelConfig;
use crate::server::chat::{completion, no_model, server_error, ChatCompletion};
use crate::server::generation::GenResult;
use crate::server::hotswap::{model_error, needs_swap};
use crate::server::reply::{ErrorReply, BAD_REQUEST, INTERNAL_SERVER_ERROR, SERVICE_UNAVAILABLE};

verus! {

/// How far a request has come.
#[derive(Clone, Copy, Debug, PartialEq, Eq, Structural)]
pub enum FlowStage {
    /// The model that it names is being loaded.
    Swapping,
    /// Its prompt is being written.
    Prompting,
    /// Its completion is being generated.
    Generating,
    /// It was refused.
    Refused,
}

/// What is to be done for a request next.
pub enum FlowAction {
    /// Load the model that the request names.
    Swap { model: String },
    /// See which model is loaded, and write the prompt for it.
    WritePrompt,
    /// Generate the completion, and send it piece by piece or as a whole.
    Generate { stream: bool },
    /// Send this reply.
    Refuse { reply: ErrorReply },
}

/// A completion request on its way.
pub struct ChatFlow {
    pub stream: bool,
    pub stage: FlowStage,
}

impl ChatFlow {
    /// Starts with a request that names this model, if any, while the model at that place, if
    /// any, is loaded.
    pub fn begin(
        all: &[ModelConfig],
        req_model: Option<&str>,
        loaded: Option<usize>,
        stream: bool,
    ) -> (begun: (ChatFlow, FlowAction))
        ensures
            begun.0.stream == stream,
            if crate::server::hotswap::swap_needed(
                all@,
                crate::text::text_of(req_model),
                crate::server::hotswap::place_of(loaded),
            ) {
                begun.0.stage == FlowStage::Swapping && (begun.1 matches FlowAction::Swap { model }
                    && Some(model@) == crate::text::text_of(req_model))
            } else {
                begun.0.stage == FlowStage::Prompting && begun.1 is WritePrompt
            },
    {
        match req_model {
            Some(model) => if needs_swap(all, req_model, loaded) {
                (
                    ChatFlow { stream, stage: FlowStage::Swapping },
                    FlowAction::Swap { model: model.to_owned() },
                )
            } else {
                (ChatFlow { stream, stage: FlowStage::Prompting }, FlowAction::WritePrompt)
            },
            None => (ChatFlow { stream, stage: FlowStage::Prompting }, FlowAction::WritePrompt),
        }
    }

    /// The swap ended.
    pub fn swapped(&mut self, outcome: Result<(), String>) -> (action: FlowAction)
        requires
            old(self).stage == FlowStage::Swapping,
        ensures
            final(self).stream == old(self).stream,
            match outcome {
                Ok(_) => final(self).stage == FlowStage::Prompting && action is WritePrompt,
                Err(message) => final(self).stage == FlowStage::Refused && (
                action matches FlowAction::Refuse { reply } && reply.says(
                    BAD_REQUEST,
                    "model_error"@,
                    message@,
                )),
            },
    {
        match outcome {
            Ok(_) => {
                self.stage = FlowStage::Prompting;
                FlowAction::WritePrompt
            },
            Err(message) => {
                self.stage = FlowStage::Refused;
                FlowAction::Refuse { reply: model_error(message) }
            },
        }
    }

    /// The prompt is to be written, and a model is loaded or is not.
    pub fn saw_model(&mut self, loaded: bool) -> (action: FlowAction)
        requires
            old(self).stage == FlowStage::Prompting,
        ensures
            final(self).stream == old(self).stream,
            if loaded {
                final(self).stage == FlowStage::Generating && action == (FlowAction::Generate {
                    stream: old(self).stream,
                })
            } else {
                final(self).stage == FlowStage::Refused && (
                action matches FlowAction::Refuse { reply } && reply.says(
                    SERVICE_UNAVAILABLE,
                    "no_model"@,
                    "No model loaded"@,
                ))
            },
    {
        if loaded {
            self.stage = FlowStage::Generating;
            FlowAction::Generate { stream: self.stream }
        } else {
            self.stage = FlowStage::Refused;
            FlowAction::Refuse { reply: no_model() }
        }
    }
}

/// The reply to a request whose completion is sent as a whole, from what became of generating
/// it.
pub fn answer(
    outcome: Result<GenResult, String>,
    id: String,
    created: u64,
    loaded: Option<&str>,
    prompted: &str,
    prompt_tokens: usize,
) -> (reply: Result<ChatCompletion, ErrorReply>)
    requires
        outcome matches Ok(r) ==> prompt_tokens + r.tokens_gen <= usize::MAX,
    ensures
        match outcome {
            Ok(r) => reply matches Ok(c) && c.carries(
                id@,
                created,
                crate::server::chat::reported_model(crate::text::text_of(loaded), prompted@),
                r,
                prompt_tokens,
            ),
            Err(message) => reply matches Err(e) && e.says(
                INTERNAL_SERVER_ERROR,
                "server_error"@,
                message@,
            ),
        },
{
    match outcome {
        Ok(result) => Ok(completion(id, created, loaded, prompted, result, prompt_tokens)),
        Err(message) => Err(server_error(message)),
    }
}

} // verus!
