//! Which model is loaded, and how one takes the place of another.
//!
//! The server holds one model at a time. A swap waits for its turn, looks again whether the
//! model has come in the meantime, drops the model that is loaded, and loads another. What is
//! decided at each step is decided here; waiting and loading are not.
use vstd::prelude::*;

use crate::server::catalog::{find_model_index, ModelConfig};
use crate::server::reply::{openai_error, ErrorReply, BAD_REQUEST};
use crate::text::join;

verus! {

/// The place of the model that is loaded, if any is, as a number.
pub open spec fn place_of(loaded: Option<usize>) -> Option<int> {
    match loaded {
        Some(i) => Some(i as int),
        None => None,
    }
}

/// The model that is loaded serves the request: it is the one that the request picks. A model is
/// known by its place among all models, since two may have the same id.
pub open spec fn is_served(
    all: Seq<ModelConfig>,
    loaded: Option<int>,
    request: Seq<char>,
) -> bool {
    loaded matches Some(j) && crate::server::catalog::is_first_match(all, request, j)
}

/// Whether the model that is loaded is the one that a request picked.
pub fn is_loaded_pick(picked: Option<usize>, loaded: Option<usize>) -> (same: bool)
    ensures
        same == (picked is Some && loaded == picked),
{
    match (picked, loaded) {
        (Some(i), Some(j)) => i == j,
        _ => false,
    }
}

/// Whether the model that is loaded serves the request.
pub fn already_loaded(all: &[ModelConfig], loaded: Option<usize>, request: &str) -> (served: bool)
    ensures
        served == is_served(all@, place_of(loaded), request@),
{
    let picked = find_model_index(all, request);
    proof {
        if let Some(j) = loaded {
            if crate::server::catalog::is_first_match(all@, request@, j as int) {
                crate::server::catalog::law_first_match_is_unique(
                    all@,
                    request@,
                    j as int,
                    match picked {
                        Some(i) => i as int,
                        None => j as int,
                    },
                );
            }
        }
    }
    is_loaded_pick(picked, loaded)
}

/// A request that names a model needs a swap where the model that is loaded does not serve it.
/// One that names none takes whatever is loaded.
pub open spec fn swap_needed(
    all: Seq<ModelConfig>,
    request: Option<Seq<char>>,
    loaded: Option<int>,
) -> bool {
    match request {
        Some(r) => !is_served(all, loaded, r),
        None => false,
    }
}

/// Whether a model has to be loaded before a request can be answered.
pub fn needs_swap(
    all: &[ModelConfig],
    req_model: Option<&str>,
    loaded: Option<usize>,
) -> (needed: bool)
    ensures
        needed == swap_needed(all@, crate::text::text_of(req_model), place_of(loaded)),
{
    match req_model {
        Some(r) => !already_loaded(all, loaded, r),
        None => false,
    }
}

/// The ids of the models.
pub open spec fn ids(all: Seq<ModelConfig>) -> Seq<Seq<char>> {
    Seq::new(all.len(), |i: int| all[i].id@)
}

/// What is said of a request that names no model.
pub open spec fn unknown_text(all: Seq<ModelConfig>, request: Seq<char>) -> Seq<char> {
    "Model not found: "@ + request + ". Available: "@ + crate::text::joined(ids(all), ", "@)
}

/// How far a swap has come.
#[derive(Clone, Copy, Debug, PartialEq, Eq, Structural)]
pub enum SwapStage {
    /// It waits until no other swap is under way.
    Waiting,
    /// The model is being loaded.
    Loading,
    /// It is over.
    Over,
}

/// What is to be done next.
pub enum SwapAction {
    /// Wait for the turn of this swap, then see which model is loaded.
    TakeTurn,
    /// Drop the model that is loaded, and load the one with this index.
    DropAndLoad { model: usize, ctx_len: usize },
    /// Keep the model that was loaded, and report success.
    Keep,
    /// Leave things as they are, and report success.
    Reuse,
    /// Report the failure.
    Fail { message: String },
}

/// A swap to the model with index `model`.
pub struct Swap {
    pub request: String,
    pub model: usize,
    pub ctx_len: usize,
    pub stage: SwapStage,
}

/// The context length of a model: its own, or the default.
pub open spec fn context_of(m: ModelConfig, default_ctx_len: usize) -> usize {
    match m.ctx_len {
        Some(n) => n,
        None => default_ctx_len,
    }
}

impl Swap {
    /// A swap to the first model that this request names, at this stage.
    pub open spec fn is_for(
        self,
        all: Seq<ModelConfig>,
        default_ctx_len: usize,
        request: Seq<char>,
        stage: SwapStage,
    ) -> bool {
        &&& self.request@ == request
        &&& crate::server::catalog::is_first_match(all, request, self.model as int)
        &&& self.ctx_len == context_of(all[self.model as int], default_ctx_len)
        &&& self.stage == stage
    }

    /// The same swap at another stage.
    pub open spec fn moved(self, before: Swap, stage: SwapStage) -> bool {
        &&& self.request == before.request
        &&& self.model == before.model
        &&& self.ctx_len == before.ctx_len
        &&& self.stage == stage
    }

    /// What `before` becomes when its turn comes: it is over where its model is loaded, and
    /// loads its model otherwise.
    pub open spec fn took_turn(
        self,
        before: Swap,
        all: Seq<ModelConfig>,
        loaded: Option<int>,
        action: SwapAction,
    ) -> bool {
        if is_served(all, loaded, before.request@) {
            self.moved(before, SwapStage::Over) && action is Reuse
        } else {
            self.moved(before, SwapStage::Loading) && action == (SwapAction::DropAndLoad {
                model: before.model,
                ctx_len: before.ctx_len,
            })
        }
    }

    /// What `before` becomes when loading ends: it is over, and reports how loading went.
    pub open spec fn ended(
        self,
        before: Swap,
        failure: Option<String>,
        action: SwapAction,
    ) -> bool {
        &&& self.moved(before, SwapStage::Over)
        &&& match failure {
            None => action is Keep,
            Some(message) => action == (SwapAction::Fail { message }),
        }
    }

    /// Starts a swap, unless the request names no model.
    pub fn begin(all: &[ModelConfig], default_ctx_len: usize, model_id: &str) -> (begun: Result<
        (Swap, SwapAction),
        String,
    >)
        ensures
            match begun {
                Ok((swap, action)) => {
                    &&& swap.is_for(all@, default_ctx_len, model_id@, SwapStage::Waiting)
                    &&& action is TakeTurn
                },
                Err(message) => {
                    &&& crate::server::catalog::is_unknown(all@, model_id@)
                    &&& message@ == unknown_text(all@, model_id@)
                },
            },
    {
        match find_model_index(all, model_id) {
            Some(model) => {
                let ctx_len: usize = match all[model].ctx_len {
                    Some(n) => n,
                    None => default_ctx_len,
                };
                let swap = Swap {
                    request: model_id.to_owned(),
                    model,
                    ctx_len,
                    stage: SwapStage::Waiting,
                };
                Ok((swap, SwapAction::TakeTurn))
            },
            None => Err(unknown_message(all, model_id)),
        }
    }

    /// It is the turn of this swap, and the model at this place, if any, is loaded.
    pub fn turn_came(&mut self, all: &[ModelConfig], loaded: Option<usize>) -> (action: SwapAction)
        requires
            old(self).stage == SwapStage::Waiting,
        ensures
            final(self).took_turn(*old(self), all@, place_of(loaded), action),
    {
        if already_loaded(all, loaded, self.request.as_str()) {
            self.stage = SwapStage::Over;
            SwapAction::Reuse
        } else {
            self.stage = SwapStage::Loading;
            SwapAction::DropAndLoad { model: self.model, ctx_len: self.ctx_len }
        }
    }

    /// Loading ended, with a failure or without one.
    pub fn load_ended(&mut self, failure: Option<String>) -> (action: SwapAction)
        requires
            old(self).stage == SwapStage::Loading,
        ensures
            final(self).ended(*old(self), failure, action),
    {
        self.stage = SwapStage::Over;
        match failure {
            None => SwapAction::Keep,
            Some(message) => SwapAction::Fail { message },
        }
    }
}

fn unknown_message(all: &[ModelConfig], model_id: &str) -> (message: String)
    ensures
        message@ == unknown_text(all@, model_id@),
{
    let mut names: Vec<String> = Vec::new();
    let mut i: usize = 0;
    while i < all.len()
        invariant
            i <= all@.len(),
            names@.len() == i,
            forall|j: int| 0 <= j < i ==> (#[trigger] names@[j])@ == all@[j].id@,
        decreases all@.len() - i,
    {
        names.push(all[i].id.as_str().to_owned());
        i += 1;
    }
    assert(names.deep_view() =~= ids(all@));
    let mut message = "Model not found: ".to_owned();
    message.append(model_id);
    message.append(". Available: ");
    message.append(join(&names, ", ").as_str());
    message
}

/// The place of the model that is loaded after an action, if `loaded` was before it and the swap
/// is for the model at place `model`.
pub open spec fn slot_after(action: SwapAction, loaded: Option<int>, model: int) -> Option<int> {
    match action {
        SwapAction::DropAndLoad { .. } => None,
        SwapAction::Keep => Some(model),
        _ => loaded,
    }
}

/// The actions of a swap to its end: what to do when its turn comes, and when loading ends, if
/// it comes to that.
pub open spec fn runs(
    all: Seq<ModelConfig>,
    swap: Swap,
    loaded: Option<int>,
    failure: Option<String>,
    first: SwapAction,
    second: SwapAction,
) -> bool {
    if is_served(all, loaded, swap.request@) {
        first is Reuse && second is Reuse
    } else {
        &&& first == (SwapAction::DropAndLoad { model: swap.model, ctx_len: swap.ctx_len })
        &&& match failure {
            None => second is Keep,
            Some(message) => second == (SwapAction::Fail { message }),
        }
    }
}

/// A swap whose model came in the meantime changes nothing. Any other leaves the model that
/// the request names where loading succeeds, and no model where it fails.
pub proof fn law_swap_outcome(
    all: Seq<ModelConfig>,
    default_ctx_len: usize,
    request: Seq<char>,
    swap: Swap,
    loaded: Option<int>,
    failure: Option<String>,
    first: SwapAction,
    second: SwapAction,
)
    requires
        swap.is_for(all, default_ctx_len, request, SwapStage::Waiting),
        runs(all, swap, loaded, failure, first, second),
    ensures
        ({
            let i = swap.model as int;
            let end = slot_after(second, slot_after(first, loaded, i), i);
            &&& is_served(all, loaded, request) ==> end == loaded
            &&& !is_served(all, loaded, request) && failure is None ==> end == Some(i)
            &&& !is_served(all, loaded, request) && failure is Some ==> end is None
        }),
{
}

/// After a swap that succeeds, the same request needs no other swap.
pub proof fn law_swap_is_not_repeated(
    all: Seq<ModelConfig>,
    default_ctx_len: usize,
    request: Seq<char>,
    swap: Swap,
    loaded: Option<int>,
    first: SwapAction,
    second: SwapAction,
)
    requires
        swap.is_for(all, default_ctx_len, request, SwapStage::Waiting),
        runs(all, swap, loaded, None, first, second),
    ensures
        ({
            let i = swap.model as int;
            let end = slot_after(second, slot_after(first, loaded, i), i);
            !swap_needed(all, Some(request), end)
        }),
{
}

/// A request is answered without a swap exactly where the model that it picks is loaded.
pub proof fn law_right_model_serves(
    all: Seq<ModelConfig>,
    request: Seq<char>,
    i: int,
    loaded: Option<int>,
)
    requires
        crate::server::catalog::is_first_match(all, request, i),
    ensures
        swap_needed(all, Some(request), loaded) <==> loaded != Some(i),
{
    if let Some(j) = loaded {
        if crate::server::catalog::is_first_match(all, request, j) {
            crate::server::catalog::law_first_match_is_unique(all, request, i, j);
        }
    }
}

/// As long as no model is loaded, every request that names one needs a swap.
pub proof fn law_first_request_swaps(all: Seq<ModelConfig>, request: Seq<char>)
    ensures
        swap_needed(all, Some(request), None),
{
}

/// The reply to a request to load a model.
pub struct LoadReply {
    pub status: String,
    pub model: String,
}

/// The reply to a request to load `model`, from what became of the swap.
pub fn load_reply(model: String, outcome: Result<(), String>) -> (reply: Result<
    LoadReply,
    ErrorReply,
>)
    ensures
        match outcome {
            Ok(_) => reply matches Ok(r) && r.status@ == "loaded"@ && r.model == model,
            Err(message) => reply matches Err(e) && e.says(
                BAD_REQUEST,
                "load_error"@,
                message@,
            ),
        },
{
    match outcome {
        Ok(_) => Ok(LoadReply { status: "loaded".to_owned(), model }),
        Err(message) => Err(openai_error(BAD_REQUEST, "load_error", message)),
    }
}

/// The reply to a completion request whose model could not be loaded.
pub fn model_error(message: String) -> (reply: ErrorReply)
    ensures
        reply.says(BAD_REQUEST, "model_error"@, message@),
{
    openai_error(BAD_REQUEST, "model_error", message)
}

/// A swap whose turn has come loads the model that its request picks, with the context length of
/// that model where it has one of its own and the default otherwise, unless that model is loaded
/// already: then nothing is done.
pub proof fn law_turn_loads_the_picked_model(
    all: Seq<ModelConfig>,
    default_ctx_len: usize,
    request: Seq<char>,
    before: Swap,
    after: Swap,
    loaded: Option<int>,
    i: int,
    action: SwapAction,
)
    requires
        before.is_for(all, default_ctx_len, request, SwapStage::Waiting),
        after.took_turn(before, all, loaded, action),
        crate::server::catalog::is_first_match(all, request, i),
    ensures
        before.request@ == request,
        loaded == Some(i) ==> action is Reuse && after.stage == SwapStage::Over,
        loaded != Some(i) ==> after.stage == SwapStage::Loading && (
        action matches SwapAction::DropAndLoad { model, ctx_len } && model == i && (
        all[i].ctx_len matches Some(own) ==> ctx_len == own) && (all[i].ctx_len is None
            ==> ctx_len == default_ctx_len)),
        after.request@ == request,
        after.model == i,
        after.ctx_len == before.ctx_len,
{
    crate::server::catalog::law_first_match_is_unique(all, request, i, before.model as int);
    law_right_model_serves(all, request, i, loaded);
}

/// Loading that ends without a failure keeps the model; a failure is reported as it came.
pub proof fn law_load_outcome_is_reported(
    before: Swap,
    after: Swap,
    failure: Option<String>,
    action: SwapAction,
)
    requires
        after.ended(before, failure, action),
    ensures
        after.stage == SwapStage::Over,
        after.request@ == before.request@,
        after.model == before.model,
        failure is None <==> action is Keep,
        failure is Some <==> action is Fail,
        action matches SwapAction::Fail { message } ==> failure == Some(message),
{
}

/// What is said of an unknown model repeats the request and lists the ids of all models, in
/// their order.
pub proof fn law_unknown_model_is_answered(all: Seq<ModelConfig>, request: Seq<char>)
    ensures
        unknown_text(all, request) == "Model not found: "@ + request + ". Available: "@
            + crate::text::joined(ids(all), ", "@),
        ids(all).len() == all.len(),
        forall|i: int| 0 <= i < all.len() ==> #[trigger] ids(all)[i] == all[i].id@,
{
}

/// The place of a model is the same number wherever it is spoken of.
pub proof fn law_place_is_kept(loaded: Option<usize>, i: usize)
    ensures
        place_of(loaded) == Some(i as int) <==> loaded == Some(i),
        place_of(loaded) is None <==> loaded is None,
{
}

} // verus!
