//! What holds of many requests that swap at the same time.
//!
//! Each request has a swap of its own. A swap takes its turn only while no other holds the turn,
//! and one that loads a model holds the turn until loading ends.
use vstd::prelude::*;

use crate::server::catalog::ModelConfig;
use crate::server::hotswap::{Swap, SwapAction, SwapStage};

verus! {

/// Swaps under way, and what is loaded.
pub struct Calls {
    pub swaps: Seq<Swap>,
    /// The latest action of each swap.
    pub actions: Seq<SwapAction>,
    /// The swap that holds the turn.
    pub turn: Option<int>,
    /// The place of the model that is loaded.
    pub loaded: Option<int>,
    /// How many models were loaded, or began to load.
    pub loads: nat,
}

impl Calls {
    /// Only swap `k` went on, and its action alone changed what is loaded.
    pub open spec fn only(self, before: Calls, k: int) -> bool {
        &&& 0 <= k < before.swaps.len()
        &&& self.swaps == before.swaps.update(k, self.swaps[k])
        &&& self.actions == before.actions.update(k, self.actions[k])
        &&& self.loaded == crate::server::hotswap::slot_after(
            self.actions[k],
            before.loaded,
            before.swaps[k].model as int,
        )
    }

    /// Swap `k` takes its turn; it holds the turn where it loads a model.
    pub open spec fn takes_turn(self, before: Calls, all: Seq<ModelConfig>, k: int) -> bool {
        &&& self.only(before, k)
        &&& before.turn is None
        &&& before.swaps[k].stage == SwapStage::Waiting
        &&& self.swaps[k].took_turn(before.swaps[k], all, before.loaded, self.actions[k])
        &&& if self.swaps[k].stage == SwapStage::Loading {
            self.turn == Some(k) && self.loads == before.loads + 1
        } else {
            self.turn is None && self.loads == before.loads
        }
    }

    /// Swap `k`, which holds the turn, ends loading without a failure and gives the turn back.
    pub open spec fn ends_load(self, before: Calls, all: Seq<ModelConfig>, k: int) -> bool {
        &&& self.only(before, k)
        &&& before.turn == Some(k)
        &&& before.swaps[k].stage == SwapStage::Loading
        &&& self.swaps[k].ended(before.swaps[k], None, self.actions[k])
        &&& self.turn is None
        &&& self.loads == before.loads
    }

    /// One swap goes on by one step.
    pub open spec fn steps(self, before: Calls, all: Seq<ModelConfig>) -> bool {
        exists|k: int| #[trigger]
            self.takes_turn(before, all, k) || self.ends_load(before, all, k)
    }

    /// Nothing has happened yet: all swaps are for the same request, and wait.
    pub open spec fn is_start(
        self,
        all: Seq<ModelConfig>,
        default_ctx_len: usize,
        request: Seq<char>,
    ) -> bool {
        &&& self.actions.len() == self.swaps.len()
        &&& forall|k: int|
            0 <= k < self.swaps.len() ==> (#[trigger] self.swaps[k]).is_for(
                all,
                default_ctx_len,
                request,
                SwapStage::Waiting,
            )
        &&& self.turn is None
        &&& self.loads == 0
    }

    /// What every state keeps, if `first` was loaded at the start and the request picks the
    /// model with index `i`.
    spec fn keeps(
        self,
        request: Seq<char>,
        i: int,
        first: Option<int>,
    ) -> bool {
        &&& self.actions.len() == self.swaps.len()
        &&& forall|k: int|
            0 <= k < self.swaps.len() ==> {
                &&& (#[trigger] self.swaps[k]).request@ == request
                &&& self.swaps[k].model == i
                &&& self.swaps[k].stage == SwapStage::Loading <==> self.turn == Some(k)
                &&& self.swaps[k].stage == SwapStage::Over ==> {
                    &&& self.actions[k] is Reuse || self.actions[k] is Keep
                    &&& self.loads == 1 || first == Some(i)
                }
            }
        &&& self.turn matches Some(k) ==> 0 <= k < self.swaps.len()
        &&& self.loads <= 1
        &&& self.loads == 1 ==> first != Some(i)
        &&& self.loads == 0 ==> self.turn is None && self.loaded == first
        &&& self.loads == 1 ==> self.loaded == (if self.turn is None {
            Some(i)
        } else {
            None
        })
    }
}

/// `states` follow each other, one step at a time.
pub open spec fn is_history(states: Seq<Calls>, all: Seq<ModelConfig>) -> bool {
    forall|n: int|
        0 <= n < states.len() - 1 ==> #[trigger] states[n + 1].steps(states[n], all)
}

proof fn lemma_step(
    before: Calls,
    after: Calls,
    all: Seq<ModelConfig>,
    request: Seq<char>,
    i: int,
    first: Option<int>,
)
    requires
        crate::server::catalog::is_first_match(all, request, i),
        before.keeps(request, i, first),
        after.steps(before, all),
    ensures
        after.keeps(request, i, first),
        after.swaps.len() == before.swaps.len(),
{
    let k = choose|k: int| #[trigger]
        after.takes_turn(before, all, k) || after.ends_load(before, all, k);
    assert(after.only(before, k));
    crate::server::hotswap::law_right_model_serves(all, request, i, before.loaded);
    let s = before.swaps[k];
    assert(s.request@ == request && s.model == i);
    assert forall|j: int| 0 <= j < after.swaps.len() implies {
        &&& (#[trigger] after.swaps[j]).request@ == request
        &&& after.swaps[j].model == i
        &&& after.swaps[j].stage == SwapStage::Loading <==> after.turn == Some(j)
        &&& after.swaps[j].stage == SwapStage::Over ==> {
            &&& after.actions[j] is Reuse || after.actions[j] is Keep
            &&& after.loads == 1 || first == Some(i)
        }
    } by {
        assert(before.swaps[j].model == i);
        if j != k {
            assert(after.swaps[j] == before.swaps[j]);
            assert(after.actions[j] == before.actions[j]);
        }
    }
}

proof fn lemma_history(
    states: Seq<Calls>,
    all: Seq<ModelConfig>,
    default_ctx_len: usize,
    request: Seq<char>,
    i: int,
    n: int,
)
    requires
        crate::server::catalog::is_first_match(all, request, i),
        is_history(states, all),
        0 <= n < states.len(),
        states[0].is_start(all, default_ctx_len, request),
    ensures
        states[n].keeps(request, i, states[0].loaded),
        states[n].swaps.len() == states[0].swaps.len(),
    decreases n,
{
    if n == 0 {
        let s = states[0];
        assert forall|k: int| 0 <= k < s.swaps.len() implies (#[trigger] s.swaps[k]).request@
            == request && s.swaps[k].model == i && s.swaps[k].stage == SwapStage::Waiting by {
            assert(s.swaps[k].is_for(all, default_ctx_len, request, SwapStage::Waiting));
            crate::server::catalog::law_first_match_is_unique(
                all,
                request,
                i,
                s.swaps[k].model as int,
            );
        }
    } else {
        lemma_history(states, all, default_ctx_len, request, i, n - 1);
        assert(states[n - 1 + 1].steps(states[n - 1], all));
        lemma_step(states[n - 1], states[n], all, request, i, states[0].loaded);
    }
}

/// Of any number of requests for the same model at the same time, where loading it works: no two
/// load at once, and at most one loads at all; none does where the model was loaded before, and
/// then what is loaded stays. Once all are over, all have succeeded and the model is loaded.
pub proof fn law_requests_for_one_model_load_it_once(
    states: Seq<Calls>,
    all: Seq<ModelConfig>,
    default_ctx_len: usize,
    request: Seq<char>,
    i: int,
    n: int,
)
    requires
        crate::server::catalog::is_first_match(all, request, i),
        is_history(states, all),
        0 <= n < states.len(),
        states[0].is_start(all, default_ctx_len, request),
    ensures
        forall|j: int, k: int|
            0 <= j < states[n].swaps.len() && 0 <= k < states[n].swaps.len()
                && #[trigger] states[n].swaps[j].stage == SwapStage::Loading
                && #[trigger] states[n].swaps[k].stage == SwapStage::Loading ==> j == k,
        states[n].loads <= 1,
        states[0].loaded == Some(i) ==> states[n].loads == 0 && states[n].loaded
            == states[0].loaded,
        states[n].swaps.len() > 0 && (forall|k: int|
            0 <= k < states[n].swaps.len() ==> (#[trigger] states[n].swaps[k]).stage
                == SwapStage::Over) ==> {
            &&& states[n].loaded == Some(i)
            &&& forall|k: int|
                0 <= k < states[n].swaps.len() ==> (#[trigger] states[n].actions[k]) is Reuse
                    || states[n].actions[k] is Keep
        },
{
    lemma_history(states, all, default_ctx_len, request, i, n);
    let s = states[n];
    if s.swaps.len() > 0 && (forall|k: int|
        0 <= k < s.swaps.len() ==> (#[trigger] s.swaps[k]).stage == SwapStage::Over) {
        assert(s.swaps[0].stage == SwapStage::Over);
        if s.turn is Some {
            assert(s.swaps[s.turn->0].stage == SwapStage::Loading);
        }
        assert forall|k: int| 0 <= k < s.swaps.len() implies (#[trigger] s.actions[k]) is Reuse
            || s.actions[k] is Keep by {
            assert(s.swaps[k].stage == SwapStage::Over);
        }
    }
}

} // verus!
