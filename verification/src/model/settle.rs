//! What a model holds once its vectors have been decoded.
use vstd::prelude::*;

use super::config::ModelConfig;
use super::load::{Fetch, FoundWeights, LayerPlan, LoadError, LoadPlan};
use super::weights::{FloatVec, Weights};

verus! {

/// The decoding with this number was done, was required and failed.
pub open spec fn failed(
    fetches: Seq<Fetch>,
    decoded: Seq<Result<usize, String>>,
    i: int,
) -> bool {
    0 <= i < decoded.len() && fetches[i].required && decoded[i] is Err
}

/// Everything was decoded, or everything up to a required decoding that failed.
pub open spec fn ran_to_end(fetches: Seq<Fetch>, decoded: Seq<Result<usize, String>>) -> bool {
    &&& decoded.len() <= fetches.len()
    &&& decoded.len() == fetches.len() || failed(fetches, decoded, decoded.len() - 1)
}

/// The planned decodings were done in order so far, and none of those that are required failed,
/// unless it was the last.
pub open spec fn under_way(fetches: Seq<Fetch>, decoded: Seq<Result<usize, String>>) -> bool {
    &&& decoded.len() <= fetches.len()
    &&& forall|i: int| 0 <= i < decoded.len() - 1 ==> !#[trigger] failed(fetches, decoded, i)
}

/// The tensor to be decoded next: none where all were, or where a required one failed.
pub fn next_fetch(fetches: &Vec<Fetch>, decoded: &Vec<Result<usize, String>>) -> (next: Option<
    Fetch,
>)
    requires
        under_way(fetches@, decoded@),
    ensures
        next is None <==> ran_to_end(fetches@, decoded@),
        next matches Some(f) ==> f == fetches@[decoded@.len() as int],
        next is Some ==> forall|outcome: Result<usize, String>| #[trigger]
            under_way(fetches@, decoded@.push(outcome)),
{
    let n: usize = decoded.len();
    if n == fetches.len() {
        return None;
    }
    if n > 0 && fetches[n - 1].required && decoded[n - 1].is_err() {
        return None;
    }
    proof {
        assert forall|outcome: Result<usize, String>| #[trigger]
            under_way(fetches@, decoded@.push(outcome)) by {
            let more = decoded@.push(outcome);
            assert forall|i: int| 0 <= i < more.len() - 1 implies !#[trigger] failed(
                fetches@,
                more,
                i,
            ) by {
                assert(more[i] == decoded@[i]);
                if i < n - 1 {
                    assert(!failed(fetches@, decoded@, i));
                }
            }
        }
    }
    Some(fetches[n])
}

/// A decoding with this number is planned.
pub open spec fn is_planned(fetches: Seq<Fetch>, number: Option<usize>) -> bool {
    number matches Some(f) ==> f < fetches.len()
}

/// A required decoding with this number is planned.
pub open spec fn is_required(fetches: Seq<Fetch>, number: usize) -> bool {
    number < fetches.len() && fetches[number as int].required
}

/// The vectors of a layer are among the planned decodings, and its norms are required.
pub open spec fn layer_in_range(fetches: Seq<Fetch>, layer: LayerPlan) -> bool {
    &&& is_required(fetches, layer.attn_norm)
    &&& is_required(fetches, layer.ffn_norm)
    &&& is_planned(fetches, layer.q_bias)
    &&& is_planned(fetches, layer.k_bias)
    &&& is_planned(fetches, layer.v_bias)
}

impl LoadPlan {
    /// Every vector that the model needs is among the planned decodings.
    pub open spec fn in_range(self) -> bool {
        self.found matches Ok(w) ==> {
            &&& is_required(self.fetches@, 0)
            &&& forall|i: int|
                0 <= i < w.layers@.len() ==> layer_in_range(self.fetches@, #[trigger] w.layers@[i])
        }
    }
}

/// The vector that a decoding gave.
pub open spec fn vector(decoded: Seq<Result<usize, String>>, number: usize) -> FloatVec {
    FloatVec { fetch: number, len: decoded[number as int]->Ok_0 }
}

/// The bias that a decoding gave: one that cannot be decoded is left out.
pub open spec fn bias_vector(
    decoded: Seq<Result<usize, String>>,
    number: Option<usize>,
) -> Option<FloatVec> {
    match number {
        Some(f) => if decoded[f as int] is Ok {
            Some(vector(decoded, f))
        } else {
            None
        },
        None => None,
    }
}

/// Layer `l` of the weights is the planned one.
pub open spec fn holds_layer(
    w: Weights,
    layer: LayerPlan,
    decoded: Seq<Result<usize, String>>,
    l: int,
) -> bool {
    &&& w.attn_norm@[l] == vector(decoded, layer.attn_norm)
    &&& w.ffn_norm@[l] == vector(decoded, layer.ffn_norm)
    &&& w.attn_q@[l] == layer.attn_q
    &&& w.attn_k@[l] == layer.attn_k
    &&& w.attn_v@[l] == layer.attn_v
    &&& w.attn_out@[l] == layer.attn_out
    &&& w.ffn_gate@[l] == layer.ffn_gate
    &&& w.ffn_up@[l] == layer.ffn_up
    &&& w.ffn_down@[l] == layer.ffn_down
    &&& w.attn_q_bias@[l] == bias_vector(decoded, layer.q_bias)
    &&& w.attn_k_bias@[l] == bias_vector(decoded, layer.k_bias)
    &&& w.attn_v_bias@[l] == bias_vector(decoded, layer.v_bias)
    &&& w.attn_q_f32@[l] == layer.q_rows
    &&& w.attn_k_f32@[l] == layer.k_rows
    &&& w.attn_v_f32@[l] == layer.v_rows
}

/// `w` are the found weights with these vectors.
pub open spec fn is_settled(
    w: Weights,
    found: FoundWeights,
    decoded: Seq<Result<usize, String>>,
) -> bool {
    &&& w.token_embd == found.token_embd
    &&& w.output == found.output
    &&& w.output_norm == vector(decoded, 0)
    &&& w.covers(found.layers@.len())
    &&& forall|l: int|
        0 <= l < found.layers@.len() ==> #[trigger] holds_layer(w, found.layers@[l], decoded, l)
}

/// `result` is what becomes of a plan with these outcomes: the first failure of a required
/// decoding, else the plan's own error, else the weights.
pub open spec fn settles(
    result: Result<Weights, LoadError>,
    plan: LoadPlan,
    decoded: Seq<Result<usize, String>>,
) -> bool {
    if exists|i: int| failed(plan.fetches@, decoded, i) {
        result matches Err(LoadError::Undecodable { fetch, reason }) && failed(
            plan.fetches@,
            decoded,
            fetch as int,
        ) && decoded[fetch as int] == Err::<usize, String>(reason) && forall|j: int|
            0 <= j < fetch ==> !failed(plan.fetches@, decoded, j)
    } else {
        match plan.found {
            Ok(found) => result matches Ok(w) && is_settled(w, found, decoded),
            Err(e) => result == Err::<Weights, LoadError>(e),
        }
    }
}

/// The first `j` layers' decodings come first among those of the first `k`.
pub(crate) proof fn lemma_fetches_prefix(names: Seq<Seq<char>>, j: nat, k: nat)
    requires
        j <= k,
    ensures
        super::load::fetches_before(names, j).len() <= super::load::fetches_before(
            names,
            k,
        ).len(),
        forall|i: int|
            0 <= i < super::load::fetches_before(names, j).len()
                ==> #[trigger] super::load::fetches_before(names, k)[i]
                == super::load::fetches_before(names, j)[i],
    decreases k,
{
    if j < k {
        lemma_fetches_prefix(names, j, (k - 1) as nat);
    }
}

/// What is planned for a file is in range.
pub proof fn lemma_plan_in_range(plan: LoadPlan, names: Seq<Seq<char>>, c: ModelConfig)
    requires
        super::load::is_load_plan(plan, names, c),
    ensures
        plan.in_range(),
{
    if let Ok(w) = plan.found {
        lemma_fetches_prefix(names, 0, c.n_layers as nat);
        assert(plan.fetches@[0] == super::load::fetches_before(names, 0)[0]);
        assert forall|i: int| 0 <= i < w.layers@.len() implies layer_in_range(
            plan.fetches@,
            #[trigger] w.layers@[i],
        ) by {
            let at = super::load::fetches_before(names, i as nat).len() as int;
            let upto = super::load::fetches_before(names, (i + 1) as nat);
            let own = super::load::layer_fetches(names, i);
            lemma_fetches_prefix(names, (i + 1) as nat, c.n_layers as nat);
            assert(upto == super::load::fetches_before(names, i as nat) + own);
            assert(own[0].required && own[1].required);
            assert(upto[at] == own[0] && upto[at + 1] == own[1]);
            assert(plan.fetches@[at] == upto[at]);
            assert(plan.fetches@[at + 1] == upto[at + 1]);
            let q = super::load::bias_fetch(names, i, "attn_q.bias"@);
            let k = super::load::bias_fetch(names, i, "attn_k.bias"@);
            let v = super::load::bias_fetch(names, i, "attn_v.bias"@);
            assert(own.len() == 2 + q.len() + k.len() + v.len());
            assert(plan.fetches@.len() <= usize::MAX) by {
                lemma_vec_len(plan.fetches);
            }
        }
    }
}

/// A vector's length is a machine integer.
pub(crate) proof fn lemma_vec_len(fetches: Vec<Fetch>)
    ensures
        fetches@.len() <= usize::MAX,
{
    assert(fetches@.len() == fetches.len());
}

fn vector_of(decoded: &Vec<Result<usize, String>>, number: usize) -> (vec: FloatVec)
    requires
        number < decoded@.len(),
        decoded@[number as int] is Ok,
    ensures
        vec == vector(decoded@, number),
{
    match &decoded[number] {
        Ok(len) => FloatVec { fetch: number, len: *len },
        Err(_) => FloatVec { fetch: number, len: 0 },
    }
}

fn bias_of(decoded: &Vec<Result<usize, String>>, number: Option<usize>) -> (vec: Option<FloatVec>)
    requires
        number matches Some(f) ==> f < decoded@.len(),
    ensures
        vec == bias_vector(decoded@, number),
{
    match number {
        Some(f) => match &decoded[f] {
            Ok(len) => Some(FloatVec { fetch: f, len: *len }),
            Err(_) => None,
        },
        None => None,
    }
}

/// The first required decoding that failed.
fn first_failure(fetches: &Vec<Fetch>, decoded: &Vec<Result<usize, String>>) -> (first: Option<
    usize,
>)
    requires
        decoded@.len() <= fetches@.len(),
    ensures
        match first {
            Some(i) => failed(fetches@, decoded@, i as int) && forall|j: int|
                0 <= j < i ==> !failed(fetches@, decoded@, j),
            None => forall|j: int| !failed(fetches@, decoded@, j),
        },
{
    let mut i: usize = 0;
    while i < decoded.len()
        invariant
            decoded@.len() <= fetches@.len(),
            i <= decoded@.len(),
            forall|j: int| 0 <= j < i ==> !failed(fetches@, decoded@, j),
        decreases decoded@.len() - i,
    {
        if fetches[i].required && decoded[i].is_err() {
            return Some(i);
        }
        i += 1;
    }
    None
}

/// The weights of the layers with their vectors.
fn gather(found: &FoundWeights, decoded: &Vec<Result<usize, String>>, output_norm: FloatVec) -> (w:
    Weights)
    requires
        decoded@.len() >= 1,
        output_norm == vector(decoded@, 0),
        forall|i: int|
            0 <= i < found.layers@.len() ==> {
                let layer = #[trigger] found.layers@[i];
                &&& layer.attn_norm < decoded@.len()
                &&& layer.ffn_norm < decoded@.len()
                &&& decoded@[layer.attn_norm as int] is Ok
                &&& decoded@[layer.ffn_norm as int] is Ok
                &&& layer.q_bias matches Some(f) ==> f < decoded@.len()
                &&& layer.k_bias matches Some(f) ==> f < decoded@.len()
                &&& layer.v_bias matches Some(f) ==> f < decoded@.len()
            },
    ensures
        is_settled(w, *found, decoded@),
{
    let mut w = Weights {
        token_embd: found.token_embd,
        output_norm,
        output: found.output,
        attn_norm: Vec::new(),
        ffn_norm: Vec::new(),
        attn_q: Vec::new(),
        attn_k: Vec::new(),
        attn_v: Vec::new(),
        attn_out: Vec::new(),
        ffn_gate: Vec::new(),
        ffn_up: Vec::new(),
        ffn_down: Vec::new(),
        attn_q_bias: Vec::new(),
        attn_k_bias: Vec::new(),
        attn_v_bias: Vec::new(),
        attn_q_f32: Vec::new(),
        attn_k_f32: Vec::new(),
        attn_v_f32: Vec::new(),
    };
    let mut i: usize = 0;
    while i < found.layers.len()
        invariant
            decoded@.len() >= 1,
            forall|i: int|
                0 <= i < found.layers@.len() ==> {
                    let layer = #[trigger] found.layers@[i];
                    &&& layer.attn_norm < decoded@.len()
                    &&& layer.ffn_norm < decoded@.len()
                    &&& decoded@[layer.attn_norm as int] is Ok
                    &&& decoded@[layer.ffn_norm as int] is Ok
                    &&& layer.q_bias matches Some(f) ==> f < decoded@.len()
                    &&& layer.k_bias matches Some(f) ==> f < decoded@.len()
                    &&& layer.v_bias matches Some(f) ==> f < decoded@.len()
                },
            i <= found.layers@.len(),
            w.token_embd == found.token_embd,
            w.output == found.output,
            w.output_norm == vector(decoded@, 0),
            w.covers(i as nat),
            forall|l: int|
                0 <= l < i ==> #[trigger] holds_layer(w, found.layers@[l], decoded@, l),
        decreases found.layers@.len() - i,
    {
        let layer = found.layers[i];
        let ghost before = w;
        w.attn_norm.push(vector_of(decoded, layer.attn_norm));
        w.ffn_norm.push(vector_of(decoded, layer.ffn_norm));
        w.attn_q.push(layer.attn_q);
        w.attn_k.push(layer.attn_k);
        w.attn_v.push(layer.attn_v);
        w.attn_out.push(layer.attn_out);
        w.ffn_gate.push(layer.ffn_gate);
        w.ffn_up.push(layer.ffn_up);
        w.ffn_down.push(layer.ffn_down);
        w.attn_q_bias.push(bias_of(decoded, layer.q_bias));
        w.attn_k_bias.push(bias_of(decoded, layer.k_bias));
        w.attn_v_bias.push(bias_of(decoded, layer.v_bias));
        w.attn_q_f32.push(layer.q_rows);
        w.attn_k_f32.push(layer.k_rows);
        w.attn_v_f32.push(layer.v_rows);
        assert forall|l: int| 0 <= l < i + 1 implies #[trigger] holds_layer(
            w,
            found.layers@[l],
            decoded@,
            l,
        ) by {
            if l < i {
                assert(holds_layer(before, found.layers@[l], decoded@, l));
            }
        }
        i += 1;
    }
    w
}

/// What becomes of a plan with the outcomes of its decodings.
pub fn settle(plan: LoadPlan, decoded: &Vec<Result<usize, String>>) -> (result: Result<
    Weights,
    LoadError,
>)
    requires
        plan.in_range(),
        ran_to_end(plan.fetches@, decoded@),
    ensures
        settles(result, plan, decoded@),
{
    match first_failure(&plan.fetches, decoded) {
        Some(fetch) => {
            let reason = match &decoded[fetch] {
                Ok(_) => String::new(),
                Err(reason) => reason.clone(),
            };
            Err(LoadError::Undecodable { fetch, reason })
        },
        None => {
            assert(forall|j: int| !failed(plan.fetches@, decoded@, j));
            assert(decoded@.len() == plan.fetches@.len());
            match plan.found {
                Err(e) => Err(e),
                Ok(found) => {
                    assert(!failed(plan.fetches@, decoded@, 0));
                    assert forall|i: int| 0 <= i < found.layers@.len() implies {
                        let layer = #[trigger] found.layers@[i];
                        &&& decoded@[layer.attn_norm as int] is Ok
                        &&& decoded@[layer.ffn_norm as int] is Ok
                    } by {
                        let layer = found.layers@[i];
                        assert(layer_in_range(plan.fetches@, layer));
                        assert(!failed(plan.fetches@, decoded@, layer.attn_norm as int));
                        assert(!failed(plan.fetches@, decoded@, layer.ffn_norm as int));
                    }
                    let output_norm = vector_of(decoded, 0);
                    Ok(gather(&found, decoded, output_norm))
                },
            }
        },
    }
}

} // verus!
