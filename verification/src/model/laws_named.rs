//! A loaded model holds the tensors that the file names for it.
use vstd::prelude::*;

use super::config::ModelConfig;
use super::load::{Fetch, LoadError, LoadPlan};
use super::weights::{FloatVec, Weights};

verus! {

/// Tensor `t` has this name, and no later one has it.
pub open spec fn is_named(names: Seq<Seq<char>>, name: Seq<char>, t: int) -> bool {
    &&& 0 <= t < names.len()
    &&& names[t] == name
    &&& forall|j: int| t < j < names.len() ==> #[trigger] names[j] != name
}

/// No tensor has this name.
pub open spec fn has_none(names: Seq<Seq<char>>, name: Seq<char>) -> bool {
    forall|j: int| 0 <= j < names.len() ==> #[trigger] names[j] != name
}

/// Tensor `t` has one of these names, and no tensor has any of those before it.
pub open spec fn is_first_named(names: Seq<Seq<char>>, tried: Seq<Seq<char>>, t: int) -> bool {
    exists|i: int|
        0 <= i < tried.len() && is_named(names, #[trigger] tried[i], t) && forall|k: int|
            0 <= k < i ==> has_none(names, #[trigger] tried[k])
}

/// The name of a tensor of layer `l`.
pub open spec fn full_name(l: int, suffix: Seq<char>) -> Seq<char> {
    "blk."@ + crate::text::decimal(l as nat) + "."@ + suffix
}

/// The bias is what became of the decoding of the tensor with this name: it is there if and only
/// if the file has such a tensor and it could be decoded.
pub open spec fn comes_from(
    bias: Option<FloatVec>,
    name: Seq<char>,
    names: Seq<Seq<char>>,
    fetches: Seq<Fetch>,
    decoded: Seq<Result<usize, String>>,
) -> bool {
    if has_none(names, name) {
        bias is None
    } else {
        exists|f: int|
            0 <= f < fetches.len() && is_named(names, name, (#[trigger] fetches[f]).tensor as int)
                && !fetches[f].required && match decoded[f] {
                Ok(len) => bias matches Some(v) && v.fetch == f && v.len == len,
                Err(_) => bias is None,
            }
    }
}

/// The vector is a required decoding of the tensor that has the first of these names.
pub open spec fn is_read_from(
    v: FloatVec,
    tried: Seq<Seq<char>>,
    names: Seq<Seq<char>>,
    fetches: Seq<Fetch>,
    decoded: Seq<Result<usize, String>>,
) -> bool {
    &&& v.fetch < fetches.len()
    &&& is_first_named(names, tried, fetches[v.fetch as int].tensor as int)
    &&& fetches[v.fetch as int].required
    &&& decoded[v.fetch as int] matches Ok(len) && len == v.len
}

proof fn lemma_lookup(names: Seq<Seq<char>>, name: Seq<char>)
    requires
        names.len() <= usize::MAX,
    ensures
        match super::directory::lookup(names, name) {
            Some(t) => is_named(names, name, t as int) && !has_none(names, name),
            None => has_none(names, name),
        },
    decreases names.len(),
{
    if names.len() > 0 {
        let rest = names.drop_last();
        lemma_lookup(rest, name);
        assert(forall|j: int| 0 <= j < rest.len() ==> #[trigger] rest[j] == names[j]);
        if names.last() == name {
            assert(names[names.len() - 1] == name);
        } else if let Some(t) = super::directory::lookup(rest, name) {
            assert(names[t as int] == name);
            assert forall|j: int| t < j < names.len() implies #[trigger] names[j] != name by {
                if j < rest.len() {
                    assert(rest[j] != name);
                }
            }
        } else {
            assert forall|j: int| 0 <= j < names.len() implies #[trigger] names[j] != name by {
                if j < rest.len() {
                    assert(rest[j] != name);
                }
            }
        }
    }
}

proof fn lemma_lookup_any(names: Seq<Seq<char>>, tried: Seq<Seq<char>>)
    requires
        names.len() <= usize::MAX,
    ensures
        super::directory::lookup_any(names, tried) matches Some(t) ==> is_first_named(
            names,
            tried,
            t as int,
        ),
    decreases tried.len(),
{
    if tried.len() > 0 {
        let rest = tried.skip(1);
        lemma_lookup(names, tried[0]);
        lemma_lookup_any(names, rest);
        if let Some(t) = super::directory::lookup_any(names, tried) {
            if super::directory::lookup(names, tried[0]) is None {
                let i = choose|i: int|
                    0 <= i < rest.len() && is_named(names, #[trigger] rest[i], t as int)
                        && forall|k: int| 0 <= k < i ==> has_none(names, #[trigger] rest[k]);
                assert(tried[i + 1] == rest[i]);
                assert forall|k: int| 0 <= k < i + 1 implies has_none(
                    names,
                    #[trigger] tried[k],
                ) by {
                    if k > 0 {
                        assert(rest[k - 1] == tried[k]);
                    }
                }
            }
        }
    }
}

/// The decodings of layer `l` among all.
proof fn lemma_layer_fetches(names: Seq<Seq<char>>, c: ModelConfig, plan: LoadPlan, l: int)
    requires
        super::load::is_load_plan(plan, names, c),
        plan.found is Ok,
        0 <= l < c.n_layers,
    ensures
        ({
            let at = super::load::fetches_before(names, l as nat).len() as int;
            let own = super::load::layer_fetches(names, l);
            &&& at + own.len() <= plan.fetches@.len() <= usize::MAX
            &&& forall|i: int|
                0 <= i < own.len() ==> #[trigger] plan.fetches@[at + i] == own[i]
        }),
{
    let at = super::load::fetches_before(names, l as nat).len() as int;
    let own = super::load::layer_fetches(names, l);
    let upto = super::load::fetches_before(names, (l + 1) as nat);
    super::settle::lemma_fetches_prefix(names, (l + 1) as nat, c.n_layers as nat);
    super::settle::lemma_vec_len(plan.fetches);
    assert(upto == super::load::fetches_before(names, l as nat) + own);
    assert forall|i: int| 0 <= i < own.len() implies #[trigger] plan.fetches@[at + i]
        == own[i] by {
        assert(upto[at + i] == own[i]);
    }
}

/// One bias of a layer whose decodings come after `at` others.
proof fn lemma_bias(
    names: Seq<Seq<char>>,
    l: int,
    suffix: Seq<char>,
    fetches: Seq<Fetch>,
    decoded: Seq<Result<usize, String>>,
    at: int,
    bias: Option<FloatVec>,
)
    requires
        names.len() <= usize::MAX,
        fetches.len() <= usize::MAX,
        ({
            let own = super::load::bias_fetch(names, l, suffix);
            &&& 0 <= at <= at + own.len() <= fetches.len()
            &&& own.len() > 0 ==> fetches[at] == own[0]
            &&& bias == super::settle::bias_vector(decoded, super::load::bias_number(own, at))
        }),
    ensures
        comes_from(bias, full_name(l, suffix), names, fetches, decoded),
{
    let name = full_name(l, suffix);
    lemma_lookup(names, name);
    if !has_none(names, name) {
        assert(is_named(names, name, fetches[at].tensor as int));
    }
}

/// Each bias of a layer is a decoding of the tensor that is called after it, and is left out if
/// and only if the file has no such tensor or it could not be decoded.
pub proof fn law_biases_come_from_their_tensors(
    names: Seq<Seq<char>>,
    c: ModelConfig,
    plan: LoadPlan,
    decoded: Seq<Result<usize, String>>,
    result: Result<Weights, LoadError>,
    l: int,
)
    requires
        super::load::is_load_plan(plan, names, c),
        super::settle::settles(result, plan, decoded),
        names.len() <= usize::MAX,
        result is Ok,
        0 <= l < c.n_layers,
    ensures
        comes_from(
            (result->Ok_0).attn_q_bias@[l],
            full_name(l, "attn_q.bias"@),
            names,
            plan.fetches@,
            decoded,
        ),
        comes_from(
            (result->Ok_0).attn_k_bias@[l],
            full_name(l, "attn_k.bias"@),
            names,
            plan.fetches@,
            decoded,
        ),
        comes_from(
            (result->Ok_0).attn_v_bias@[l],
            full_name(l, "attn_v.bias"@),
            names,
            plan.fetches@,
            decoded,
        ),
{
    let w = result->Ok_0;
    let found = plan.found->Ok_0;
    let fetches = plan.fetches@;
    let at = super::load::fetches_before(names, l as nat).len() as int;
    let own = super::load::layer_fetches(names, l);
    let q = super::load::bias_fetch(names, l, "attn_q.bias"@);
    let k = super::load::bias_fetch(names, l, "attn_k.bias"@);
    let v = super::load::bias_fetch(names, l, "attn_v.bias"@);
    lemma_layer_fetches(names, c, plan, l);
    assert(super::settle::holds_layer(w, found.layers@[l], decoded, l));
    assert(own.len() == 2 + q.len() + k.len() + v.len());
    if q.len() > 0 {
        assert(fetches[at + 2] == own[2]);
        assert(own[2] == q[0]);
    }
    if k.len() > 0 {
        let i = 2 + q.len();
        assert(fetches[at + i] == own[i as int]);
        assert(own[i as int] == k[0]);
    }
    if v.len() > 0 {
        let i = 2 + q.len() + k.len();
        assert(fetches[at + i] == own[i as int]);
        assert(own[i as int] == v[0]);
    }
    lemma_bias(names, l, "attn_q.bias"@, fetches, decoded, at + 2, w.attn_q_bias@[l]);
    lemma_bias(names, l, "attn_k.bias"@, fetches, decoded, at + 2 + q.len(), w.attn_k_bias@[l]);
    lemma_bias(
        names,
        l,
        "attn_v.bias"@,
        fetches,
        decoded,
        at + 2 + q.len() + k.len(),
        w.attn_v_bias@[l],
    );
}

/// The token embedding, the output norm and the output projection are the tensors of these
/// names; the token embedding serves as output projection where the file has none.
pub proof fn law_ends_come_from_their_tensors(
    names: Seq<Seq<char>>,
    c: ModelConfig,
    plan: LoadPlan,
    decoded: Seq<Result<usize, String>>,
    result: Result<Weights, LoadError>,
)
    requires
        super::load::is_load_plan(plan, names, c),
        super::settle::settles(result, plan, decoded),
        super::settle::ran_to_end(plan.fetches@, decoded),
        names.len() <= usize::MAX,
        result is Ok,
    ensures
        is_named(names, "token_embd.weight"@, (result->Ok_0).token_embd as int),
        is_read_from(
            (result->Ok_0).output_norm,
            seq!["output_norm.weight"@],
            names,
            plan.fetches@,
            decoded,
        ),
        is_first_named(
            names,
            seq!["output.weight"@, "token_embd.weight"@],
            (result->Ok_0).output as int,
        ),
{
    let fetches = plan.fetches@;
    let found = plan.found->Ok_0;
    lemma_lookup(names, "token_embd.weight"@);
    lemma_lookup(names, "output_norm.weight"@);
    lemma_lookup(names, "output.weight"@);
    super::settle::lemma_fetches_prefix(names, 0, c.n_layers as nat);
    assert(fetches[0] == super::load::fetches_before(names, 0)[0]);
    assert(!super::settle::failed(fetches, decoded, 0));
    assert(forall|i: int| !super::settle::failed(fetches, decoded, i));
    let one = seq!["output_norm.weight"@];
    assert(one[0] == "output_norm.weight"@);
    assert(is_named(names, one[0], fetches[0].tensor as int));
    let tried = seq!["output.weight"@, "token_embd.weight"@];
    assert(tried[0] == "output.weight"@ && tried[1] == "token_embd.weight"@);
    if super::directory::lookup(names, "output.weight"@) is Some {
        assert(is_named(names, tried[0], found.output as int));
    } else {
        assert(is_named(names, tried[1], found.output as int));
    }
}

/// The norms of a layer are decodings of the tensors that are called after them, under the first
/// of the names that the file has.
pub proof fn law_norms_come_from_their_tensors(
    names: Seq<Seq<char>>,
    c: ModelConfig,
    plan: LoadPlan,
    decoded: Seq<Result<usize, String>>,
    result: Result<Weights, LoadError>,
    l: int,
)
    requires
        super::load::is_load_plan(plan, names, c),
        super::settle::settles(result, plan, decoded),
        super::settle::ran_to_end(plan.fetches@, decoded),
        names.len() <= usize::MAX,
        result is Ok,
        0 <= l < c.n_layers,
    ensures
        is_read_from(
            (result->Ok_0).attn_norm@[l],
            seq![
                full_name(l, "attn_norm.weight"@),
                full_name(l, "pre_attention_layernorm.weight"@),
            ],
            names,
            plan.fetches@,
            decoded,
        ),
        is_read_from(
            (result->Ok_0).ffn_norm@[l],
            seq![
                full_name(l, "ffn_norm.weight"@),
                full_name(l, "post_attention_layernorm.weight"@),
                full_name(l, "post_attention_norm.weight"@),
                full_name(l, "pre_ff_layernorm.weight"@),
            ],
            names,
            plan.fetches@,
            decoded,
        ),
{
    let w = result->Ok_0;
    let found = plan.found->Ok_0;
    let fetches = plan.fetches@;
    let at = super::load::fetches_before(names, l as nat).len() as int;
    let own = super::load::layer_fetches(names, l);
    lemma_layer_fetches(names, c, plan, l);
    assert(super::settle::holds_layer(w, found.layers@[l], decoded, l));
    assert(super::slots::first_gap(names, l) is None);
    assert(fetches[at + 0] == own[0] && fetches[at + 1] == own[1]);
    assert(!super::settle::failed(fetches, decoded, at));
    assert(!super::settle::failed(fetches, decoded, at + 1));
    assert(forall|i: int| !super::settle::failed(fetches, decoded, i));
    let fused = super::slots::is_fused(names, l);
    let tried = super::slots::slot_names(l, super::slots::Slot::AttnNorm, fused);
    assert(tried =~= seq![
        full_name(l, "attn_norm.weight"@),
        full_name(l, "pre_attention_layernorm.weight"@),
    ]);
    lemma_lookup_any(names, tried);
    let tried = super::slots::slot_names(l, super::slots::Slot::FfnNorm, fused);
    assert(tried =~= seq![
        full_name(l, "ffn_norm.weight"@),
        full_name(l, "post_attention_layernorm.weight"@),
        full_name(l, "post_attention_norm.weight"@),
        full_name(l, "pre_ff_layernorm.weight"@),
    ]);
    lemma_lookup_any(names, tried);
}

/// The matrices behind the attention of a layer are the tensors that are called after them, under
/// the first of the names that the file has.
pub proof fn law_matrices_come_from_their_tensors(
    names: Seq<Seq<char>>,
    c: ModelConfig,
    plan: LoadPlan,
    decoded: Seq<Result<usize, String>>,
    result: Result<Weights, LoadError>,
    l: int,
)
    requires
        super::load::is_load_plan(plan, names, c),
        super::settle::settles(result, plan, decoded),
        names.len() <= usize::MAX,
        result is Ok,
        0 <= l < c.n_layers,
    ensures
        is_first_named(
            names,
            seq![
                full_name(l, "attn_output.weight"@),
                full_name(l, "self_attn.o_proj.weight"@),
            ],
            (result->Ok_0).attn_out@[l] as int,
        ),
        is_first_named(
            names,
            seq![
                full_name(l, "ffn_gate.weight"@),
                full_name(l, "mlp.gate_proj.weight"@),
            ],
            (result->Ok_0).ffn_gate@[l] as int,
        ),
        is_first_named(
            names,
            seq![
                full_name(l, "ffn_up.weight"@),
                full_name(l, "mlp.up_proj.weight"@),
            ],
            (result->Ok_0).ffn_up@[l] as int,
        ),
        is_first_named(
            names,
            seq![
                full_name(l, "ffn_down.weight"@),
                full_name(l, "mlp.down_proj.weight"@),
            ],
            (result->Ok_0).ffn_down@[l] as int,
        ),
{
    let w = result->Ok_0;
    let found = plan.found->Ok_0;
    assert(super::settle::holds_layer(w, found.layers@[l], decoded, l));
    assert(super::slots::first_gap(names, l) is None);
    let fused = super::slots::is_fused(names, l);
    let tried = super::slots::slot_names(l, super::slots::Slot::AttnOut, fused);
    assert(tried =~= seq![
        full_name(l, "attn_output.weight"@),
        full_name(l, "self_attn.o_proj.weight"@),
    ]);
    lemma_lookup_any(names, tried);
    let tried = super::slots::slot_names(l, super::slots::Slot::Gate, fused);
    assert(tried =~= seq![
        full_name(l, "ffn_gate.weight"@),
        full_name(l, "mlp.gate_proj.weight"@),
    ]);
    lemma_lookup_any(names, tried);
    let tried = super::slots::slot_names(l, super::slots::Slot::Up, fused);
    assert(tried =~= seq![
        full_name(l, "ffn_up.weight"@),
        full_name(l, "mlp.up_proj.weight"@),
    ]);
    lemma_lookup_any(names, tried);
    let tried = super::slots::slot_names(l, super::slots::Slot::Down, fused);
    assert(tried =~= seq![
        full_name(l, "ffn_down.weight"@),
        full_name(l, "mlp.down_proj.weight"@),
    ]);
    lemma_lookup_any(names, tried);
}

/// The layer lacks a tensor of its own for the queries, the keys or the values.
pub open spec fn lacks_separate(names: Seq<Seq<char>>, l: int) -> bool {
    ||| has_none(names, full_name(l, "attn_q.weight"@)) && has_none(
        names,
        full_name(l, "self_attn.q_proj.weight"@),
    )
    ||| has_none(names, full_name(l, "attn_k.weight"@)) && has_none(
        names,
        full_name(l, "self_attn.k_proj.weight"@),
    )
    ||| has_none(names, full_name(l, "attn_v.weight"@)) && has_none(
        names,
        full_name(l, "self_attn.v_proj.weight"@),
    )
}

/// The query, key and value matrices of a layer are the tensors that are called after them. A
/// layer that lacks one of them takes all three from its fused tensor, as float rows, where it
/// has one.
pub proof fn law_projections_come_from_their_tensors(
    names: Seq<Seq<char>>,
    c: ModelConfig,
    plan: LoadPlan,
    decoded: Seq<Result<usize, String>>,
    result: Result<Weights, LoadError>,
    l: int,
)
    requires
        super::load::is_load_plan(plan, names, c),
        super::settle::settles(result, plan, decoded),
        names.len() <= usize::MAX,
        result is Ok,
        0 <= l < c.n_layers,
    ensures
        !lacks_separate(names, l) ==> {
            let w = result->Ok_0;
            &&& is_first_named(
                names,
                seq![
                full_name(l, "attn_q.weight"@),
                full_name(l, "self_attn.q_proj.weight"@),
            ],
                w.attn_q@[l] as int,
            )
            &&& w.attn_q_f32@[l] is None
            &&& is_first_named(
                names,
                seq![
                full_name(l, "attn_k.weight"@),
                full_name(l, "self_attn.k_proj.weight"@),
            ],
                w.attn_k@[l] as int,
            )
            &&& w.attn_k_f32@[l] is None
            &&& is_first_named(
                names,
                seq![
                full_name(l, "attn_v.weight"@),
                full_name(l, "self_attn.v_proj.weight"@),
            ],
                w.attn_v@[l] as int,
            )
            &&& w.attn_v_f32@[l] is None
        },
        lacks_separate(names, l) ==> {
            let w = result->Ok_0;
            &&& is_named(names, full_name(l, "attn_qkv.weight"@), w.attn_q@[l] as int)
            &&& w.attn_q_f32@[l] matches Some(span) && span.tensor == w.attn_q@[l]
            &&& is_named(names, full_name(l, "attn_qkv.weight"@), w.attn_k@[l] as int)
            &&& w.attn_k_f32@[l] matches Some(span) && span.tensor == w.attn_k@[l]
            &&& is_named(names, full_name(l, "attn_qkv.weight"@), w.attn_v@[l] as int)
            &&& w.attn_v_f32@[l] matches Some(span) && span.tensor == w.attn_v@[l]
        },
{
    let w = result->Ok_0;
    let found = plan.found->Ok_0;
    assert(super::settle::holds_layer(w, found.layers@[l], decoded, l));
    assert(super::slots::first_gap(names, l) is None);
    lemma_lookup(names, full_name(l, "attn_qkv.weight"@));
    let q = super::slots::slot_names(l, super::slots::Slot::Query, false);
    assert(q =~= seq![
                full_name(l, "attn_q.weight"@),
                full_name(l, "self_attn.q_proj.weight"@),
            ]);
    lemma_lookup_any(names, q);
    lemma_lookup_either(
        names,
        full_name(l, "attn_q.weight"@),
        full_name(l, "self_attn.q_proj.weight"@),
    );
    let k = super::slots::slot_names(l, super::slots::Slot::Key, false);
    assert(k =~= seq![
                full_name(l, "attn_k.weight"@),
                full_name(l, "self_attn.k_proj.weight"@),
            ]);
    lemma_lookup_any(names, k);
    lemma_lookup_either(
        names,
        full_name(l, "attn_k.weight"@),
        full_name(l, "self_attn.k_proj.weight"@),
    );
    let v = super::slots::slot_names(l, super::slots::Slot::Value, false);
    assert(v =~= seq![
                full_name(l, "attn_v.weight"@),
                full_name(l, "self_attn.v_proj.weight"@),
            ]);
    lemma_lookup_any(names, v);
    lemma_lookup_either(
        names,
        full_name(l, "attn_v.weight"@),
        full_name(l, "self_attn.v_proj.weight"@),
    );
    let fused = super::slots::slot_names(l, super::slots::Slot::Query, true);
    assert(fused =~= seq![full_name(l, "attn_qkv.weight"@)]);
    lemma_lookup_any(names, fused);
    if super::slots::is_fused(names, l) {
        super::slots::law_fused_layer_has_qkv(names, l);
    }
}

/// Nothing is found under two names if and only if no tensor has either.
proof fn lemma_lookup_either(names: Seq<Seq<char>>, a: Seq<char>, b: Seq<char>)
    requires
        names.len() <= usize::MAX,
    ensures
        super::directory::lookup_any(names, seq![a, b]) is None <==> has_none(names, a)
            && has_none(names, b),
{
    let tried = seq![a, b];
    lemma_lookup(names, a);
    lemma_lookup(names, b);
    let rest = tried.skip(1);
    assert(rest[0] == b);
    assert(super::directory::lookup_any(names, rest.skip(1)) is None);
    assert(super::directory::lookup_any(names, rest) == super::directory::lookup(names, b));
}

/// The first required decoding that failed is reported, with its reason; a decoding that is not
/// required does not make loading fail.
pub proof fn law_first_failure_is_reported(
    plan: LoadPlan,
    decoded: Seq<Result<usize, String>>,
    result: Result<Weights, LoadError>,
    i: int,
)
    requires
        super::settle::settles(result, plan, decoded),
        0 <= i < decoded.len(),
        plan.fetches@[i].required,
        decoded[i] is Err,
        forall|j: int|
            0 <= j < i ==> !(plan.fetches@[j].required && #[trigger] decoded[j] is Err),
    ensures
        result matches Err(LoadError::Undecodable { fetch, reason }) && fetch == i && decoded[i]
            == Err::<usize, String>(reason),
{
    assert(super::settle::failed(plan.fetches@, decoded, i));
    if let Err(LoadError::Undecodable { fetch, reason }) = result {
        if fetch > i {
            assert(!super::settle::failed(plan.fetches@, decoded, i));
        }
        if fetch < i {
            assert(!(plan.fetches@[fetch as int].required && decoded[fetch as int] is Err));
        }
    }
}

/// A tensor that is reported missing is missing. First the token embedding is looked for, then
/// the output norm, then the tensors of the layers, layer by layer; what is reported for a layer
/// are all names of one of its weights, and the layers before it lack nothing. The tensors that
/// are listed with a name are in the file, and begin as the name does up to its second dot.
pub proof fn law_missing_tensors_are_missing(
    names: Seq<Seq<char>>,
    c: ModelConfig,
    plan: LoadPlan,
    error: LoadError,
)
    requires
        super::load::is_load_plan(plan, names, c),
        names.len() <= usize::MAX,
        plan.found == Err::<super::load::FoundWeights, LoadError>(error),
    ensures
        match error {
            LoadError::Missing { name, similar } => {
                &&& has_none(names, name@)
                &&& are_similar(similar, names, name@)
                &&& name@ == "token_embd.weight"@ || name@ == "output_norm.weight"@
                    && !has_none(names, "token_embd.weight"@)
            },
            LoadError::MissingAny { tried, similar } => {
                &&& !has_none(names, "token_embd.weight"@)
                &&& !has_none(names, "output_norm.weight"@)
                &&& are_similar(similar, names, tried.deep_view()[0])
                &&& forall|i: int|
                    0 <= i < tried@.len() ==> has_none(names, #[trigger] tried.deep_view()[i])
                &&& exists|l: int, slot: super::slots::Slot|
                    0 <= l < c.n_layers && tried.deep_view() == #[trigger] names_tried(
                        l,
                        slot,
                        super::slots::is_fused(names, l),
                    ) && forall|j: int|
                        0 <= j < l ==> (#[trigger] super::slots::first_gap(names, j)) is None
            },
            _ => false,
        },
{
    lemma_lookup(names, "token_embd.weight"@);
    lemma_lookup(names, "output_norm.weight"@);
    if let LoadError::Missing { name, similar } = error {
        lemma_are_similar(similar, names, name@);
    }
    if let LoadError::MissingAny { tried, similar } = error {
        let layer = choose|layer: int| #[trigger]
            super::load::is_first_gap(names, c.n_layers as int, layer) && {
                let gap = super::slots::first_gap(names, layer)->0;
                &&& plan.fetches@ == super::load::fetches_before(names, layer as nat)
                    + super::load::gap_fetches(names, layer, gap)
                &&& super::load::is_missing_any(
                    error,
                    names,
                    super::slots::slot_names(layer, gap, super::slots::is_fused(names, layer)),
                )
            };
        let gap = super::slots::first_gap(names, layer)->0;
        let all = super::slots::slot_names(layer, gap, super::slots::is_fused(names, layer));
        assert(tried.deep_view() == all);
        assert(super::slots::slot_tensor(names, layer, gap) is None);
        lemma_all_missing(names, all);
        assert(tried.deep_view().len() == tried@.len());
        lemma_names_tried(layer, gap, super::slots::is_fused(names, layer));
        lemma_are_similar(similar, names, all[0]);
    }
}

/// All of these are tensors of the file that begin as the name does up to its second dot.
pub open spec fn are_similar(
    listed: Vec<String>,
    names: Seq<Seq<char>>,
    name: Seq<char>,
) -> bool {
    &&& listed@.len() <= 8
    &&& forall|i: int|
        0 <= i < listed@.len() ==> names.contains((#[trigger] listed@[i])@)
            && crate::text::begins_with(listed@[i]@, super::directory::stem(name))
}

proof fn lemma_are_similar(listed: Vec<String>, names: Seq<Seq<char>>, name: Seq<char>)
    requires
        super::load::lists_similar(listed, names, name),
    ensures
        are_similar(listed, names, name),
{
    if listed@.len() > 0 {
        law_listed_tensors_are_similar(listed, names, name, 0);
    }
    assert forall|i: int| 0 <= i < listed@.len() implies names.contains(
        (#[trigger] listed@[i])@,
    ) && crate::text::begins_with(listed@[i]@, super::directory::stem(name)) by {
        law_listed_tensors_are_similar(listed, names, name, i);
    }
}

/// The names under which a file may hold a weight of layer `l`.
pub open spec fn names_tried(l: int, slot: super::slots::Slot, fused: bool) -> Seq<Seq<char>> {
    match slot {
        super::slots::Slot::AttnNorm => seq![
            full_name(l, "attn_norm.weight"@),
            full_name(l, "pre_attention_layernorm.weight"@),
        ],
        super::slots::Slot::FfnNorm => seq![
            full_name(l, "ffn_norm.weight"@),
            full_name(l, "post_attention_layernorm.weight"@),
            full_name(l, "post_attention_norm.weight"@),
            full_name(l, "pre_ff_layernorm.weight"@),
        ],
        super::slots::Slot::Query if !fused => seq![
            full_name(l, "attn_q.weight"@),
            full_name(l, "self_attn.q_proj.weight"@),
        ],
        super::slots::Slot::Key if !fused => seq![
            full_name(l, "attn_k.weight"@),
            full_name(l, "self_attn.k_proj.weight"@),
        ],
        super::slots::Slot::Value if !fused => seq![
            full_name(l, "attn_v.weight"@),
            full_name(l, "self_attn.v_proj.weight"@),
        ],
        super::slots::Slot::AttnOut => seq![
            full_name(l, "attn_output.weight"@),
            full_name(l, "self_attn.o_proj.weight"@),
        ],
        super::slots::Slot::Gate => seq![
            full_name(l, "ffn_gate.weight"@),
            full_name(l, "mlp.gate_proj.weight"@),
        ],
        super::slots::Slot::Up => seq![
            full_name(l, "ffn_up.weight"@),
            full_name(l, "mlp.up_proj.weight"@),
        ],
        super::slots::Slot::Down => seq![
            full_name(l, "ffn_down.weight"@),
            full_name(l, "mlp.down_proj.weight"@),
        ],
        _ => seq![full_name(l, "attn_qkv.weight"@)],
    }
}

proof fn lemma_names_tried(l: int, slot: super::slots::Slot, fused: bool)
    ensures
        super::slots::slot_names(l, slot, fused) == names_tried(l, slot, fused),
{
    assert(super::slots::slot_names(l, slot, fused) =~= names_tried(l, slot, fused));
}

/// Where nothing is found under any of the names, no tensor has any of them.
proof fn lemma_all_missing(names: Seq<Seq<char>>, tried: Seq<Seq<char>>)
    requires
        names.len() <= usize::MAX,
        super::directory::lookup_any(names, tried) is None,
    ensures
        forall|i: int| 0 <= i < tried.len() ==> has_none(names, #[trigger] tried[i]),
    decreases tried.len(),
{
    if tried.len() > 0 {
        let rest = tried.skip(1);
        lemma_lookup(names, tried[0]);
        lemma_all_missing(names, rest);
        assert forall|i: int| 0 <= i < tried.len() implies has_none(
            names,
            #[trigger] tried[i],
        ) by {
            if i > 0 {
                assert(rest[i - 1] == tried[i]);
            }
        }
    }
}

/// Decoding goes on until everything is decoded, or until a required tensor could not be.
pub proof fn law_decoding_ends(fetches: Seq<Fetch>, decoded: Seq<Result<usize, String>>)
    requires
        decoded.len() <= fetches.len(),
    ensures
        super::settle::ran_to_end(fetches, decoded) <==> decoded.len() == fetches.len() || (
        decoded.len() > 0 && decoded.last() is Err && fetches[decoded.len() - 1].required),
{
}

/// A layer lacks nothing if and only if each of its weights has a tensor. The one that is reported
/// is the first that has none, in this order: the two norms, queries, keys, values, the output of
/// attention, and the three matrices of the feed-forward block.
pub proof fn law_first_gap_in_order(names: Seq<Seq<char>>, l: int)
    ensures
        ({
            let order = seq![
                super::slots::Slot::AttnNorm,
                super::slots::Slot::FfnNorm,
                super::slots::Slot::Query,
                super::slots::Slot::Key,
                super::slots::Slot::Value,
                super::slots::Slot::AttnOut,
                super::slots::Slot::Gate,
                super::slots::Slot::Up,
                super::slots::Slot::Down,
            ];
            match super::slots::first_gap(names, l) {
                Some(gap) => exists|i: int|
                    0 <= i < 9 && #[trigger] order[i] == gap && super::slots::slot_tensor(
                        names,
                        l,
                        gap,
                    ) is None && forall|j: int|
                        0 <= j < i ==> super::slots::slot_tensor(
                            names,
                            l,
                            #[trigger] order[j],
                        ) is Some,
                None => forall|j: int|
                    0 <= j < 9 ==> super::slots::slot_tensor(
                        names,
                        l,
                        #[trigger] order[j],
                    ) is Some,
            }
        }),
{
    let order = seq![
        super::slots::Slot::AttnNorm,
        super::slots::Slot::FfnNorm,
        super::slots::Slot::Query,
        super::slots::Slot::Key,
        super::slots::Slot::Value,
        super::slots::Slot::AttnOut,
        super::slots::Slot::Gate,
        super::slots::Slot::Up,
        super::slots::Slot::Down,
    ];
    if let Some(gap) = super::slots::first_gap(names, l) {
        let i = match gap {
            super::slots::Slot::AttnNorm => 0int,
            super::slots::Slot::FfnNorm => 1,
            super::slots::Slot::Query => 2,
            super::slots::Slot::Key => 3,
            super::slots::Slot::Value => 4,
            super::slots::Slot::AttnOut => 5,
            super::slots::Slot::Gate => 6,
            super::slots::Slot::Up => 7,
            super::slots::Slot::Down => 8,
        };
        assert(order[i] == gap);
    }
}

/// Before a weight of a layer turns out to be missing, the norms in front of it are decoded: none
/// before the first norm, that one before the second, and both before any matrix.
pub proof fn law_norms_are_decoded_before_a_gap(
    names: Seq<Seq<char>>,
    l: int,
    gap: super::slots::Slot,
)
    requires
        names.len() <= usize::MAX,
        super::slots::first_gap(names, l) == Some(gap),
    ensures
        ({
            let done = super::load::gap_fetches(names, l, gap);
            &&& done.len() == match gap {
                super::slots::Slot::AttnNorm => 0,
                super::slots::Slot::FfnNorm => 1,
                _ => 2int,
            }
            &&& done.len() >= 1 ==> done[0].required && is_first_named(
                names,
                seq![
                    full_name(l, "attn_norm.weight"@),
                    full_name(l, "pre_attention_layernorm.weight"@),
                ],
                done[0].tensor as int,
            )
            &&& done.len() == 2 ==> done[1].required && is_first_named(
                names,
                seq![
                    full_name(l, "ffn_norm.weight"@),
                    full_name(l, "post_attention_layernorm.weight"@),
                    full_name(l, "post_attention_norm.weight"@),
                    full_name(l, "pre_ff_layernorm.weight"@),
                ],
                done[1].tensor as int,
            )
        }),
{
    let fused = super::slots::is_fused(names, l);
    let a = super::slots::slot_names(l, super::slots::Slot::AttnNorm, fused);
    let f = super::slots::slot_names(l, super::slots::Slot::FfnNorm, fused);
    assert(a =~= seq![
        full_name(l, "attn_norm.weight"@),
        full_name(l, "pre_attention_layernorm.weight"@),
    ]);
    assert(f =~= seq![
        full_name(l, "ffn_norm.weight"@),
        full_name(l, "post_attention_layernorm.weight"@),
        full_name(l, "post_attention_norm.weight"@),
        full_name(l, "pre_ff_layernorm.weight"@),
    ]);
    lemma_lookup_any(names, a);
    lemma_lookup_any(names, f);
}

/// What an error says: the name or the names that were looked for, and those of tensors like it;
/// or why decoding or the device failed.
pub proof fn law_errors_say_why(name: String, tried: Vec<String>, similar: Vec<String>, i: usize)
    ensures
        (LoadError::Missing { name, similar }).text() == "Missing tensor: "@ + name@
            + "\n  Similar: "@ + crate::text::joined(similar.deep_view(), ", "@),
        (LoadError::MissingAny { tried, similar }).text() == "Missing tensor (tried: "@
            + crate::text::joined(tried.deep_view(), ", "@) + ")\n  Similar: "@
            + crate::text::joined(similar.deep_view(), ", "@),
        (LoadError::Undecodable { fetch: i, reason: name }).text() == name@,
        (LoadError::Device { reason: name }).text() == name@,
{
}

/// The tensors that an error lists are in the file, begin as the missing name does up to its
/// second dot, and stand in the order of a dictionary; there are eight at most.
pub proof fn law_listed_tensors_are_similar(
    listed: Vec<String>,
    names: Seq<Seq<char>>,
    name: Seq<char>,
    i: int,
)
    requires
        super::load::lists_similar(listed, names, name),
        0 <= i < listed@.len(),
    ensures
        listed@.len() <= 8,
        names.contains(listed@[i]@),
        crate::text::begins_with(listed@[i]@, super::directory::stem(name)),
        forall|j: int|
            i < j < listed@.len() ==> crate::order::not_after(
                listed@[i]@,
                (#[trigger] listed@[j])@,
            ),
{
    let texts = listed.deep_view();
    let all = super::directory::similar(names, name);
    texts.to_multiset_ensures();
    all.to_multiset_ensures();
    assert(texts[i] == listed@[i]@);
    assert(texts.contains(texts[i]));
    vstd::seq_lib::to_multiset_contains(texts, texts[i]);
    vstd::seq_lib::to_multiset_contains(all, texts[i]);
    assert(all.contains(texts[i]));
    super::directory::law_similar_names(names, name, texts[i]);
    assert forall|j: int| i < j < listed@.len() implies crate::order::not_after(
        listed@[i]@,
        (#[trigger] listed@[j])@,
    ) by {
        assert(crate::order::not_after(texts[i], texts[j]));
    }
}

} // verus!
