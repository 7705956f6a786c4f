//! A weight that a model file holds under several names.
use vstd::prelude::*;

use super::config::ModelConfig;
use super::load::{Fetch, LayerPlan, LoadError, LoadPlan};
use super::slots::Slot;
use super::weights::{RowSpan, Weights};

verus! {

/// The names of a weight, the ones that count first in front.
pub open spec fn aliases(layer: int, slot: Slot) -> Seq<Seq<char>> {
    super::slots::slot_names(layer, slot, false)
}

/// The layer does not need a tensor of this name: the file has the weight under an earlier name,
/// or it is a fused tensor and the layer has all the separate ones.
pub open spec fn is_surplus(names: Seq<Seq<char>>, layer: int, name: Seq<char>) -> bool {
    ||| exists|slot: Slot, a: int, b: int| #[trigger] is_later(names, layer, slot, a, b, name)
    ||| name == super::directory::layer_tensor(layer, "attn_qkv.weight"@)
        && super::slots::has_separate(names, layer)
}

/// The file has a weight under name `a` of its names, and `name` is the later name `b`.
pub open spec fn is_later(
    names: Seq<Seq<char>>,
    layer: int,
    slot: Slot,
    a: int,
    b: int,
    name: Seq<char>,
) -> bool {
    &&& 0 <= a < b < aliases(layer, slot).len()
    &&& super::directory::lookup(names, aliases(layer, slot)[a]) is Some
    &&& name == aliases(layer, slot)[b]
}

/// The place of a tensor after another one was put at place `p`.
pub open spec fn moved(tensor: usize, p: int) -> usize {
    if tensor >= p {
        (tensor + 1) as usize
    } else {
        tensor
    }
}

/// The place of a tensor that may be missing.
pub open spec fn moved_if(tensor: Option<usize>, p: int) -> Option<usize> {
    match tensor {
        Some(t) => Some(moved(t, p)),
        None => None,
    }
}

/// Rows of a tensor.
pub open spec fn moved_rows(rows: Option<RowSpan>, p: int) -> Option<RowSpan> {
    match rows {
        Some(r) => Some(RowSpan { tensor: moved(r.tensor, p), ..r }),
        None => None,
    }
}

/// What is decoded.
pub open spec fn moved_fetches(fetches: Seq<Fetch>, p: int) -> Seq<Fetch> {
    Seq::new(
        fetches.len(),
        |i: int| Fetch { tensor: moved(fetches[i].tensor, p), required: fetches[i].required },
    )
}

/// The weights of a layer.
pub open spec fn moved_plan(plan: LayerPlan, p: int) -> LayerPlan {
    LayerPlan {
        attn_q: moved(plan.attn_q, p),
        attn_k: moved(plan.attn_k, p),
        attn_v: moved(plan.attn_v, p),
        attn_out: moved(plan.attn_out, p),
        ffn_gate: moved(plan.ffn_gate, p),
        ffn_up: moved(plan.ffn_up, p),
        ffn_down: moved(plan.ffn_down, p),
        q_rows: moved_rows(plan.q_rows, p),
        k_rows: moved_rows(plan.k_rows, p),
        v_rows: moved_rows(plan.v_rows, p),
        ..plan
    }
}

/// Layer `l` has the same weights, from the places where the tensors are now.
pub open spec fn same_layer(w: Weights, after: Weights, p: int, l: int) -> bool {
    &&& after.attn_norm@[l] == w.attn_norm@[l]
    &&& after.ffn_norm@[l] == w.ffn_norm@[l]
    &&& after.attn_q@[l] == moved(w.attn_q@[l], p)
    &&& after.attn_k@[l] == moved(w.attn_k@[l], p)
    &&& after.attn_v@[l] == moved(w.attn_v@[l], p)
    &&& after.attn_out@[l] == moved(w.attn_out@[l], p)
    &&& after.ffn_gate@[l] == moved(w.ffn_gate@[l], p)
    &&& after.ffn_up@[l] == moved(w.ffn_up@[l], p)
    &&& after.ffn_down@[l] == moved(w.ffn_down@[l], p)
    &&& after.attn_q_bias@[l] == w.attn_q_bias@[l]
    &&& after.attn_k_bias@[l] == w.attn_k_bias@[l]
    &&& after.attn_v_bias@[l] == w.attn_v_bias@[l]
    &&& after.attn_q_f32@[l] == moved_rows(w.attn_q_f32@[l], p)
    &&& after.attn_k_f32@[l] == moved_rows(w.attn_k_f32@[l], p)
    &&& after.attn_v_f32@[l] == moved_rows(w.attn_v_f32@[l], p)
}

/// All weights are the same, from the places where the tensors are now.
pub open spec fn same_weights(w: Weights, after: Weights, p: int, n_layers: nat) -> bool {
    &&& after.token_embd == moved(w.token_embd, p)
    &&& after.output == moved(w.output, p)
    &&& after.output_norm == w.output_norm
    &&& w.covers(n_layers)
    &&& after.covers(n_layers)
    &&& forall|l: int| 0 <= l < n_layers ==> #[trigger] same_layer(w, after, p, l)
}

/// The names of a layer's tensors behind the number of the layer.
spec fn suffix(i: int) -> Seq<char> {
    if i == 0 {
        "attn_norm.weight"@
    } else if i == 1 {
        "pre_attention_layernorm.weight"@
    } else if i == 2 {
        "ffn_norm.weight"@
    } else if i == 3 {
        "post_attention_layernorm.weight"@
    } else if i == 4 {
        "post_attention_norm.weight"@
    } else if i == 5 {
        "pre_ff_layernorm.weight"@
    } else if i == 6 {
        "attn_q.weight"@
    } else if i == 7 {
        "self_attn.q_proj.weight"@
    } else if i == 8 {
        "attn_qkv.weight"@
    } else if i == 9 {
        "attn_k.weight"@
    } else if i == 10 {
        "self_attn.k_proj.weight"@
    } else if i == 11 {
        "attn_v.weight"@
    } else if i == 12 {
        "self_attn.v_proj.weight"@
    } else if i == 13 {
        "attn_output.weight"@
    } else if i == 14 {
        "self_attn.o_proj.weight"@
    } else if i == 15 {
        "ffn_gate.weight"@
    } else if i == 16 {
        "mlp.gate_proj.weight"@
    } else if i == 17 {
        "ffn_up.weight"@
    } else if i == 18 {
        "mlp.up_proj.weight"@
    } else if i == 19 {
        "ffn_down.weight"@
    } else if i == 20 {
        "mlp.down_proj.weight"@
    } else if i == 21 {
        "attn_q.bias"@
    } else if i == 22 {
        "attn_k.bias"@
    } else {
        "attn_v.bias"@
    }
}

/// What tells these names apart: their length and three of their characters.
spec fn mark(i: int) -> (nat, char, char, char) {
    if i == 0 {
        (16, '_', 'n', 'w')
    } else if i == 1 {
        (30, 'a', 't', 'i')
    } else if i == 2 {
        (15, 'n', 'o', 'e')
    } else if i == 3 {
        (31, '_', 'a', 't')
    } else if i == 4 {
        (26, '_', 'a', 't')
    } else if i == 5 {
        (23, 'f', 'f', 'e')
    } else if i == 6 {
        (13, '_', 'q', 'g')
    } else if i == 7 {
        (23, '_', 'a', 'q')
    } else if i == 8 {
        (15, '_', 'q', 'e')
    } else if i == 9 {
        (13, '_', 'k', 'g')
    } else if i == 10 {
        (23, '_', 'a', 'k')
    } else if i == 11 {
        (13, '_', 'v', 'g')
    } else if i == 12 {
        (23, '_', 'a', 'v')
    } else if i == 13 {
        (18, '_', 'o', 't')
    } else if i == 14 {
        (23, '_', 'a', 'o')
    } else if i == 15 {
        (15, 'g', 'a', 'e')
    } else if i == 16 {
        (20, 'g', 'a', 'r')
    } else if i == 17 {
        (13, 'u', 'p', 'g')
    } else if i == 18 {
        (18, 'u', 'p', 'j')
    } else if i == 19 {
        (15, 'd', 'o', 'e')
    } else if i == 20 {
        (20, 'd', 'o', 'r')
    } else if i == 21 {
        (11, '_', 'q', 's')
    } else if i == 22 {
        (11, '_', 'k', 's')
    } else {
        (11, '_', 'v', 's')
    }
}

proof fn lemma_mark(i: int)
    requires
        0 <= i < 24,
    ensures
        suffix(i).len() == mark(i).0,
        suffix(i)[4] == mark(i).1,
        suffix(i)[5] == mark(i).2,
        suffix(i)[10] == mark(i).3,
{
    if i == 0 {
        reveal_strlit("attn_norm.weight");
    } else if i == 1 {
        reveal_strlit("pre_attention_layernorm.weight");
    } else if i == 2 {
        reveal_strlit("ffn_norm.weight");
    } else if i == 3 {
        reveal_strlit("post_attention_layernorm.weight");
    } else if i == 4 {
        reveal_strlit("post_attention_norm.weight");
    } else if i == 5 {
        reveal_strlit("pre_ff_layernorm.weight");
    } else if i == 6 {
        reveal_strlit("attn_q.weight");
    } else if i == 7 {
        reveal_strlit("self_attn.q_proj.weight");
    } else if i == 8 {
        reveal_strlit("attn_qkv.weight");
    } else if i == 9 {
        reveal_strlit("attn_k.weight");
    } else if i == 10 {
        reveal_strlit("self_attn.k_proj.weight");
    } else if i == 11 {
        reveal_strlit("attn_v.weight");
    } else if i == 12 {
        reveal_strlit("self_attn.v_proj.weight");
    } else if i == 13 {
        reveal_strlit("attn_output.weight");
    } else if i == 14 {
        reveal_strlit("self_attn.o_proj.weight");
    } else if i == 15 {
        reveal_strlit("ffn_gate.weight");
    } else if i == 16 {
        reveal_strlit("mlp.gate_proj.weight");
    } else if i == 17 {
        reveal_strlit("ffn_up.weight");
    } else if i == 18 {
        reveal_strlit("mlp.up_proj.weight");
    } else if i == 19 {
        reveal_strlit("ffn_down.weight");
    } else if i == 20 {
        reveal_strlit("mlp.down_proj.weight");
    } else if i == 21 {
        reveal_strlit("attn_q.bias");
    } else if i == 22 {
        reveal_strlit("attn_k.bias");
    } else {
        reveal_strlit("attn_v.bias");
    }
}

/// No two tensors share a name.
proof fn lemma_apart(l: int, i: int, m: int, j: int)
    requires
        0 <= l,
        0 <= m,
        0 <= i < 24,
        0 <= j < 24,
        super::directory::layer_tensor(l, suffix(i)) == super::directory::layer_tensor(
            m,
            suffix(j),
        ),
    ensures
        l == m,
        i == j,
{
    super::directory::law_layers_share_no_names(l as nat, m as nat, suffix(i), suffix(j));
    lemma_mark(i);
    lemma_mark(j);
}

/// Where the names of a weight begin.
spec fn base(slot: Slot) -> int {
    match slot {
        Slot::AttnNorm => 0,
        Slot::FfnNorm => 2,
        Slot::Query => 6,
        Slot::Key => 9,
        Slot::Value => 11,
        Slot::AttnOut => 13,
        Slot::Gate => 15,
        Slot::Up => 17,
        Slot::Down => 19,
    }
}

/// How many names a weight has.
spec fn count(slot: Slot) -> int {
    match slot {
        Slot::FfnNorm => 4,
        _ => 2,
    }
}

proof fn lemma_names(l: int, slot: Slot)
    ensures
        aliases(l, slot).len() == count(slot),
        forall|i: int|
            0 <= i < count(slot) ==> #[trigger] aliases(l, slot)[i]
                == super::directory::layer_tensor(l, suffix(base(slot) + i)),
{
}

/// A place is one of the file.
proof fn lemma_bound(names: Seq<Seq<char>>, name: Seq<char>)
    requires
        names.len() <= usize::MAX,
    ensures
        super::directory::lookup(names, name) matches Some(i) ==> i < names.len(),
    decreases names.len(),
{
    if names.len() > 0 && names.last() != name {
        lemma_bound(names.drop_last(), name);
    }
}

/// Another tensor moves the others, and hides none of them.
proof fn lemma_lookup(names: Seq<Seq<char>>, p: int, alias: Seq<char>, name: Seq<char>)
    requires
        0 <= p <= names.len() < usize::MAX,
        name != alias,
    ensures
        super::directory::lookup(names.insert(p, alias), name) == moved_if(
            super::directory::lookup(names, name),
            p,
        ),
    decreases names.len(),
{
    let more = names.insert(p, alias);
    if p == names.len() {
        assert(more.drop_last() =~= names);
        lemma_bound(names, name);
    } else {
        assert(more.drop_last() =~= names.drop_last().insert(p, alias));
        lemma_lookup(names.drop_last(), p, alias, name);
    }
}

/// So it is for a weight that is found under a name before that of the other tensor, or that
/// has no such name.
proof fn lemma_lookup_any(
    names: Seq<Seq<char>>,
    p: int,
    alias: Seq<char>,
    tried: Seq<Seq<char>>,
    a: int,
)
    requires
        0 <= p <= names.len() < usize::MAX,
        0 <= a <= tried.len(),
        forall|i: int| 0 <= i <= a && i < tried.len() ==> #[trigger] tried[i] != alias,
        a < tried.len() ==> super::directory::lookup(names, tried[a]) is Some,
    ensures
        super::directory::lookup_any(names.insert(p, alias), tried) == moved_if(
            super::directory::lookup_any(names, tried),
            p,
        ),
    decreases tried.len(),
{
    if tried.len() > 0 {
        assert(tried[0] != alias);
        lemma_lookup(names, p, alias, tried[0]);
        if super::directory::lookup(names, tried[0]) is None {
            let rest = tried.skip(1);
            assert forall|i: int| 0 <= i <= a - 1 && i < rest.len() implies #[trigger] rest[i]
                != alias by {
                assert(rest[i] == tried[i + 1]);
            }
            assert(a - 1 < rest.len() ==> rest[a - 1] == tried[a]);
            lemma_lookup_any(names, p, alias, rest, a - 1);
        }
    }
}

/// A tensor that a file does not need, and where it is put: under name `b` of a weight that has
/// name `a`, or as a fused tensor.
struct Extra {
    names: Seq<Seq<char>>,
    p: int,
    layer: int,
    fused: bool,
    slot: Slot,
    a: int,
    b: int,
}

impl Extra {
    /// The number of its name.
    spec fn number(self) -> int {
        if self.fused {
            8
        } else {
            base(self.slot) + self.b
        }
    }

    spec fn alias(self) -> Seq<char> {
        super::directory::layer_tensor(self.layer, suffix(self.number()))
    }

    spec fn after(self) -> Seq<Seq<char>> {
        self.names.insert(self.p, self.alias())
    }

    spec fn valid(self) -> bool {
        &&& 0 <= self.p <= self.names.len() < usize::MAX
        &&& 0 <= self.layer
        &&& if self.fused {
            super::slots::has_separate(self.names, self.layer)
        } else {
            &&& 0 <= self.a < self.b < count(self.slot)
            &&& super::directory::lookup(
                self.names,
                super::directory::layer_tensor(self.layer, suffix(base(self.slot) + self.a)),
            ) is Some
        }
    }
}

/// A tensor of a layer under another name.
proof fn lemma_other(e: Extra, m: int, j: int)
    requires
        e.valid(),
        0 <= m,
        0 <= j < 24,
        m != e.layer || j != e.number(),
    ensures
        super::directory::layer_tensor(m, suffix(j)) != e.alias(),
        super::directory::lookup(e.after(), super::directory::layer_tensor(m, suffix(j)))
            == moved_if(
            super::directory::lookup(e.names, super::directory::layer_tensor(m, suffix(j))),
            e.p,
        ),
{
    let name = super::directory::layer_tensor(m, suffix(j));
    if name == e.alias() {
        lemma_apart(m, j, e.layer, e.number());
    }
    lemma_lookup(e.names, e.p, e.alias(), name);
}

/// A weight under its own names.
proof fn lemma_own(e: Extra, m: int, slot: Slot)
    requires
        e.valid(),
        0 <= m,
    ensures
        super::directory::lookup_any(e.after(), aliases(m, slot)) == moved_if(
            super::directory::lookup_any(e.names, aliases(m, slot)),
            e.p,
        ),
{
    lemma_names(m, slot);
    let tried = aliases(m, slot);
    let same = !e.fused && m == e.layer && slot == e.slot;
    assert forall|i: int| 0 <= i < tried.len() && !(same && i == e.b) implies #[trigger] tried[i]
        != e.alias() by {
        lemma_other(e, m, base(slot) + i);
    }
    if same {
        lemma_lookup_any(e.names, e.p, e.alias(), tried, e.a);
    } else {
        lemma_lookup_any(e.names, e.p, e.alias(), tried, tried.len() as int);
    }
}

proof fn lemma_fused(e: Extra, m: int)
    requires
        e.valid(),
        0 <= m,
    ensures
        super::slots::has_separate(e.after(), m) == super::slots::has_separate(e.names, m),
        super::slots::is_fused(e.after(), m) == super::slots::is_fused(e.names, m),
{
    lemma_own(e, m, Slot::Query);
    lemma_own(e, m, Slot::Key);
    lemma_own(e, m, Slot::Value);
    if !(e.fused && m == e.layer) {
        lemma_other(e, m, 8);
    }
}

proof fn lemma_slot(e: Extra, m: int, slot: Slot)
    requires
        e.valid(),
        0 <= m,
    ensures
        super::slots::slot_tensor(e.after(), m, slot) == moved_if(
            super::slots::slot_tensor(e.names, m, slot),
            e.p,
        ),
{
    lemma_fused(e, m);
    let fused = super::slots::is_fused(e.names, m);
    let tried = super::slots::slot_names(m, slot, fused);
    let splits = slot == Slot::Query || slot == Slot::Key || slot == Slot::Value;
    if fused && splits {
        assert(tried.len() == 1 && tried[0] == super::directory::layer_tensor(m, suffix(8)));
        lemma_other(e, m, 8);
        lemma_lookup_any(e.names, e.p, e.alias(), tried, 1);
    } else {
        assert(tried == aliases(m, slot));
        lemma_own(e, m, slot);
    }
}

proof fn lemma_gap(e: Extra, m: int)
    requires
        e.valid(),
        0 <= m,
    ensures
        super::slots::first_gap(e.after(), m) == super::slots::first_gap(e.names, m),
{
    lemma_slot(e, m, Slot::AttnNorm);
    lemma_slot(e, m, Slot::FfnNorm);
    lemma_slot(e, m, Slot::Query);
    lemma_slot(e, m, Slot::Key);
    lemma_slot(e, m, Slot::Value);
    lemma_slot(e, m, Slot::AttnOut);
    lemma_slot(e, m, Slot::Gate);
    lemma_slot(e, m, Slot::Up);
    lemma_slot(e, m, Slot::Down);
}

proof fn lemma_bias(e: Extra, m: int, j: int)
    requires
        e.valid(),
        0 <= m,
        21 <= j < 24,
    ensures
        super::load::bias_fetch(e.after(), m, suffix(j)) == moved_fetches(
            super::load::bias_fetch(e.names, m, suffix(j)),
            e.p,
        ),
{
    lemma_other(e, m, j);
    assert(super::load::bias_fetch(e.after(), m, suffix(j)) =~= moved_fetches(
        super::load::bias_fetch(e.names, m, suffix(j)),
        e.p,
    ));
}

proof fn lemma_layer(e: Extra, c: ModelConfig, m: int, at: int)
    requires
        e.valid(),
        0 <= m,
        super::slots::first_gap(e.names, m) is None,
    ensures
        super::load::layer_fetches(e.after(), m) == moved_fetches(
            super::load::layer_fetches(e.names, m),
            e.p,
        ),
        super::load::layer_plan(e.after(), c, m, at) == moved_plan(
            super::load::layer_plan(e.names, c, m, at),
            e.p,
        ),
{
    lemma_fused(e, m);
    lemma_slot(e, m, Slot::AttnNorm);
    lemma_slot(e, m, Slot::FfnNorm);
    lemma_slot(e, m, Slot::Query);
    lemma_slot(e, m, Slot::Key);
    lemma_slot(e, m, Slot::Value);
    lemma_slot(e, m, Slot::AttnOut);
    lemma_slot(e, m, Slot::Gate);
    lemma_slot(e, m, Slot::Up);
    lemma_slot(e, m, Slot::Down);
    lemma_bias(e, m, 21);
    lemma_bias(e, m, 22);
    lemma_bias(e, m, 23);
    assert(super::load::layer_fetches(e.after(), m) =~= moved_fetches(
        super::load::layer_fetches(e.names, m),
        e.p,
    ));
}

/// The tensors that belong to no layer.
proof fn lemma_top(e: Extra)
    requires
        e.valid(),
    ensures
        super::directory::lookup(e.after(), "token_embd.weight"@) == moved_if(
            super::directory::lookup(e.names, "token_embd.weight"@),
            e.p,
        ),
        super::directory::lookup(e.after(), "output_norm.weight"@) == moved_if(
            super::directory::lookup(e.names, "output_norm.weight"@),
            e.p,
        ),
        super::directory::lookup(e.after(), "output.weight"@) == moved_if(
            super::directory::lookup(e.names, "output.weight"@),
            e.p,
        ),
{
    reveal_strlit("blk.");
    reveal_strlit("token_embd.weight");
    reveal_strlit("output_norm.weight");
    reveal_strlit("output.weight");
    assert(e.alias()[0] == 'b');
    lemma_lookup(e.names, e.p, e.alias(), "token_embd.weight"@);
    lemma_lookup(e.names, e.p, e.alias(), "output_norm.weight"@);
    lemma_lookup(e.names, e.p, e.alias(), "output.weight"@);
}

proof fn lemma_fetches(e: Extra, c: ModelConfig, k: nat)
    requires
        e.valid(),
        super::directory::lookup(e.names, "output_norm.weight"@) is Some,
        forall|m: int| 0 <= m < k ==> (#[trigger] super::slots::first_gap(e.names, m)) is None,
    ensures
        super::load::fetches_before(e.after(), k) == moved_fetches(
            super::load::fetches_before(e.names, k),
            e.p,
        ),
    decreases k,
{
    lemma_top(e);
    if k > 0 {
        lemma_fetches(e, c, (k - 1) as nat);
        assert(super::slots::first_gap(e.names, k - 1) is None);
        lemma_layer(e, c, k - 1, 0);
    }
    assert(super::load::fetches_before(e.after(), k) =~= moved_fetches(
        super::load::fetches_before(e.names, k),
        e.p,
    ));
}

/// A file that has a weight under one of its names may also have a tensor under a later one, and
/// a file with all separate query, key and value tensors of a layer may also have a fused one,
/// anywhere in the file: the same tensors are decoded in the same order, and where they decode as
/// before, the model has the same weights, or fails to load for the same reason. Only the places
/// of the tensors behind the new one move.
pub proof fn law_later_alias_changes_nothing(
    names: Seq<Seq<char>>,
    c: ModelConfig,
    layer: int,
    alias: Seq<char>,
    p: int,
    plan: LoadPlan,
    after: LoadPlan,
    decoded: Seq<Result<usize, String>>,
    before_result: Result<Weights, LoadError>,
    after_result: Result<Weights, LoadError>,
)
    requires
        0 <= p <= names.len() < usize::MAX,
        0 <= layer,
        is_surplus(names, layer, alias),
        super::load::is_load_plan(plan, names, c),
        super::load::is_load_plan(after, names.insert(p, alias), c),
        plan.found is Ok,
        super::settle::settles(before_result, plan, decoded),
        super::settle::settles(after_result, after, decoded),
        decoded.len() <= plan.fetches@.len(),
    ensures
        after.fetches@ == moved_fetches(plan.fetches@, p),
        before_result is Ok ==> after_result is Ok && same_weights(
            before_result->Ok_0,
            after_result->Ok_0,
            p,
            c.n_layers as nat,
        ),
        before_result is Err ==> after_result == before_result,
{
    let (slot, a, b) = choose|slot: Slot, a: int, b: int| #[trigger]
        is_later(names, layer, slot, a, b, alias);
    let fused = !is_later(names, layer, slot, a, b, alias);
    let e = Extra { names, p, layer, fused, slot, a, b };
    lemma_names(layer, slot);
    assert(e.alias() == alias);
    let n = c.n_layers as nat;
    lemma_top(e);
    assert forall|m: int| 0 <= m < n implies (#[trigger] super::slots::first_gap(
        e.after(),
        m,
    )) is None by {
        assert(super::slots::first_gap(names, m) is None);
        lemma_gap(e, m);
    }
    assert(after.found is Ok);
    lemma_fetches(e, c, n);
    assert forall|i: int| super::settle::failed(after.fetches@, decoded, i)
        == #[trigger] super::settle::failed(plan.fetches@, decoded, i) by {}
    if before_result is Ok {
        assert forall|i: int| !#[trigger] super::settle::failed(after.fetches@, decoded, i) by {
            assert(!super::settle::failed(plan.fetches@, decoded, i));
        }
        lemma_same(e, c, plan, after, decoded, before_result->Ok_0, after_result->Ok_0);
    } else {
        let i = choose|i: int| super::settle::failed(plan.fetches@, decoded, i);
        assert(super::settle::failed(after.fetches@, decoded, i));
        let x = (before_result->Err_0)->fetch as int;
        let y = (after_result->Err_0)->fetch as int;
        assert(super::settle::failed(after.fetches@, decoded, x));
        assert(super::settle::failed(plan.fetches@, decoded, y));
    }
}

proof fn lemma_same(
    e: Extra,
    c: ModelConfig,
    plan: LoadPlan,
    after: LoadPlan,
    decoded: Seq<Result<usize, String>>,
    w: Weights,
    v: Weights,
)
    requires
        e.valid(),
        super::load::is_load_plan(plan, e.names, c),
        super::load::is_load_plan(after, e.after(), c),
        plan.found is Ok,
        after.found is Ok,
        super::settle::is_settled(w, plan.found->Ok_0, decoded),
        super::settle::is_settled(v, after.found->Ok_0, decoded),
    ensures
        same_weights(w, v, e.p, c.n_layers as nat),
{
    let f = plan.found->Ok_0;
    let g = after.found->Ok_0;
    lemma_top(e);
    assert forall|l: int| 0 <= l < c.n_layers implies #[trigger] same_layer(w, v, e.p, l) by {
        assert forall|m: int| 0 <= m < l implies (#[trigger] super::slots::first_gap(
            e.names,
            m,
        )) is None by {}
        lemma_fetches(e, c, l as nat);
        let at = super::load::fetches_before(e.names, l as nat).len() as int;
        assert(super::slots::first_gap(e.names, l) is None);
        lemma_layer(e, c, l, at);
        assert(g.layers@[l] == moved_plan(f.layers@[l], e.p));
        assert(super::settle::holds_layer(w, f.layers@[l], decoded, l));
        assert(super::settle::holds_layer(v, g.layers@[l], decoded, l));
    }
}

} // verus!
