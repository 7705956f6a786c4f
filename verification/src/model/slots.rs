//! The weights of a layer, and the names under which model files hold them.
use vstd::prelude::*;

use super::directory::{layer_tensor_name, TensorDirectory};

verus! {

/// A weight of a layer.
#[derive(Clone, Copy, Debug, PartialEq, Eq, Structural)]
pub enum Slot {
    AttnNorm,
    FfnNorm,
    Query,
    Key,
    Value,
    AttnOut,
    Gate,
    Up,
    Down,
}

/// Two names that a tensor of layer `layer` may have.
pub open spec fn either(layer: int, a: Seq<char>, b: Seq<char>) -> Seq<Seq<char>> {
    seq![super::directory::layer_tensor(layer, a)] + seq![
        super::directory::layer_tensor(layer, b),
    ]
}

/// The names that are tried for a weight, in this order.
pub open spec fn slot_names(layer: int, slot: Slot, fused: bool) -> Seq<Seq<char>> {
    match slot {
        Slot::AttnNorm => either(layer, "attn_norm.weight"@, "pre_attention_layernorm.weight"@),
        Slot::FfnNorm => either(layer, "ffn_norm.weight"@, "post_attention_layernorm.weight"@)
            + either(layer, "post_attention_norm.weight"@, "pre_ff_layernorm.weight"@),
        Slot::Query => if fused {
            seq![super::directory::layer_tensor(layer, "attn_qkv.weight"@)]
        } else {
            either(layer, "attn_q.weight"@, "self_attn.q_proj.weight"@)
        },
        Slot::Key => if fused {
            seq![super::directory::layer_tensor(layer, "attn_qkv.weight"@)]
        } else {
            either(layer, "attn_k.weight"@, "self_attn.k_proj.weight"@)
        },
        Slot::Value => if fused {
            seq![super::directory::layer_tensor(layer, "attn_qkv.weight"@)]
        } else {
            either(layer, "attn_v.weight"@, "self_attn.v_proj.weight"@)
        },
        Slot::AttnOut => either(layer, "attn_output.weight"@, "self_attn.o_proj.weight"@),
        Slot::Gate => either(layer, "ffn_gate.weight"@, "mlp.gate_proj.weight"@),
        Slot::Up => either(layer, "ffn_up.weight"@, "mlp.up_proj.weight"@),
        Slot::Down => either(layer, "ffn_down.weight"@, "mlp.down_proj.weight"@),
    }
}

/// The layer has a query, a key and a value tensor of its own, each under one of its names.
pub open spec fn has_separate(names: Seq<Seq<char>>, layer: int) -> bool {
    &&& super::directory::lookup_any(names, slot_names(layer, Slot::Query, false)) is Some
    &&& super::directory::lookup_any(names, slot_names(layer, Slot::Key, false)) is Some
    &&& super::directory::lookup_any(names, slot_names(layer, Slot::Value, false)) is Some
}

/// The layer has a fused query/key/value tensor, and lacks one of the separate ones, which come
/// first.
pub open spec fn is_fused(names: Seq<Seq<char>>, layer: int) -> bool {
    &&& super::directory::lookup(
        names,
        super::directory::layer_tensor(layer, "attn_qkv.weight"@),
    ) is Some
    &&& !has_separate(names, layer)
}

/// The tensor that holds a weight of a layer.
pub open spec fn slot_tensor(names: Seq<Seq<char>>, layer: int, slot: Slot) -> Option<usize> {
    super::directory::lookup_any(names, slot_names(layer, slot, is_fused(names, layer)))
}

/// The first weight of a layer that no tensor holds.
pub open spec fn first_gap(names: Seq<Seq<char>>, layer: int) -> Option<Slot> {
    if slot_tensor(names, layer, Slot::AttnNorm) is None {
        Some(Slot::AttnNorm)
    } else if slot_tensor(names, layer, Slot::FfnNorm) is None {
        Some(Slot::FfnNorm)
    } else if slot_tensor(names, layer, Slot::Query) is None {
        Some(Slot::Query)
    } else if slot_tensor(names, layer, Slot::Key) is None {
        Some(Slot::Key)
    } else if slot_tensor(names, layer, Slot::Value) is None {
        Some(Slot::Value)
    } else if slot_tensor(names, layer, Slot::AttnOut) is None {
        Some(Slot::AttnOut)
    } else if slot_tensor(names, layer, Slot::Gate) is None {
        Some(Slot::Gate)
    } else if slot_tensor(names, layer, Slot::Up) is None {
        Some(Slot::Up)
    } else if slot_tensor(names, layer, Slot::Down) is None {
        Some(Slot::Down)
    } else {
        None
    }
}

fn add_either(names: &mut Vec<String>, layer: usize, a: &str, b: &str)
    ensures
        final(names).deep_view() == old(names).deep_view() + either(layer as int, a@, b@),
{
    names.push(layer_tensor_name(layer, a));
    names.push(layer_tensor_name(layer, b));
    assert(names.deep_view() =~= old(names).deep_view() + either(layer as int, a@, b@));
}

/// The names that are tried for a weight, in this order.
pub fn names_of(layer: usize, slot: Slot, fused: bool) -> (names: Vec<String>)
    ensures
        names.deep_view() == slot_names(layer as int, slot, fused),
{
    let mut names: Vec<String> = Vec::new();
    assert(names.deep_view() =~= Seq::<Seq<char>>::empty());
    let splits = matches!(slot, Slot::Query) || matches!(slot, Slot::Key) || matches!(
        slot,
        Slot::Value
    );
    if fused && splits {
        names.push(layer_tensor_name(layer, "attn_qkv.weight"));
        assert(names.deep_view() =~= slot_names(layer as int, slot, fused));
        return names;
    }
    match slot {
        Slot::AttnNorm => add_either(
            &mut names,
            layer,
            "attn_norm.weight",
            "pre_attention_layernorm.weight",
        ),
        Slot::FfnNorm => {
            add_either(&mut names, layer, "ffn_norm.weight", "post_attention_layernorm.weight");
            add_either(
                &mut names,
                layer,
                "post_attention_norm.weight",
                "pre_ff_layernorm.weight",
            );
        },
        Slot::Query => add_either(&mut names, layer, "attn_q.weight", "self_attn.q_proj.weight"),
        Slot::Key => add_either(&mut names, layer, "attn_k.weight", "self_attn.k_proj.weight"),
        Slot::Value => add_either(&mut names, layer, "attn_v.weight", "self_attn.v_proj.weight"),
        Slot::AttnOut => add_either(
            &mut names,
            layer,
            "attn_output.weight",
            "self_attn.o_proj.weight",
        ),
        Slot::Gate => add_either(&mut names, layer, "ffn_gate.weight", "mlp.gate_proj.weight"),
        Slot::Up => add_either(&mut names, layer, "ffn_up.weight", "mlp.up_proj.weight"),
        Slot::Down => add_either(&mut names, layer, "ffn_down.weight", "mlp.down_proj.weight"),
    }
    assert(names.deep_view() =~= slot_names(layer as int, slot, fused));
    names
}

/// Whether the layer has a tensor of its own for a weight.
fn has_own(dir: &TensorDirectory, layer: usize, slot: Slot) -> (found: bool)
    ensures
        found == (super::directory::lookup_any(
            dir@,
            slot_names(layer as int, slot, false),
        ) is Some),
{
    let names = names_of(layer, slot, false);
    dir.find_any(&names).is_some()
}

/// Whether the layer has a fused query/key/value tensor, and lacks one of the separate ones.
pub fn has_fused_qkv(dir: &TensorDirectory, layer: usize) -> (fused: bool)
    ensures
        fused == is_fused(dir@, layer as int),
{
    let qkv = layer_tensor_name(layer, "attn_qkv.weight");
    dir.find(qkv.as_str()).is_some() && !(has_own(dir, layer, Slot::Query) && has_own(
        dir,
        layer,
        Slot::Key,
    ) && has_own(dir, layer, Slot::Value))
}

/// A fused layer has a tensor for its query, key and value: the fused one.
pub proof fn law_fused_layer_has_qkv(names: Seq<Seq<char>>, layer: int)
    requires
        is_fused(names, layer),
    ensures
        slot_tensor(names, layer, Slot::Query) == super::directory::lookup(
            names,
            super::directory::layer_tensor(layer, "attn_qkv.weight"@),
        ),
        slot_tensor(names, layer, Slot::Key) == slot_tensor(names, layer, Slot::Query),
        slot_tensor(names, layer, Slot::Value) == slot_tensor(names, layer, Slot::Query),
        slot_tensor(names, layer, Slot::Query) is Some,
{
    let tried = slot_names(layer, Slot::Query, true);
    assert(tried[0] == super::directory::layer_tensor(layer, "attn_qkv.weight"@));
}

/// A layer with all three separate tensors takes them, whether it has a fused one or not.
pub proof fn law_separate_tensors_come_first(names: Seq<Seq<char>>, layer: int, slot: Slot)
    requires
        has_separate(names, layer),
    ensures
        slot_tensor(names, layer, slot) == super::directory::lookup_any(
            names,
            slot_names(layer, slot, false),
        ),
{
}

/// A layer with a fused tensor lacks neither query, key nor value, whichever of the separate
/// ones it has.
pub proof fn law_fused_tensor_fills_gaps(names: Seq<Seq<char>>, layer: int)
    requires
        super::directory::lookup(
            names,
            super::directory::layer_tensor(layer, "attn_qkv.weight"@),
        ) is Some,
    ensures
        slot_tensor(names, layer, Slot::Query) is Some,
        slot_tensor(names, layer, Slot::Key) is Some,
        slot_tensor(names, layer, Slot::Value) is Some,
{
    if is_fused(names, layer) {
        law_fused_layer_has_qkv(names, layer);
    }
}

} // verus!
