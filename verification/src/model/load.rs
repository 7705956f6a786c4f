//! Finding the weights of a model in its file.
//!
//! Loading alternates between decisions, which are made here, and decoding, which is not. A
//! plan lists what has to be decoded and in which order; the outcomes then settle what the
//! model holds.
use vstd::prelude::*;

use super::config::ModelConfig;
use super::directory::{layer_tensor_name, TensorDirectory};
use super::slots::{has_fused_qkv, names_of, Slot};
use super::weights::RowSpan;
use crate::text::join;

verus! {

/// A tensor to be decoded to floats. Loading fails where a required one cannot be decoded.
#[derive(Clone, Copy, Debug, PartialEq, Eq, Structural)]
pub struct Fetch {
    pub tensor: usize,
    pub required: bool,
}

/// Where the weights of one layer come from: vectors are named by the number of their
/// decoding, quantized tensors by their place in the directory.
#[derive(Clone, Copy, Debug, PartialEq, Eq, Structural)]
pub struct LayerPlan {
    pub attn_norm: usize,
    pub ffn_norm: usize,
    pub attn_q: usize,
    pub attn_k: usize,
    pub attn_v: usize,
    pub attn_out: usize,
    pub ffn_gate: usize,
    pub ffn_up: usize,
    pub ffn_down: usize,
    pub q_bias: Option<usize>,
    pub k_bias: Option<usize>,
    pub v_bias: Option<usize>,
    pub q_rows: Option<RowSpan>,
    pub k_rows: Option<RowSpan>,
    pub v_rows: Option<RowSpan>,
}

/// Why a model cannot be loaded.
#[allow(inconsistent_fields)]
pub enum LoadError {
    /// No tensor has this name.
    Missing { name: String, similar: Vec<String> },
    /// No tensor has any of these names.
    MissingAny { tried: Vec<String>, similar: Vec<String> },
    /// A required tensor could not be decoded.
    Undecodable { fetch: usize, reason: String },
    /// The device could not hold the activation buffers.
    Device { reason: String },
}

/// What has to be decoded, and what the model holds if the decoding succeeds.
pub struct LoadPlan {
    pub fetches: Vec<Fetch>,
    pub found: Result<FoundWeights, LoadError>,
}

/// The weights of a model as its file holds them. The output norm is the first decoding.
pub struct FoundWeights {
    pub token_embd: usize,
    pub output: usize,
    pub layers: Vec<LayerPlan>,
}

/// The decoding of a bias, where the layer has one.
pub open spec fn bias_fetch(names: Seq<Seq<char>>, layer: int, suffix: Seq<char>) -> Seq<Fetch> {
    match super::directory::lookup(names, super::directory::layer_tensor(layer, suffix)) {
        Some(tensor) => seq![Fetch { tensor, required: false }],
        None => Seq::empty(),
    }
}

/// The decoding of the two norms of a layer.
pub open spec fn norm_fetch(names: Seq<Seq<char>>, layer: int, slot: Slot) -> Seq<Fetch> {
    seq![Fetch { tensor: super::slots::slot_tensor(names, layer, slot)->0, required: true }]
}

/// What is decoded for a layer.
pub open spec fn layer_fetches(names: Seq<Seq<char>>, layer: int) -> Seq<Fetch> {
    norm_fetch(names, layer, Slot::AttnNorm) + norm_fetch(names, layer, Slot::FfnNorm)
        + bias_fetch(names, layer, "attn_q.bias"@) + bias_fetch(names, layer, "attn_k.bias"@)
        + bias_fetch(names, layer, "attn_v.bias"@)
}

/// What is decoded for a layer before it turns out that a weight is missing.
pub open spec fn gap_fetches(names: Seq<Seq<char>>, layer: int, gap: Slot) -> Seq<Fetch> {
    match gap {
        Slot::AttnNorm => Seq::empty(),
        Slot::FfnNorm => norm_fetch(names, layer, Slot::AttnNorm),
        _ => norm_fetch(names, layer, Slot::AttnNorm) + norm_fetch(names, layer, Slot::FfnNorm),
    }
}

/// The number of the decoding of a bias, where there is one and `at` decodings come before it.
pub open spec fn bias_number(fetches: Seq<Fetch>, at: int) -> Option<usize> {
    if fetches.len() == 0 {
        None
    } else {
        Some(at as usize)
    }
}

/// Rows of a tensor, where it is fused.
pub open spec fn rows_if(fused: bool, tensor: usize, start: nat, end: nat) -> Option<RowSpan> {
    if fused {
        Some(RowSpan { tensor, start: start as usize, end: end as usize })
    } else {
        None
    }
}

/// Rows of the fused tensor of a layer, where it has one.
pub open spec fn fused_rows(
    names: Seq<Seq<char>>,
    layer: int,
    start: nat,
    end: nat,
) -> Option<RowSpan> {
    rows_if(
        super::slots::is_fused(names, layer),
        super::slots::slot_tensor(names, layer, Slot::Query)->0,
        start,
        end,
    )
}

/// Where the weights of a layer come from, if `at` decodings come before those of the layer.
pub open spec fn layer_plan(
    names: Seq<Seq<char>>,
    c: ModelConfig,
    layer: int,
    at: int,
) -> LayerPlan {
    let q = bias_fetch(names, layer, "attn_q.bias"@);
    let k = bias_fetch(names, layer, "attn_k.bias"@);
    let v = bias_fetch(names, layer, "attn_v.bias"@);
    LayerPlan {
        attn_norm: at as usize,
        ffn_norm: (at + 1) as usize,
        attn_q: super::slots::slot_tensor(names, layer, Slot::Query)->0,
        attn_k: super::slots::slot_tensor(names, layer, Slot::Key)->0,
        attn_v: super::slots::slot_tensor(names, layer, Slot::Value)->0,
        attn_out: super::slots::slot_tensor(names, layer, Slot::AttnOut)->0,
        ffn_gate: super::slots::slot_tensor(names, layer, Slot::Gate)->0,
        ffn_up: super::slots::slot_tensor(names, layer, Slot::Up)->0,
        ffn_down: super::slots::slot_tensor(names, layer, Slot::Down)->0,
        q_bias: bias_number(q, at + 2),
        k_bias: bias_number(k, at + 2 + q.len()),
        v_bias: bias_number(v, at + 2 + q.len() + k.len()),
        q_rows: fused_rows(names, layer, 0, c.q_width()),
        k_rows: fused_rows(names, layer, c.q_width(), c.q_width() + c.kv_width()),
        v_rows: fused_rows(
            names,
            layer,
            c.q_width() + c.kv_width(),
            c.q_width() + 2 * c.kv_width(),
        ),
    }
}

fn find_slot(dir: &TensorDirectory, layer: usize, slot: Slot, fused: bool) -> (place: Option<
    usize,
>)
    requires
        fused == super::slots::is_fused(dir@, layer as int),
    ensures
        place == super::slots::slot_tensor(dir@, layer as int, slot),
{
    let names = names_of(layer, slot, fused);
    dir.find_any(&names)
}

/// Adds the decoding of a bias, where the layer has one.
fn plan_bias(
    dir: &TensorDirectory,
    layer: usize,
    suffix: &str,
    fetches: &mut Vec<Fetch>,
) -> (number: Option<usize>)
    ensures
        final(fetches)@ == old(fetches)@ + bias_fetch(dir@, layer as int, suffix@),
        number == bias_number(
            bias_fetch(dir@, layer as int, suffix@),
            old(fetches)@.len() as int,
        ),
{
    let name = layer_tensor_name(layer, suffix);
    let number = match dir.find(name.as_str()) {
        Some(tensor) => {
            let number: usize = fetches.len();
            fetches.push(Fetch { tensor, required: false });
            Some(number)
        },
        None => None,
    };
    assert(fetches@ =~= old(fetches)@ + bias_fetch(dir@, layer as int, suffix@));
    number
}

/// The query, key and value rows of the tensor `tensor`, where the layer is fused.
fn plan_rows(fused: bool, tensor: usize, c: &ModelConfig) -> (rows: (
    Option<RowSpan>,
    Option<RowSpan>,
    Option<RowSpan>,
))
    requires
        fused ==> c.fused_rows_fit(),
    ensures
        rows == (
            rows_if(fused, tensor, 0, c.q_width()),
            rows_if(fused, tensor, c.q_width(), c.q_width() + c.kv_width()),
            rows_if(
                fused,
                tensor,
                c.q_width() + c.kv_width(),
                c.q_width() + 2 * c.kv_width(),
            ),
        ),
{
    if fused {
        let q: usize = c.q_dim();
        let k: usize = q + c.kv_dim();
        let v: usize = k + c.kv_dim();
        (
            Some(RowSpan { tensor, start: 0, end: q }),
            Some(RowSpan { tensor, start: q, end: k }),
            Some(RowSpan { tensor, start: k, end: v }),
        )
    } else {
        (None, None, None)
    }
}

/// Finds the weights of a layer, or the first one that is missing.
fn plan_layer(
    dir: &TensorDirectory,
    c: &ModelConfig,
    layer: usize,
    fetches: &mut Vec<Fetch>,
) -> (plan: Result<LayerPlan, Slot>)
    requires
        c.widths_fit(),
        super::slots::is_fused(dir@, layer as int) ==> c.fused_rows_fit(),
    ensures
        match plan {
            Ok(p) => {
                &&& super::slots::first_gap(dir@, layer as int) is None
                &&& final(fetches)@ == old(fetches)@ + layer_fetches(dir@, layer as int)
                &&& p == layer_plan(dir@, *c, layer as int, old(fetches)@.len() as int)
            },
            Err(gap) => {
                &&& super::slots::first_gap(dir@, layer as int) == Some(gap)
                &&& final(fetches)@ == old(fetches)@ + gap_fetches(dir@, layer as int, gap)
            },
        },
{
    let fused = has_fused_qkv(dir, layer);
    let attn_norm: usize = fetches.len();
    let ghost before = fetches@;
    match find_slot(dir, layer, Slot::AttnNorm, fused) {
        Some(tensor) => fetches.push(Fetch { tensor, required: true }),
        None => {
            assert(fetches@ =~= before + gap_fetches(dir@, layer as int, Slot::AttnNorm));
            return Err(Slot::AttnNorm);
        },
    }
    assert(fetches@ =~= before + norm_fetch(dir@, layer as int, Slot::AttnNorm));
    let ffn_norm: usize = fetches.len();
    match find_slot(dir, layer, Slot::FfnNorm, fused) {
        Some(tensor) => fetches.push(Fetch { tensor, required: true }),
        None => {
            return Err(Slot::FfnNorm);
        },
    }
    assert(fetches@ =~= before + (norm_fetch(dir@, layer as int, Slot::AttnNorm) + norm_fetch(
        dir@,
        layer as int,
        Slot::FfnNorm,
    )));
    let attn_q = match find_slot(dir, layer, Slot::Query, fused) {
        Some(tensor) => tensor,
        None => {
            return Err(Slot::Query);
        },
    };
    let attn_k = match find_slot(dir, layer, Slot::Key, fused) {
        Some(tensor) => tensor,
        None => {
            return Err(Slot::Key);
        },
    };
    let attn_v = match find_slot(dir, layer, Slot::Value, fused) {
        Some(tensor) => tensor,
        None => {
            return Err(Slot::Value);
        },
    };
    let attn_out = match find_slot(dir, layer, Slot::AttnOut, fused) {
        Some(tensor) => tensor,
        None => {
            return Err(Slot::AttnOut);
        },
    };
    let ffn_gate = match find_slot(dir, layer, Slot::Gate, fused) {
        Some(tensor) => tensor,
        None => {
            return Err(Slot::Gate);
        },
    };
    let ffn_up = match find_slot(dir, layer, Slot::Up, fused) {
        Some(tensor) => tensor,
        None => {
            return Err(Slot::Up);
        },
    };
    let ffn_down = match find_slot(dir, layer, Slot::Down, fused) {
        Some(tensor) => tensor,
        None => {
            return Err(Slot::Down);
        },
    };
    let q_bias = plan_bias(dir, layer, "attn_q.bias", fetches);
    let k_bias = plan_bias(dir, layer, "attn_k.bias", fetches);
    let v_bias = plan_bias(dir, layer, "attn_v.bias", fetches);
    assert(fetches@ =~= before + layer_fetches(dir@, layer as int));
    let rows = plan_rows(fused, attn_q, c);
    Ok(
        LayerPlan {
            attn_norm,
            ffn_norm,
            attn_q,
            attn_k,
            attn_v,
            attn_out,
            ffn_gate,
            ffn_up,
            ffn_down,
            q_bias,
            k_bias,
            v_bias,
            q_rows: rows.0,
            k_rows: rows.1,
            v_rows: rows.2,
        },
    )
}

/// The output norm and the first `k` layers: what is decoded for them.
pub open spec fn fetches_before(names: Seq<Seq<char>>, k: nat) -> Seq<Fetch>
    decreases k,
{
    if k == 0 {
        seq![
            Fetch {
                tensor: super::directory::lookup(names, "output_norm.weight"@)->0,
                required: true,
            },
        ]
    } else {
        fetches_before(names, (k - 1) as nat) + layer_fetches(names, k - 1)
    }
}

/// The output projection: where the file has none, the token embedding serves as one.
pub open spec fn output_tensor(names: Seq<Seq<char>>) -> usize {
    match super::directory::lookup(names, "output.weight"@) {
        Some(tensor) => tensor,
        None => super::directory::lookup(names, "token_embd.weight"@)->0,
    }
}

/// `listed` are names like `name` that the file does have: up to eight of them, sorted.
pub open spec fn lists_similar(
    listed: Vec<String>,
    names: Seq<Seq<char>>,
    name: Seq<char>,
) -> bool {
    &&& crate::order::in_order(listed.deep_view())
    &&& listed.deep_view().to_multiset() == super::directory::similar(names, name).to_multiset()
}

/// The error is that no tensor is called `name`.
pub open spec fn is_missing(error: LoadError, names: Seq<Seq<char>>, name: Seq<char>) -> bool {
    error matches LoadError::Missing { name: n, similar } && n@ == name && lists_similar(
        similar,
        names,
        name,
    )
}

/// The error is that no tensor has any of the names `tried`.
pub open spec fn is_missing_any(
    error: LoadError,
    names: Seq<Seq<char>>,
    tried: Seq<Seq<char>>,
) -> bool {
    error matches LoadError::MissingAny { tried: t, similar } && t.deep_view() == tried
        && lists_similar(similar, names, tried[0])
}

/// The first layer that lacks a weight.
pub open spec fn is_first_gap(names: Seq<Seq<char>>, n_layers: int, layer: int) -> bool {
    &&& 0 <= layer < n_layers
    &&& super::slots::first_gap(names, layer) is Some
    &&& forall|j: int|
        0 <= j < layer ==> (#[trigger] super::slots::first_gap(names, j)) is None
}

/// `plan` is how a model with these dimensions is loaded from a file with these tensors.
pub open spec fn is_load_plan(plan: LoadPlan, names: Seq<Seq<char>>, c: ModelConfig) -> bool {
    if super::directory::lookup(names, "token_embd.weight"@) is None {
        &&& plan.fetches@.len() == 0
        &&& plan.found matches Err(e) && is_missing(e, names, "token_embd.weight"@)
    } else if super::directory::lookup(names, "output_norm.weight"@) is None {
        &&& plan.fetches@.len() == 0
        &&& plan.found matches Err(e) && is_missing(e, names, "output_norm.weight"@)
    } else {
        match plan.found {
            Ok(w) => {
                &&& forall|j: int|
                    0 <= j < c.n_layers ==> (#[trigger] super::slots::first_gap(names, j)) is None
                &&& plan.fetches@ == fetches_before(names, c.n_layers as nat)
                &&& is_found(w, names, c)
            },
            Err(e) => exists|layer: int| #[trigger]
                is_first_gap(names, c.n_layers as int, layer) && {
                    let gap = super::slots::first_gap(names, layer)->0;
                    &&& plan.fetches@ == fetches_before(names, layer as nat) + gap_fetches(
                        names,
                        layer,
                        gap,
                    )
                    &&& is_missing_any(
                        e,
                        names,
                        super::slots::slot_names(layer, gap, super::slots::is_fused(names, layer)),
                    )
                },
        }
    }
}

/// `w` are the weights that a file with these tensors holds.
pub open spec fn is_found(w: FoundWeights, names: Seq<Seq<char>>, c: ModelConfig) -> bool {
    &&& w.token_embd == super::directory::lookup(names, "token_embd.weight"@)->0
    &&& w.output == output_tensor(names)
    &&& w.layers@.len() == c.n_layers
    &&& forall|i: int|
        0 <= i < c.n_layers ==> (#[trigger] w.layers@[i]) == layer_plan(
            names,
            c,
            i,
            fetches_before(names, i as nat).len() as int,
        )
}

/// Where a layer is fused, its rows can be counted on this machine.
pub open spec fn splits_fit(names: Seq<Seq<char>>, c: ModelConfig) -> bool {
    forall|l: int|
        0 <= l < c.n_layers && #[trigger] super::slots::is_fused(names, l) ==> c.fused_rows_fit()
}

/// Whether the rows of all fused layers can be counted on this machine.
pub fn check_splits(dir: &TensorDirectory, c: &ModelConfig) -> (fit: bool)
    ensures
        fit == splits_fit(dir@, *c),
{
    if c.check_fused_rows() {
        return true;
    }
    let mut l: usize = 0;
    while l < c.n_layers
        invariant
            l <= c.n_layers,
            !c.fused_rows_fit(),
            forall|j: int| 0 <= j < l ==> !#[trigger] super::slots::is_fused(dir@, j),
        decreases c.n_layers - l,
    {
        if has_fused_qkv(dir, l) {
            return false;
        }
        l += 1;
    }
    true
}

fn missing(dir: &TensorDirectory, name: &str) -> (error: LoadError)
    ensures
        is_missing(error, dir@, name@),
{
    LoadError::Missing { name: name.to_owned(), similar: dir.similar_names(name) }
}

/// Plans how a model with dimensions `c` is loaded from a file with the tensors of `dir`.
pub fn plan_load(dir: &TensorDirectory, c: &ModelConfig) -> (plan: LoadPlan)
    requires
        c.widths_fit(),
        splits_fit(dir@, *c),
    ensures
        is_load_plan(plan, dir@, *c),
        plan.in_range(),
{
    let plan = find_weights(dir, c);
    proof {
        super::settle::lemma_plan_in_range(plan, dir@, *c);
    }
    plan
}

/// Goes through the layers until all weights are found or one is missing.
fn find_weights(dir: &TensorDirectory, c: &ModelConfig) -> (plan: LoadPlan)
    requires
        c.widths_fit(),
        splits_fit(dir@, *c),
    ensures
        is_load_plan(plan, dir@, *c),
{
    let mut fetches: Vec<Fetch> = Vec::new();
    let token_embd = match dir.find("token_embd.weight") {
        Some(tensor) => tensor,
        None => {
            return LoadPlan { fetches, found: Err(missing(dir, "token_embd.weight")) };
        },
    };
    match dir.find("output_norm.weight") {
        Some(tensor) => fetches.push(Fetch { tensor, required: true }),
        None => {
            return LoadPlan { fetches, found: Err(missing(dir, "output_norm.weight")) };
        },
    }
    let output = match dir.find("output.weight") {
        Some(tensor) => tensor,
        None => token_embd,
    };
    assert(fetches@ =~= fetches_before(dir@, 0));
    let mut layers: Vec<LayerPlan> = Vec::new();
    let mut i: usize = 0;
    while i < c.n_layers
        invariant
            c.widths_fit(),
            splits_fit(dir@, *c),
            i <= c.n_layers,
            super::directory::lookup(dir@, "token_embd.weight"@) is Some,
            super::directory::lookup(dir@, "output_norm.weight"@) is Some,
            layers@.len() == i,
            fetches@ == fetches_before(dir@, i as nat),
            forall|j: int| 0 <= j < i ==> (#[trigger] super::slots::first_gap(dir@, j)) is None,
            forall|j: int|
                0 <= j < i ==> (#[trigger] layers@[j]) == layer_plan(
                    dir@,
                    *c,
                    j,
                    fetches_before(dir@, j as nat).len() as int,
                ),
        decreases c.n_layers - i,
    {
        assert(super::slots::is_fused(dir@, i as int) ==> c.fused_rows_fit());
        match plan_layer(dir, c, i, &mut fetches) {
            Ok(layer) => layers.push(layer),
            Err(gap) => {
                assert(is_first_gap(dir@, c.n_layers as int, i as int));
                let tried = names_of(i, gap, has_fused_qkv(dir, i));
                let similar = dir.similar_names(tried[0].as_str());
                return LoadPlan { fetches, found: Err(LoadError::MissingAny { tried, similar }) };
            },
        }
        i += 1;
    }
    LoadPlan { fetches, found: Ok(FoundWeights { token_embd, output, layers }) }
}

impl LoadError {
    /// What the error says.
    pub open spec fn text(self) -> Seq<char> {
        match self {
            LoadError::Missing { name, similar } => "Missing tensor: "@ + name@ + "\n  Similar: "@
                + crate::text::joined(similar.deep_view(), ", "@),
            LoadError::MissingAny { tried, similar } => "Missing tensor (tried: "@
                + crate::text::joined(tried.deep_view(), ", "@) + ")\n  Similar: "@
                + crate::text::joined(similar.deep_view(), ", "@),
            LoadError::Undecodable { fetch: _, reason } => reason@,
            LoadError::Device { reason } => reason@,
        }
    }

    /// What the error says.
    pub fn message(&self) -> (text: String)
        ensures
            text@ == self.text(),
    {
        match self {
            LoadError::Missing { name, similar } => {
                let mut text = "Missing tensor: ".to_owned();
                text.append(name.as_str());
                text.append("\n  Similar: ");
                text.append(join(similar, ", ").as_str());
                text
            },
            LoadError::MissingAny { tried, similar } => {
                let mut text = "Missing tensor (tried: ".to_owned();
                text.append(join(tried, ", ").as_str());
                text.append(")\n  Similar: ");
                text.append(join(similar, ", ").as_str());
                text
            },
            LoadError::Undecodable { fetch: _, reason } => reason.clone(),
            LoadError::Device { reason } => reason.clone(),
        }
    }
}

} // verus!
