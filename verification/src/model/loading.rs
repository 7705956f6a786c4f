//! The last step of loading, and what loading promises as a whole.
use vstd::prelude::*;

use super::acts::plan_acts;
use super::config::ModelConfig;
use super::llama::LlamaModel;
use super::load::{LoadError, LoadPlan};
use super::uploads::place;
use super::weights::Weights;

verus! {

/// What a device made of the uploads and the allocations of a model.
pub struct DeviceOutcome {
    /// For each upload, whether the device holds the tensor.
    pub resident: Vec<bool>,
    /// Why an allocation failed, where one did.
    pub failure: Option<String>,
}

/// Whether a model goes to a device: it is meant to, and the device could be started. Otherwise
/// it stays on the host.
pub fn device_after(wanted: bool, init_failed: bool) -> (on: bool)
    ensures
        on == (wanted && !init_failed),
{
    wanted && !init_failed
}

/// `model` has these weights, and on the device what `device` says.
pub open spec fn is_loaded(
    model: LlamaModel,
    config: ModelConfig,
    weights: Weights,
    ctx_len: usize,
    device: Option<DeviceOutcome>,
) -> bool {
    &&& model.config == config
    &&& model.weights == weights
    &&& match device {
        Some(d) => {
            &&& model.gpu_w matches Some(gw) && gw.is_placed(
                d.resident@,
                config.n_layers as nat,
            )
            &&& model.gpu_acts matches Some(ga) && ga.is_allocated(weights, config, ctx_len)
        },
        None => model.gpu_w is None && model.gpu_acts is None,
    }
}

impl LlamaModel {
    /// Makes a model of its weights and, where there is a device, of what the device made of
    /// them.
    pub fn load(
        config: ModelConfig,
        weights: Weights,
        ctx_len: usize,
        device: Option<&DeviceOutcome>,
    ) -> (loaded: Result<LlamaModel, LoadError>)
        requires
            weights.covers(config.n_layers as nat),
            device matches Some(d) ==> d.resident@.len() == 1 + 7 * config.n_layers,
            device is Some ==> super::acts::rooms_fit(weights, config, ctx_len),
        ensures
            match device {
                Some(d) if d.failure is Some => loaded == Err::<LlamaModel, LoadError>(
                    LoadError::Device { reason: d.failure->0 },
                ),
                Some(d) => loaded matches Ok(m) && is_loaded(
                    m,
                    config,
                    weights,
                    ctx_len,
                    Some(*d),
                ) && m.on_gpu(),
                None => loaded matches Ok(m) && is_loaded(m, config, weights, ctx_len, None),
            },
    {
        match device {
            Some(d) => {
                if let Some(reason) = &d.failure {
                    return Err(LoadError::Device { reason: reason.clone() });
                }
                let gpu_w = place(&d.resident, config.n_layers);
                let plan = plan_acts(&weights, &config, ctx_len);
                Ok(LlamaModel { config, weights, gpu_w: Some(gpu_w), gpu_acts: Some(plan.acts) })
            },
            None => Ok(LlamaModel { config, weights, gpu_w: None, gpu_acts: None }),
        }
    }
}

/// A file that has every tensor, all of which can be decoded, gives the weights of a model; a
/// bias that cannot be decoded does not matter.
pub proof fn law_complete_file_loads(
    names: Seq<Seq<char>>,
    c: ModelConfig,
    plan: LoadPlan,
    decoded: Seq<Result<usize, String>>,
    result: Result<Weights, LoadError>,
)
    requires
        super::load::is_load_plan(plan, names, c),
        super::settle::settles(result, plan, decoded),
        decoded.len() == plan.fetches@.len(),
        super::directory::lookup(names, "token_embd.weight"@) is Some,
        super::directory::lookup(names, "output_norm.weight"@) is Some,
        forall|l: int|
            0 <= l < c.n_layers ==> (#[trigger] super::slots::first_gap(names, l)) is None,
        forall|i: int| 0 <= i < decoded.len() && plan.fetches@[i].required ==> decoded[i] is Ok,
    ensures
        result is Ok,
        (result->Ok_0).covers(c.n_layers as nat),
{
    assert(!exists|i: int| super::settle::failed(plan.fetches@, decoded, i));
}

/// A file that lacks a tensor gives no model.
pub proof fn law_incomplete_file_fails(
    names: Seq<Seq<char>>,
    c: ModelConfig,
    plan: LoadPlan,
    decoded: Seq<Result<usize, String>>,
    result: Result<Weights, LoadError>,
)
    requires
        super::load::is_load_plan(plan, names, c),
        super::settle::settles(result, plan, decoded),
        super::directory::lookup(names, "token_embd.weight"@) is None || super::directory::lookup(
            names,
            "output_norm.weight"@,
        ) is None || exists|l: int|
            0 <= l < c.n_layers && (#[trigger] super::slots::first_gap(names, l)) is Some,
    ensures
        result is Err,
{
}

/// Where the file has no output projection, the token embedding serves as one.
pub proof fn law_tied_embedding(
    names: Seq<Seq<char>>,
    c: ModelConfig,
    plan: LoadPlan,
    decoded: Seq<Result<usize, String>>,
    result: Result<Weights, LoadError>,
)
    requires
        super::load::is_load_plan(plan, names, c),
        super::settle::settles(result, plan, decoded),
        super::directory::lookup(names, "output.weight"@) is None,
        result is Ok,
    ensures
        (result->Ok_0).output == (result->Ok_0).token_embd,
{
}

/// The float rows of a fused layer are cut one after the other out of one tensor: all query
/// rows, then all key rows, then all value rows.
pub proof fn law_fused_rows_partition(
    names: Seq<Seq<char>>,
    c: ModelConfig,
    plan: LoadPlan,
    decoded: Seq<Result<usize, String>>,
    result: Result<Weights, LoadError>,
    l: int,
)
    requires
        super::load::is_load_plan(plan, names, c),
        super::settle::settles(result, plan, decoded),
        result is Ok,
        super::load::splits_fit(names, c),
        0 <= l < c.n_layers,
    ensures
        ({
            let w = result->Ok_0;
            &&& w.attn_q_f32@[l] is Some <==> super::slots::is_fused(names, l)
            &&& w.attn_k_f32@[l] is Some <==> super::slots::is_fused(names, l)
            &&& w.attn_v_f32@[l] is Some <==> super::slots::is_fused(names, l)
            &&& super::slots::is_fused(names, l) ==> {
                let q = w.attn_q_f32@[l]->0;
                let k = w.attn_k_f32@[l]->0;
                let v = w.attn_v_f32@[l]->0;
                &&& q.tensor == k.tensor == v.tensor == w.attn_q@[l]
                &&& q.start == 0 && q.end == k.start && k.end == v.start
                &&& q.end - q.start == c.q_width()
                &&& k.end - k.start == c.kv_width()
                &&& v.end - v.start == c.kv_width()
            }
        }),
{
    let found = plan.found->Ok_0;
    assert(super::settle::holds_layer(result->Ok_0, found.layers@[l], decoded, l));
    assert(super::slots::is_fused(names, l) ==> c.fused_rows_fit());
}

/// A model all of whose uploads the device holds is whole on the device, and its layers have
/// caches of their own.
pub proof fn law_loaded_model_is_whole(
    model: LlamaModel,
    config: ModelConfig,
    weights: Weights,
    ctx_len: usize,
    device: DeviceOutcome,
)
    requires
        weights.covers(config.n_layers as nat),
        is_loaded(model, config, weights, ctx_len, Some(device)),
        device.resident@.len() == 1 + 7 * config.n_layers <= usize::MAX,
        forall|i: int| 0 <= i < device.resident@.len() ==> #[trigger] device.resident@[i],
        super::acts::all_rooms(weights, config, ctx_len).len() <= usize::MAX,
    ensures
        super::laws_paths::whole_on_device(model, device.resident@),
        super::laws_cache::caches_apart(model.gpu_acts->0, config.n_layers as int),
        model.all_resident(),
{
    super::laws_cache::law_allocated_caches_are_apart(
        model.gpu_acts->0,
        weights,
        config,
        ctx_len,
    );
    assert forall|l: int| 0 <= l < config.n_layers implies #[trigger] (
    model.gpu_w->0).layer_resident(l) by {
        super::laws_paths::lemma_placed_resident(model, device.resident@, l);
    }
}

/// A loaded model has the dimensions and the weights that it was loaded with. On a device it has
/// room for the context that was asked for, and a weight is there if and only if the device holds
/// its upload: first the output projection, then the seven weights of all layers, one after the
/// other.
pub proof fn law_loaded_model_is_as_asked(
    model: LlamaModel,
    config: ModelConfig,
    weights: Weights,
    ctx_len: usize,
    device: DeviceOutcome,
    l: int,
)
    requires
        is_loaded(model, config, weights, ctx_len, Some(device)),
        device.resident@.len() == 1 + 7 * config.n_layers <= usize::MAX,
        0 <= l < config.n_layers,
    ensures
        model.config == config,
        model.weights == weights,
        (model.gpu_acts->0).ctx_len == ctx_len,
        ({
            let gw = model.gpu_w->0;
            let there = device.resident@;
            let n = config.n_layers as int;
            &&& gw.output is Some <==> there[0]
            &&& gw.attn_q@[l] is Some <==> there[1 + l]
            &&& gw.attn_k@[l] is Some <==> there[1 + n + l]
            &&& gw.attn_v@[l] is Some <==> there[1 + 2 * n + l]
            &&& gw.attn_out@[l] is Some <==> there[1 + 3 * n + l]
            &&& gw.ffn_gate@[l] is Some <==> there[1 + 4 * n + l]
            &&& gw.ffn_up@[l] is Some <==> there[1 + 5 * n + l]
            &&& gw.ffn_down@[l] is Some <==> there[1 + 6 * n + l]
        }),
{
}

/// Without a device a loaded model has nothing on one.
pub proof fn law_host_model_stays_on_the_host(
    model: LlamaModel,
    config: ModelConfig,
    weights: Weights,
    ctx_len: usize,
)
    requires
        is_loaded(model, config, weights, ctx_len, None),
    ensures
        model.config == config,
        model.weights == weights,
        model.gpu_w is None,
        model.gpu_acts is None,
{
}

} // verus!
