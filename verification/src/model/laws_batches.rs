//! However a prompt is evaluated, it is multiplied by the matrices of the model, in order.
use vstd::prelude::*;

use super::cpu::CpuMatrix;
use super::gpu::{ActBuf, GpuCmd, GpuTensor};
use super::llama::LlamaModel;
use super::uploads::Upload;
use super::weights::Weights;

verus! {

/// None of the commands is a product.
pub open spec fn holds_no_product(cmds: Seq<GpuCmd>) -> bool {
    forall|i: int|
        0 <= i < cmds.len() ==> !((#[trigger] cmds[i]) is Gemv) && !(cmds[i] is Gemm)
}

proof fn lemma_no_product(cmds: Seq<GpuCmd>, u: Seq<Upload>, cols: usize)
    requires
        holds_no_product(cmds),
    ensures
        super::laws_paths::device_matrices(cmds, u, cols) == Seq::<CpuMatrix>::empty(),
    decreases cmds.len(),
{
    if cmds.len() > 0 {
        let rest = cmds.drop_last();
        assert forall|i: int| 0 <= i < rest.len() implies !((#[trigger] rest[i]) is Gemv) && !(
        rest[i] is Gemm) by {
            assert(rest[i] == cmds[i]);
        }
        lemma_no_product(rest, u, cols);
        assert(!(cmds[cmds.len() - 1] is Gemv));
        assert(super::laws_paths::device_matrices(cmds, u, cols) =~= Seq::empty());
    }
}

proof fn lemma_gemm(
    weight: Option<GpuTensor>,
    src: ActBuf,
    dst: ActBuf,
    batch: u32,
    u: Seq<Upload>,
    cols: usize,
)
    requires
        weight is Some,
    ensures
        super::laws_paths::device_matrices(
            super::record::gemm_cmd(weight, src, dst, batch),
            u,
            cols,
        ) == seq![super::laws_paths::uploaded(u[(weight->0).id as int], cols)],
{
    super::laws_paths::lemma_one(
        GpuCmd::Gemm { weight: weight->0, src, dst, batch },
        u,
        cols,
    );
}

/// Commands in front that are no products do not count.
proof fn lemma_front(a: Seq<GpuCmd>, b: Seq<GpuCmd>, u: Seq<Upload>, cols: usize)
    requires
        super::laws_paths::device_matrices(a, u, cols) == Seq::<CpuMatrix>::empty(),
    ensures
        super::laws_paths::device_matrices(a + b, u, cols) == super::laws_paths::device_matrices(
            b,
            u,
            cols,
        ),
{
    super::laws_paths::lemma_sum(a, b, u, cols);
    assert(super::laws_paths::device_matrices(a, u, cols) + super::laws_paths::device_matrices(
        b,
        u,
        cols,
    ) =~= super::laws_paths::device_matrices(b, u, cols));
}

proof fn lemma_batch_qkv(model: LlamaModel, resident: Seq<bool>, l: int, b: int)
    requires
        super::laws_paths::whole_on_device(model, resident),
        0 <= l < model.config.n_layers,
    ensures
        super::laws_paths::device_matrices(
            model.batch_qkv_stretch(l, b),
            super::uploads::uploads_of(model.weights, model.config),
            model.config.n_embd,
        ) == super::laws_paths::qkv_matrices(model.weights, model.config, l),
{
    let (c, w, gw, ga) = (model.config, model.weights, model.gpu_w->0, model.gpu_acts->0);
    let u = super::uploads::uploads_of(w, c);
    let cols = c.n_embd;
    let norm = GpuCmd::BatchRmsNorm {
        src: ga.x_batch,
        weight: ga.attn_norms@[l],
        dst: ga.xn_batch,
        n: c.n_embd as u32,
        batch: b as u32,
    };
    let s1 = super::record::fenced(norm);
    let q = super::record::gemm_cmd(gw.attn_q@[l], ga.xn_batch, ga.q_batch, b as u32);
    let k = super::record::gemm_cmd(gw.attn_k@[l], ga.xn_batch, ga.k_batch, b as u32);
    let v = super::record::gemm_cmd(gw.attn_v@[l], ga.xn_batch, ga.v_batch, b as u32);
    super::laws_paths::lemma_placed_resident(model, resident, l);
    super::uploads::law_handles_name_their_weights(gw, resident, w, c, l);
    super::laws_paths::lemma_idle(norm, u, cols);
    super::laws_paths::lemma_idle(GpuCmd::Barrier, u, cols);
    lemma_gemm(gw.attn_q@[l], ga.xn_batch, ga.q_batch, b as u32, u, cols);
    lemma_gemm(gw.attn_k@[l], ga.xn_batch, ga.k_batch, b as u32, u, cols);
    lemma_gemm(gw.attn_v@[l], ga.xn_batch, ga.v_batch, b as u32, u, cols);
    lemma_front(s1, q, u, cols);
    super::laws_paths::lemma_sum(s1 + q, k, u, cols);
    super::laws_paths::lemma_sum(s1 + q + k, v, u, cols);
    super::laws_paths::lemma_rest(s1 + q + k + v, super::record::barrier(), u, cols);
}

proof fn lemma_batch_middle(model: LlamaModel, l: int, pos: int, b: int, cols: usize)
    ensures
        super::laws_paths::device_matrices(
            model.batch_bias_stretch(l, b),
            super::uploads::uploads_of(model.weights, model.config),
            cols,
        ) == Seq::<CpuMatrix>::empty(),
        super::laws_paths::device_matrices(
            model.batch_write_stretch(l, pos, b),
            super::uploads::uploads_of(model.weights, model.config),
            cols,
        ) == Seq::<CpuMatrix>::empty(),
        super::laws_paths::device_matrices(
            model.batch_items(l, pos, b, b),
            super::uploads::uploads_of(model.weights, model.config),
            cols,
        ) == Seq::<CpuMatrix>::empty(),
{
    let u = super::uploads::uploads_of(model.weights, model.config);
    let bias = model.batch_bias_stretch(l, b);
    let write = model.batch_write_stretch(l, pos, b);
    let items = model.batch_items(l, pos, b, b);
    assert(holds_no_product(bias));
    lemma_no_product(bias, u, cols);
    assert(holds_no_product(write));
    lemma_no_product(write, u, cols);
    super::laws_gemm::lemma_items(model, l, pos, b, b);
    let gemm = |cmd: GpuCmd| cmd is Gemm;
    let gemv = |cmd: GpuCmd| cmd is Gemv;
    assert forall|i: int| 0 <= i < items.len() implies !((#[trigger] items[i]) is Gemv) && !(
    items[i] is Gemm) by {
        assert(!gemm(items[i]) && !gemv(items[i]));
    }
    lemma_no_product(items, u, cols);
}

proof fn lemma_batch_out(model: LlamaModel, resident: Seq<bool>, l: int, b: int)
    requires
        super::laws_paths::whole_on_device(model, resident),
        0 <= l < model.config.n_layers,
    ensures
        super::laws_paths::device_matrices(
            model.batch_out_stretch(l, b),
            super::uploads::uploads_of(model.weights, model.config),
            model.config.n_embd,
        ) == seq![CpuMatrix::Quant { tensor: model.weights.attn_out@[l] }],
{
    let (c, w, gw, ga) = (model.config, model.weights, model.gpu_w->0, model.gpu_acts->0);
    let u = super::uploads::uploads_of(w, c);
    let cols = c.n_embd;
    let sum = GpuCmd::BatchAdd {
        dst: ga.x_batch,
        src: ga.proj_batch,
        n: c.n_embd as u32,
        batch: b as u32,
    };
    let fence = super::record::barrier();
    let out = super::record::gemm_cmd(gw.attn_out@[l], ga.ao_batch, ga.proj_batch, b as u32);
    super::laws_paths::lemma_placed_resident(model, resident, l);
    super::uploads::law_handles_name_their_weights(gw, resident, w, c, l);
    super::laws_paths::lemma_idle(GpuCmd::Barrier, u, cols);
    super::laws_paths::lemma_idle(sum, u, cols);
    lemma_gemm(gw.attn_out@[l], ga.ao_batch, ga.proj_batch, b as u32, u, cols);
    lemma_front(fence, out, u, cols);
    super::laws_paths::lemma_rest(fence + out, fence, u, cols);
    super::laws_paths::lemma_rest(fence + out + fence, super::record::fenced(sum), u, cols);
}

proof fn lemma_batch_feed(model: LlamaModel, resident: Seq<bool>, l: int, b: int)
    requires
        super::laws_paths::whole_on_device(model, resident),
        0 <= l < model.config.n_layers,
    ensures
        super::laws_paths::device_matrices(
            model.batch_feed_stretch(l, b),
            super::uploads::uploads_of(model.weights, model.config),
            model.config.n_embd,
        ) == seq![CpuMatrix::Quant { tensor: model.weights.ffn_gate@[l] }] + seq![
            CpuMatrix::Quant { tensor: model.weights.ffn_up@[l] },
        ] + seq![CpuMatrix::Quant { tensor: model.weights.ffn_down@[l] }],
{
    let (c, w, gw, ga) = (model.config, model.weights, model.gpu_w->0, model.gpu_acts->0);
    let u = super::uploads::uploads_of(w, c);
    let cols = c.n_embd;
    let norm = GpuCmd::BatchRmsNorm {
        src: ga.x_batch,
        weight: ga.ffn_norms@[l],
        dst: ga.xn_batch,
        n: c.n_embd as u32,
        batch: b as u32,
    };
    let swiglu = GpuCmd::BatchSwiGlu {
        gate: ga.gate_batch,
        up: ga.up_batch,
        n: c.n_ff as u32,
        batch: b as u32,
    };
    let sum = GpuCmd::BatchAdd {
        dst: ga.x_batch,
        src: ga.ff_batch,
        n: c.n_embd as u32,
        batch: b as u32,
    };
    let fence = super::record::barrier();
    let gate = super::record::gemm_cmd(gw.ffn_gate@[l], ga.xn_batch, ga.gate_batch, b as u32);
    let up = super::record::gemm_cmd(gw.ffn_up@[l], ga.xn_batch, ga.up_batch, b as u32);
    let down = super::record::gemm_cmd(gw.ffn_down@[l], ga.gate_batch, ga.ff_batch, b as u32);
    let s1 = super::record::fenced(norm);
    let s2 = s1 + gate + up;
    let s3 = s2 + fence;
    let s4 = s3 + super::record::fenced(swiglu);
    let s5 = s4 + down;
    let s6 = s5 + fence;
    super::laws_paths::lemma_placed_resident(model, resident, l);
    super::uploads::law_handles_name_their_weights(gw, resident, w, c, l);
    super::laws_paths::lemma_idle(norm, u, cols);
    super::laws_paths::lemma_idle(GpuCmd::Barrier, u, cols);
    super::laws_paths::lemma_idle(swiglu, u, cols);
    super::laws_paths::lemma_idle(sum, u, cols);
    lemma_gemm(gw.ffn_gate@[l], ga.xn_batch, ga.gate_batch, b as u32, u, cols);
    lemma_gemm(gw.ffn_up@[l], ga.xn_batch, ga.up_batch, b as u32, u, cols);
    lemma_gemm(gw.ffn_down@[l], ga.gate_batch, ga.ff_batch, b as u32, u, cols);
    lemma_front(s1, gate, u, cols);
    super::laws_paths::lemma_sum(s1 + gate, up, u, cols);
    super::laws_paths::lemma_rest(s2, fence, u, cols);
    super::laws_paths::lemma_rest(s3, super::record::fenced(swiglu), u, cols);
    super::laws_paths::lemma_sum(s4, down, u, cols);
    super::laws_paths::lemma_rest(s5, fence, u, cols);
    super::laws_paths::lemma_rest(s6, super::record::fenced(sum), u, cols);
}

proof fn lemma_batch_layer(model: LlamaModel, resident: Seq<bool>, l: int, pos: int, b: int)
    requires
        super::laws_paths::whole_on_device(model, resident),
        0 <= l < model.config.n_layers,
    ensures
        super::laws_paths::device_matrices(
            model.batch_layer_cmds(l, pos, b),
            super::uploads::uploads_of(model.weights, model.config),
            model.config.n_embd,
        ) == super::laws_paths::layer_matrices(model.weights, model.config, l),
{
    let (c, w) = (model.config, model.weights);
    let u = super::uploads::uploads_of(w, c);
    let cols = c.n_embd;
    let s1 = model.batch_qkv_stretch(l, b);
    let s2 = s1 + model.batch_bias_stretch(l, b);
    let s3 = s2 + model.batch_write_stretch(l, pos, b);
    let s4 = s3 + model.batch_items(l, pos, b, b);
    let s5 = s4 + model.batch_out_stretch(l, b);
    lemma_batch_qkv(model, resident, l, b);
    lemma_batch_middle(model, l, pos, b, cols);
    super::laws_paths::lemma_rest(s1, model.batch_bias_stretch(l, b), u, cols);
    super::laws_paths::lemma_rest(s2, model.batch_write_stretch(l, pos, b), u, cols);
    super::laws_paths::lemma_rest(s3, model.batch_items(l, pos, b, b), u, cols);
    lemma_batch_out(model, resident, l, b);
    super::laws_paths::lemma_sum(s4, model.batch_out_stretch(l, b), u, cols);
    lemma_batch_feed(model, resident, l, b);
    super::laws_paths::lemma_sum(s5, model.batch_feed_stretch(l, b), u, cols);
}

proof fn lemma_batch_layers(model: LlamaModel, resident: Seq<bool>, pos: int, b: int, k: nat)
    requires
        super::laws_paths::whole_on_device(model, resident),
        k <= model.config.n_layers,
    ensures
        super::laws_paths::device_matrices(
            model.batch_layers_cmds(pos, b, k),
            super::uploads::uploads_of(model.weights, model.config),
            model.config.n_embd,
        ) == super::laws_paths::layers_matrices(model.weights, model.config, k),
    decreases k,
{
    if k > 0 {
        lemma_batch_layers(model, resident, pos, b, (k - 1) as nat);
        lemma_batch_layer(model, resident, k - 1, pos, b);
        super::laws_paths::lemma_sum(
            model.batch_layers_cmds(pos, b, (k - 1) as nat),
            model.batch_layer_cmds(k - 1, pos, b),
            super::uploads::uploads_of(model.weights, model.config),
            model.config.n_embd,
        );
    }
}

/// The output projection, after the last chunk only.
pub open spec fn output_matrix(w: Weights, last: bool) -> Seq<CpuMatrix> {
    if last {
        seq![CpuMatrix::Quant { tensor: w.output }]
    } else {
        Seq::empty()
    }
}

proof fn lemma_batch_close(model: LlamaModel, resident: Seq<bool>, b: int, last: bool)
    requires
        super::laws_paths::whole_on_device(model, resident),
    ensures
        super::laws_paths::device_matrices(
            model.batch_close_cmds(b, last),
            super::uploads::uploads_of(model.weights, model.config),
            model.config.n_embd,
        ) == output_matrix(model.weights, last),
{
    let (c, w, gw, ga) = (model.config, model.weights, model.gpu_w->0, model.gpu_acts->0);
    let u = super::uploads::uploads_of(w, c);
    let cols = c.n_embd;
    if last {
        let copy = GpuCmd::CopyToAct {
            dst: ga.xn,
            src: super::gpu::CopySource::Act(ga.x_batch),
            offset: ((b - 1) * c.n_embd * 4) as u64,
        };
        let norm = GpuCmd::RmsNorm {
            src: ga.xn,
            weight: ga.out_norm,
            dst: ga.xn,
            n: c.n_embd as u32,
        };
        let submit = GpuCmd::SubmitWithReadback { logits: ga.logits, readback: ga.logits_rb };
        let s1 = super::record::fenced(copy);
        let s2 = s1 + super::record::fenced(norm);
        let out = super::record::gemv_cmd(gw.output, ga.xn, ga.logits);
        assert(resident[0]);
        super::laws_paths::lemma_idle(copy, u, cols);
        super::laws_paths::lemma_idle(norm, u, cols);
        super::laws_paths::lemma_idle(submit, u, cols);
        super::laws_paths::lemma_rest(s1, super::record::fenced(norm), u, cols);
        super::laws_paths::lemma_gemv(gw.output, ga.xn, ga.logits, u, cols);
        lemma_front(s2, out, u, cols);
        super::laws_paths::lemma_rest(s2 + out, seq![submit], u, cols);
    } else {
        super::laws_paths::lemma_idle(GpuCmd::SubmitNoReadback, u, cols);
    }
}

/// The matrices of the layers, `k` times over.
pub open spec fn passes(w: Weights, c: super::config::ModelConfig, k: nat) -> Seq<CpuMatrix>
    decreases k,
{
    if k == 0 {
        Seq::empty()
    } else {
        super::laws_paths::layers_matrices(w, c, c.n_layers as nat) + passes(w, c, (k - 1) as nat)
    }
}

proof fn lemma_batch(
    model: LlamaModel,
    resident: Seq<bool>,
    start: int,
    from: int,
    to: int,
    n: int,
)
    requires
        super::laws_paths::whole_on_device(model, resident),
    ensures
        super::laws_paths::device_matrices(
            model.batch_cmds(start, from, to, n),
            super::uploads::uploads_of(model.weights, model.config),
            model.config.n_embd,
        ) == super::laws_paths::layers_matrices(
            model.weights,
            model.config,
            model.config.n_layers as nat,
        ) + output_matrix(model.weights, to == n),
{
    let (c, w) = (model.config, model.weights);
    let u = super::uploads::uploads_of(w, c);
    let cols = c.n_embd;
    let open = model.batch_open_cmds(from, to - from);
    let layers = model.batch_layers_cmds(start + from, to - from, c.n_layers as nat);
    assert(holds_no_product(open));
    lemma_no_product(open, u, cols);
    lemma_batch_layers(model, resident, start + from, to - from, c.n_layers as nat);
    lemma_front(open, layers, u, cols);
    lemma_batch_close(model, resident, to - from, to == n);
    super::laws_paths::lemma_sum(
        open + layers,
        model.batch_close_cmds(to - from, to == n),
        u,
        cols,
    );
}

proof fn lemma_batches(
    model: LlamaModel,
    resident: Seq<bool>,
    start: int,
    from: int,
    n: int,
    size: int,
)
    requires
        super::laws_paths::whole_on_device(model, resident),
        0 <= from < n,
        size >= 1,
    ensures
        super::laws_paths::device_matrices(
            model.batches_cmds(start, from, n, size),
            super::uploads::uploads_of(model.weights, model.config),
            model.config.n_embd,
        ) == passes(
            model.weights,
            model.config,
            super::prefill::chunk_count(n - from, size) as nat,
        ) + output_matrix(model.weights, true),
    decreases n - from,
{
    let (c, w) = (model.config, model.weights);
    let u = super::uploads::uploads_of(w, c);
    let cols = c.n_embd;
    let to = super::prefill::chunk_end(from, size, n);
    let layers = super::laws_paths::layers_matrices(w, c, c.n_layers as nat);
    let out = output_matrix(w, true);
    let later = model.batches_cmds(start, to, n, size);
    super::laws::lemma_chunk_count(n - from, size);
    lemma_batch(model, resident, start, from, to, n);
    super::laws_paths::lemma_sum(model.batch_cmds(start, from, to, n), later, u, cols);
    if to == n {
        let one = passes(w, c, 1);
        assert(passes(w, c, 0) =~= Seq::<CpuMatrix>::empty());
        assert(one =~= layers);
        assert(super::laws_paths::device_matrices(later, u, cols) =~= Seq::<CpuMatrix>::empty());
        assert((layers + out) + Seq::<CpuMatrix>::empty() =~= one + out);
    } else {
        lemma_batches(model, resident, start, to, n, size);
        let k = super::prefill::chunk_count(n - to, size) as nat;
        let rest = passes(w, c, k);
        assert((layers + Seq::<CpuMatrix>::empty()) + (rest + out) =~= (layers + rest) + out);
        assert(passes(w, c, k + 1) == layers + rest);
    }
}

/// A prompt that is evaluated in batches on a device that holds the whole model is multiplied,
/// for each batch, by the matrices of all layers, in the order of the host, and by the output
/// projection once at the end.
pub proof fn law_batches_follow_host(
    model: LlamaModel,
    resident: Seq<bool>,
    start: int,
    n: int,
    size: int,
)
    requires
        super::laws_paths::whole_on_device(model, resident),
        n >= 1,
        size >= 1,
    ensures
        super::laws_paths::device_matrices(
            model.prefill_gemm_cmds(start, n, size),
            super::uploads::uploads_of(model.weights, model.config),
            model.config.n_embd,
        ) == passes(
            model.weights,
            model.config,
            super::prefill::chunk_count(n, size) as nat,
        ) + output_matrix(model.weights, true),
{
    let u = super::uploads::uploads_of(model.weights, model.config);
    let ga = model.gpu_acts->0;
    let read = GpuCmd::ReadLogits { logits: ga.logits, readback: ga.logits_rb };
    lemma_batches(model, resident, start, 0, n, size);
    super::laws_paths::lemma_idle(read, u, model.config.n_embd);
    super::laws_paths::lemma_rest(
        model.batches_cmds(start, 0, n, size),
        seq![read],
        u,
        model.config.n_embd,
    );
}

proof fn lemma_passes_sum(w: Weights, c: super::config::ModelConfig, a: nat, b: nat)
    ensures
        passes(w, c, a + b) == passes(w, c, a) + passes(w, c, b),
    decreases a,
{
    if a == 0 {
        assert(passes(w, c, a) + passes(w, c, b) =~= passes(w, c, b));
    } else {
        lemma_passes_sum(w, c, (a - 1) as nat, b);
        assert(passes(w, c, a + b) =~= passes(w, c, a) + passes(w, c, b));
    }
}

proof fn lemma_layer(model: LlamaModel, resident: Seq<bool>, l: int, pos: int)
    requires
        super::laws_paths::whole_on_device(model, resident),
        0 <= l < model.config.n_layers,
    ensures
        super::laws_paths::device_matrices(
            super::record::layer_cmds(
                model.config,
                model.gpu_w->0,
                model.gpu_acts->0,
                l,
                pos,
            ),
            super::uploads::uploads_of(model.weights, model.config),
            model.config.n_embd,
        ) == super::laws_paths::layer_matrices(model.weights, model.config, l),
{
    let (c, w, gw, ga) = (model.config, model.weights, model.gpu_w->0, model.gpu_acts->0);
    let u = super::uploads::uploads_of(w, c);
    let cols = c.n_embd;
    let s1 = super::record::norm_stretch(c, ga, l);
    let s2 = s1 + super::record::qkv_stretch(gw, ga, l);
    let s3 = s2 + super::record::bias_stretch(c, ga, l);
    let s4 = s3 + super::record::attend_stretch(c, ga, l, pos);
    let s5 = s4 + super::record::project_stretch(c, gw, ga, l);
    let s6 = s5 + super::record::feed_stretch(c, gw, ga, l);
    super::laws_paths::lemma_placed_resident(model, resident, l);
    super::uploads::law_handles_name_their_weights(gw, resident, w, c, l);
    super::laws_paths::lemma_idle(
        GpuCmd::RmsNorm { src: ga.x, weight: ga.attn_norms@[l], dst: ga.xn, n: c.n_embd as u32 },
        u,
        cols,
    );
    super::laws_paths::lemma_qkv(gw, ga, l, u, cols);
    lemma_front(s1, super::record::qkv_stretch(gw, ga, l), u, cols);
    super::laws_paths::lemma_biases(c, ga, l, u, cols);
    super::laws_paths::lemma_rest(s2, super::record::bias_stretch(c, ga, l), u, cols);
    super::laws_paths::lemma_attend(c, ga, l, pos, u, cols);
    super::laws_paths::lemma_rest(s3, super::record::attend_stretch(c, ga, l, pos), u, cols);
    super::laws_paths::lemma_project(c, gw, ga, l, u, cols);
    super::laws_paths::lemma_sum(s4, super::record::project_stretch(c, gw, ga, l), u, cols);
    super::laws_paths::lemma_feed(c, gw, ga, l, u, cols);
    super::laws_paths::lemma_sum(s5, super::record::feed_stretch(c, gw, ga, l), u, cols);
    super::laws_paths::lemma_idle(super::record::residual_cmd(c, ga), u, cols);
    super::laws_paths::lemma_rest(
        s6,
        super::record::fenced(super::record::residual_cmd(c, ga)),
        u,
        cols,
    );
    super::laws_paths::lemma_regroup(
        super::laws_paths::qkv_matrices(w, c, l),
        CpuMatrix::Quant { tensor: w.attn_out@[l] },
        CpuMatrix::Quant { tensor: w.ffn_gate@[l] },
        CpuMatrix::Quant { tensor: w.ffn_up@[l] },
        CpuMatrix::Quant { tensor: w.ffn_down@[l] },
    );
}

proof fn lemma_layers(model: LlamaModel, resident: Seq<bool>, pos: int, k: nat)
    requires
        super::laws_paths::whole_on_device(model, resident),
        k <= model.config.n_layers,
    ensures
        super::laws_paths::device_matrices(
            super::llama::layers_cmds(
                model.config,
                model.gpu_w->0,
                model.gpu_acts->0,
                pos,
                k,
            ),
            super::uploads::uploads_of(model.weights, model.config),
            model.config.n_embd,
        ) == super::laws_paths::layers_matrices(model.weights, model.config, k),
    decreases k,
{
    if k > 0 {
        let (c, gw, ga) = (model.config, model.gpu_w->0, model.gpu_acts->0);
        lemma_layers(model, resident, pos, (k - 1) as nat);
        lemma_layer(model, resident, k - 1, pos);
        super::laws_paths::lemma_sum(
            super::llama::layers_cmds(c, gw, ga, pos, (k - 1) as nat),
            super::record::layer_cmds(c, gw, ga, k - 1, pos),
            super::uploads::uploads_of(model.weights, c),
            c.n_embd,
        );
    }
}

proof fn lemma_tokens(model: LlamaModel, resident: Seq<bool>, start: int, from: int, to: int)
    requires
        super::laws_paths::whole_on_device(model, resident),
        from <= to,
    ensures
        super::laws_paths::device_matrices(
            model.tokens_cmds(start, from, to),
            super::uploads::uploads_of(model.weights, model.config),
            model.config.n_embd,
        ) == passes(model.weights, model.config, (to - from) as nat),
    decreases to - from,
{
    if from < to {
        let (c, w, gw, ga) = (model.config, model.weights, model.gpu_w->0, model.gpu_acts->0);
        let u = super::uploads::uploads_of(w, c);
        let copy = GpuCmd::CopyToAct {
            dst: ga.x,
            src: super::gpu::CopySource::Staging,
            offset: ((to - 1) * c.n_embd * 4) as u64,
        };
        let layers = super::llama::layers_cmds(c, gw, ga, start + to - 1, c.n_layers as nat);
        let k = (to - 1 - from) as nat;
        lemma_tokens(model, resident, start, from, to - 1);
        lemma_layers(model, resident, start + to - 1, c.n_layers as nat);
        super::laws_paths::lemma_idle(copy, u, c.n_embd);
        lemma_front(seq![copy], layers, u, c.n_embd);
        super::laws_paths::lemma_sum(
            model.tokens_cmds(start, from, to - 1),
            model.token_cmds(start, to - 1),
            u,
            c.n_embd,
        );
        lemma_passes_sum(w, c, k, 1);
        assert(passes(w, c, 0) =~= Seq::<CpuMatrix>::empty());
        assert(passes(w, c, 1) =~= super::laws_paths::layers_matrices(w, c, c.n_layers as nat));
        assert((to - from) as nat == k + 1);
    }
}

proof fn lemma_close(model: LlamaModel, resident: Seq<bool>, last: bool)
    requires
        super::laws_paths::whole_on_device(model, resident),
    ensures
        super::laws_paths::device_matrices(
            model.close_cmds(last),
            super::uploads::uploads_of(model.weights, model.config),
            model.config.n_embd,
        ) == output_matrix(model.weights, last),
{
    let (c, w, gw, ga) = (model.config, model.weights, model.gpu_w->0, model.gpu_acts->0);
    let u = super::uploads::uploads_of(w, c);
    let cols = c.n_embd;
    if last {
        let norm = GpuCmd::RmsNorm {
            src: ga.x,
            weight: ga.out_norm,
            dst: ga.xn,
            n: c.n_embd as u32,
        };
        let submit = GpuCmd::SubmitWithReadback { logits: ga.logits, readback: ga.logits_rb };
        let out = super::record::gemv_cmd(gw.output, ga.xn, ga.logits);
        assert(resident[0]);
        super::laws_paths::lemma_idle(norm, u, cols);
        super::laws_paths::lemma_idle(submit, u, cols);
        super::laws_paths::lemma_gemv(gw.output, ga.xn, ga.logits, u, cols);
        lemma_front(super::record::fenced(norm), out, u, cols);
        super::laws_paths::lemma_rest(
            super::record::output_cmds(c, gw, ga),
            seq![submit],
            u,
            cols,
        );
    } else {
        super::laws_paths::lemma_idle(GpuCmd::SubmitNoReadback, u, cols);
    }
}

proof fn lemma_chunk(
    model: LlamaModel,
    resident: Seq<bool>,
    start: int,
    from: int,
    to: int,
    n: int,
)
    requires
        super::laws_paths::whole_on_device(model, resident),
        from <= to,
    ensures
        super::laws_paths::device_matrices(
            model.chunk_cmds(start, from, to, n),
            super::uploads::uploads_of(model.weights, model.config),
            model.config.n_embd,
        ) == passes(model.weights, model.config, (to - from) as nat) + output_matrix(
            model.weights,
            to == n,
        ),
{
    let c = model.config;
    let u = super::uploads::uploads_of(model.weights, c);
    let begin = GpuCmd::BeginForSets {
        sets: super::prefill::gemv_sets(c.n_layers as int, to - from) as u32,
    };
    super::laws_paths::lemma_idle(begin, u, c.n_embd);
    lemma_tokens(model, resident, start, from, to);
    lemma_front(seq![begin], model.tokens_cmds(start, from, to), u, c.n_embd);
    lemma_close(model, resident, to == n);
    super::laws_paths::lemma_sum(
        seq![begin] + model.tokens_cmds(start, from, to),
        model.close_cmds(to == n),
        u,
        c.n_embd,
    );
}

proof fn lemma_chunks(
    model: LlamaModel,
    resident: Seq<bool>,
    start: int,
    from: int,
    n: int,
    size: int,
)
    requires
        super::laws_paths::whole_on_device(model, resident),
        0 <= from < n,
        size >= 1,
    ensures
        super::laws_paths::device_matrices(
            model.chunks_cmds(start, from, n, size),
            super::uploads::uploads_of(model.weights, model.config),
            model.config.n_embd,
        ) == passes(model.weights, model.config, (n - from) as nat) + output_matrix(
            model.weights,
            true,
        ),
    decreases n - from,
{
    let (c, w) = (model.config, model.weights);
    let u = super::uploads::uploads_of(w, c);
    let cols = c.n_embd;
    let to = super::prefill::chunk_end(from, size, n);
    let later = model.chunks_cmds(start, to, n, size);
    let out = output_matrix(w, true);
    let here = passes(w, c, (to - from) as nat);
    lemma_chunk(model, resident, start, from, to, n);
    super::laws_paths::lemma_sum(model.chunk_cmds(start, from, to, n), later, u, cols);
    if to == n {
        assert(super::laws_paths::device_matrices(later, u, cols) =~= Seq::<CpuMatrix>::empty());
        assert((here + out) + Seq::<CpuMatrix>::empty() =~= here + out);
    } else {
        lemma_chunks(model, resident, start, to, n, size);
        let rest = passes(w, c, (n - to) as nat);
        lemma_passes_sum(w, c, (to - from) as nat, (n - to) as nat);
        assert((here + Seq::<CpuMatrix>::empty()) + (rest + out) =~= (here + rest) + out);
        assert((n - from) as nat == (to - from) as nat + (n - to) as nat);
    }
}

/// A prompt that is evaluated a token at a time on a device that holds the whole model is
/// multiplied, for each token, by the matrices of all layers, in the order of the host, and by
/// the output projection once at the end.
pub proof fn law_prompt_follows_host(
    model: LlamaModel,
    resident: Seq<bool>,
    start: int,
    n: int,
    size: int,
)
    requires
        super::laws_paths::whole_on_device(model, resident),
        n >= 1,
        size >= 1,
    ensures
        super::laws_paths::device_matrices(
            model.prefill_cmds(start, n, size),
            super::uploads::uploads_of(model.weights, model.config),
            model.config.n_embd,
        ) == passes(model.weights, model.config, n as nat) + output_matrix(model.weights, true),
{
    let u = super::uploads::uploads_of(model.weights, model.config);
    let cols = model.config.n_embd;
    let ga = model.gpu_acts->0;
    let read = GpuCmd::ReadLogits { logits: ga.logits, readback: ga.logits_rb };
    let end = seq![GpuCmd::FreeStaging, read];
    lemma_chunks(model, resident, start, 0, n, size);
    assert(holds_no_product(end));
    lemma_no_product(end, u, cols);
    super::laws_paths::lemma_rest(model.chunks_cmds(start, 0, n, size), end, u, cols);
}

} // verus!
