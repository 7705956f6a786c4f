//! How many products a prompt takes, a token at a time and a chunk at a time.
use vstd::prelude::*;

use super::gpu::{ActBuf, GpuActs, GpuCmd, GpuTensor};
use super::llama::LlamaModel;

verus! {

proof fn lemma_common_factor(a: int, b: int, c: int)
    ensures
        a * c + b * c == (a + b) * c,
        1 * c == c,
        0 * c == 0,
{
    assert(a * c + b * c == (a + b) * c) by (nonlinear_arith);
}

/// A single command is kept or not.
proof fn lemma_single(cmd: GpuCmd, keep: spec_fn(GpuCmd) -> bool)
    ensures
        seq![cmd].filter(keep).len() == (if keep(cmd) {
            1nat
        } else {
            0nat
        }),
{
    super::laws::lemma_filter_empty(keep);
    super::laws::lemma_filter_push(Seq::empty(), cmd, keep);
}

/// A command and a barrier: no product unless the command is one.
proof fn lemma_fenced(cmd: GpuCmd)
    requires
        !(cmd is Gemm),
        !(cmd is Gemv),
    ensures
        super::laws::matrix_products(super::record::fenced(cmd)).len() == 0,
        super::laws::vector_products(super::record::fenced(cmd)).len() == 0,
        super::laws::matrix_products(super::record::barrier()).len() == 0,
        super::laws::vector_products(super::record::barrier()).len() == 0,
{
    let gemm = |c: GpuCmd| c is Gemm;
    let gemv = |c: GpuCmd| c is Gemv;
    lemma_single(cmd, gemm);
    lemma_single(cmd, gemv);
    lemma_single(GpuCmd::Barrier, gemm);
    lemma_single(GpuCmd::Barrier, gemv);
    Seq::filter_distributes_over_add(seq![cmd], seq![GpuCmd::Barrier], gemm);
    Seq::filter_distributes_over_add(seq![cmd], seq![GpuCmd::Barrier], gemv);
}

/// A weight on the device gives one product.
proof fn lemma_weight(weight: Option<GpuTensor>, src: ActBuf, dst: ActBuf, batch: u32)
    requires
        weight is Some,
    ensures
        super::laws::matrix_products(super::record::gemm_cmd(weight, src, dst, batch)).len() == 1,
        super::laws::vector_products(super::record::gemm_cmd(weight, src, dst, batch)).len() == 0,
        super::laws::matrix_products(super::record::gemv_cmd(weight, src, dst)).len() == 0,
        super::laws::vector_products(super::record::gemv_cmd(weight, src, dst)).len() == 1,
{
    let gemm = |c: GpuCmd| c is Gemm;
    let gemv = |c: GpuCmd| c is Gemv;
    let g = GpuCmd::Gemm { weight: weight->0, src, dst, batch };
    let v = GpuCmd::Gemv { weight: weight->0, src, dst };
    lemma_single(g, gemm);
    lemma_single(g, gemv);
    lemma_single(v, gemm);
    lemma_single(v, gemv);
}

/// The products of two stretches are those of the first and those of the second.
proof fn lemma_sum(a: Seq<GpuCmd>, b: Seq<GpuCmd>)
    ensures
        super::laws::matrix_products(a + b).len() == super::laws::matrix_products(a).len()
            + super::laws::matrix_products(b).len(),
        super::laws::vector_products(a + b).len() == super::laws::vector_products(a).len()
            + super::laws::vector_products(b).len(),
{
    Seq::filter_distributes_over_add(a, b, |c: GpuCmd| c is Gemm);
    Seq::filter_distributes_over_add(a, b, |c: GpuCmd| c is Gemv);
}

proof fn lemma_batch_qkv_products(model: LlamaModel, l: int, b: int)
    requires
        (model.gpu_w->0).layer_resident(l),
    ensures
        super::laws::matrix_products(model.batch_qkv_stretch(l, b)).len() == 3,
        super::laws::vector_products(model.batch_qkv_stretch(l, b)).len() == 0,
{
    let (c, gw, ga) = (model.config, model.gpu_w->0, model.gpu_acts->0);
    let norm = GpuCmd::BatchRmsNorm {
        src: ga.x_batch,
        weight: ga.attn_norms@[l],
        dst: ga.xn_batch,
        n: c.n_embd as u32,
        batch: b as u32,
    };
    let p0 = super::record::fenced(norm);
    let p1 = super::record::gemm_cmd(gw.attn_q@[l], ga.xn_batch, ga.q_batch, b as u32);
    let p2 = super::record::gemm_cmd(gw.attn_k@[l], ga.xn_batch, ga.k_batch, b as u32);
    let p3 = super::record::gemm_cmd(gw.attn_v@[l], ga.xn_batch, ga.v_batch, b as u32);
    lemma_fenced(norm);
    lemma_weight(gw.attn_q@[l], ga.xn_batch, ga.q_batch, b as u32);
    lemma_weight(gw.attn_k@[l], ga.xn_batch, ga.k_batch, b as u32);
    lemma_weight(gw.attn_v@[l], ga.xn_batch, ga.v_batch, b as u32);
    lemma_sum(p0, p1);
    lemma_sum(p0 + p1, p2);
    lemma_sum(p0 + p1 + p2, p3);
    lemma_sum(p0 + p1 + p2 + p3, super::record::barrier());
}

proof fn lemma_batch_out_products(model: LlamaModel, l: int, b: int)
    requires
        (model.gpu_w->0).layer_resident(l),
    ensures
        super::laws::matrix_products(model.batch_out_stretch(l, b)).len() == 1,
        super::laws::vector_products(model.batch_out_stretch(l, b)).len() == 0,
{
    let (c, gw, ga) = (model.config, model.gpu_w->0, model.gpu_acts->0);
    let add = GpuCmd::BatchAdd {
        dst: ga.x_batch,
        src: ga.proj_batch,
        n: c.n_embd as u32,
        batch: b as u32,
    };
    let fence = super::record::barrier();
    let p1 = super::record::gemm_cmd(gw.attn_out@[l], ga.ao_batch, ga.proj_batch, b as u32);
    lemma_fenced(add);
    lemma_weight(gw.attn_out@[l], ga.ao_batch, ga.proj_batch, b as u32);
    lemma_sum(fence, p1);
    lemma_sum(fence + p1, fence);
    lemma_sum(fence + p1 + fence, super::record::fenced(add));
}

proof fn lemma_batch_feed_products(model: LlamaModel, l: int, b: int)
    requires
        (model.gpu_w->0).layer_resident(l),
    ensures
        super::laws::matrix_products(model.batch_feed_stretch(l, b)).len() == 3,
        super::laws::vector_products(model.batch_feed_stretch(l, b)).len() == 0,
{
    let (c, gw, ga) = (model.config, model.gpu_w->0, model.gpu_acts->0);
    let norm = GpuCmd::BatchRmsNorm {
        src: ga.x_batch,
        weight: ga.ffn_norms@[l],
        dst: ga.xn_batch,
        n: c.n_embd as u32,
        batch: b as u32,
    };
    let swiglu = GpuCmd::BatchSwiGlu {
        gate: ga.gate_batch,
        up: ga.up_batch,
        n: c.n_ff as u32,
        batch: b as u32,
    };
    let add = GpuCmd::BatchAdd {
        dst: ga.x_batch,
        src: ga.ff_batch,
        n: c.n_embd as u32,
        batch: b as u32,
    };
    let fence = super::record::barrier();
    let p0 = super::record::fenced(norm);
    let p1 = super::record::gemm_cmd(gw.ffn_gate@[l], ga.xn_batch, ga.gate_batch, b as u32);
    let p2 = super::record::gemm_cmd(gw.ffn_up@[l], ga.xn_batch, ga.up_batch, b as u32);
    let p3 = super::record::fenced(swiglu);
    let p4 = super::record::gemm_cmd(gw.ffn_down@[l], ga.gate_batch, ga.ff_batch, b as u32);
    let p5 = super::record::fenced(add);
    lemma_fenced(norm);
    lemma_fenced(swiglu);
    lemma_fenced(add);
    lemma_weight(gw.ffn_gate@[l], ga.xn_batch, ga.gate_batch, b as u32);
    lemma_weight(gw.ffn_up@[l], ga.xn_batch, ga.up_batch, b as u32);
    lemma_weight(gw.ffn_down@[l], ga.gate_batch, ga.ff_batch, b as u32);
    lemma_sum(p0, p1);
    lemma_sum(p0 + p1, p2);
    lemma_sum(p0 + p1 + p2, fence);
    lemma_sum(p0 + p1 + p2 + fence, p3);
    lemma_sum(p0 + p1 + p2 + fence + p3, p4);
    lemma_sum(p0 + p1 + p2 + fence + p3 + p4, fence);
    lemma_sum(p0 + p1 + p2 + fence + p3 + p4 + fence, p5);
}

proof fn lemma_no_products()
    ensures
        super::laws::matrix_products(Seq::empty()).len() == 0,
        super::laws::vector_products(Seq::empty()).len() == 0,
{
    super::laws::lemma_filter_empty(|c: GpuCmd| c is Gemm);
    super::laws::lemma_filter_empty(|c: GpuCmd| c is Gemv);
}

/// The addition of a bias is no product.
proof fn lemma_batch_bias(bias: Option<ActBuf>, dst: ActBuf, n: u32, batch: u32)
    ensures
        super::laws::matrix_products(super::record::batch_bias_cmd(bias, dst, n, batch)).len()
            == 0,
        super::laws::vector_products(super::record::batch_bias_cmd(bias, dst, n, batch)).len()
            == 0,
        super::laws::vector_products(super::record::bias_cmd(bias, dst, n)).len() == 0,
{
    match bias {
        Some(b) => {
            let batched = GpuCmd::BatchBiasAdd { dst, bias: b, n, batch };
            let add = GpuCmd::Add { dst, src: b, n };
            lemma_single(batched, |cmd: GpuCmd| cmd is Gemm);
            lemma_single(batched, |cmd: GpuCmd| cmd is Gemv);
            lemma_single(add, |cmd: GpuCmd| cmd is Gemv);
        },
        None => {
            lemma_no_products();
        },
    }
}

/// Nor is the barrier after the biases.
proof fn lemma_bias_barrier(ga: GpuActs, l: int)
    ensures
        super::laws::matrix_products(super::record::bias_barrier(ga, l)).len() == 0,
        super::laws::vector_products(super::record::bias_barrier(ga, l)).len() == 0,
{
    lemma_no_products();
    lemma_single(GpuCmd::Barrier, |cmd: GpuCmd| cmd is Gemm);
    lemma_single(GpuCmd::Barrier, |cmd: GpuCmd| cmd is Gemv);
}

proof fn lemma_batch_bias_products(model: LlamaModel, l: int, b: int)
    ensures
        super::laws::matrix_products(model.batch_bias_stretch(l, b)).len() == 0,
        super::laws::vector_products(model.batch_bias_stretch(l, b)).len() == 0,
{
    let (c, ga) = (model.config, model.gpu_acts->0);
    let (qw, kw) = (c.q_width() as u32, c.kv_width() as u32);
    let p1 = super::record::batch_bias_cmd(ga.q_bias@[l], ga.q_batch, qw, b as u32);
    let p2 = super::record::batch_bias_cmd(ga.k_bias@[l], ga.k_batch, kw, b as u32);
    let p3 = super::record::batch_bias_cmd(ga.v_bias@[l], ga.v_batch, kw, b as u32);
    lemma_batch_bias(ga.q_bias@[l], ga.q_batch, qw, b as u32);
    lemma_batch_bias(ga.k_bias@[l], ga.k_batch, kw, b as u32);
    lemma_batch_bias(ga.v_bias@[l], ga.v_batch, kw, b as u32);
    lemma_bias_barrier(ga, l);
    lemma_sum(p1, p2);
    lemma_sum(p1 + p2, p3);
    lemma_sum(p1 + p2 + p3, super::record::bias_barrier(ga, l));
}

proof fn lemma_batch_write_products(model: LlamaModel, l: int, pos: int, b: int)
    ensures
        super::laws::matrix_products(model.batch_write_stretch(l, pos, b)).len() == 0,
        super::laws::vector_products(model.batch_write_stretch(l, pos, b)).len() == 0,
{
    let (c, ga) = (model.config, model.gpu_acts->0);
    let rope = GpuCmd::BatchRope {
        q: ga.q_batch,
        k: ga.k_batch,
        n_heads: c.n_heads as u32,
        n_kv_heads: c.n_kv_heads as u32,
        head_dim: c.head_dim as u32,
        pos: pos as u32,
        batch: b as u32,
    };
    let write = GpuCmd::BatchKvWrite {
        k: ga.k_batch,
        v: ga.v_batch,
        k_cache: ga.k_cache@[l],
        v_cache: ga.v_cache@[l],
        pos: pos as u32,
        n_kv_heads: c.n_kv_heads as u32,
        head_dim: c.head_dim as u32,
        batch: b as u32,
    };
    lemma_fenced(rope);
    lemma_fenced(write);
    lemma_sum(super::record::fenced(rope), super::record::fenced(write));
}

proof fn lemma_items_products(model: LlamaModel, l: int, pos: int, b: int)
    ensures
        super::laws::matrix_products(model.batch_items(l, pos, b, b)).len() == 0,
        super::laws::vector_products(model.batch_items(l, pos, b, b)).len() == 0,
{
    super::laws_gemm::lemma_items(model, l, pos, b, b);
    super::laws::lemma_filter_none(model.batch_items(l, pos, b, b), |cmd: GpuCmd| cmd is Gemm);
    super::laws::lemma_filter_none(model.batch_items(l, pos, b, b), |cmd: GpuCmd| cmd is Gemv);
}

proof fn lemma_batch_layer_products(model: LlamaModel, l: int, pos: int, b: int)
    requires
        (model.gpu_w->0).layer_resident(l),
    ensures
        super::laws::matrix_products(model.batch_layer_cmds(l, pos, b)).len() == 7,
        super::laws::vector_products(model.batch_layer_cmds(l, pos, b)).len() == 0,
{
    lemma_batch_qkv_products(model, l, b);
    lemma_batch_out_products(model, l, b);
    lemma_batch_feed_products(model, l, b);
    lemma_batch_bias_products(model, l, b);
    lemma_batch_write_products(model, l, pos, b);
    lemma_items_products(model, l, pos, b);
    let s1 = model.batch_qkv_stretch(l, b);
    let s2 = model.batch_bias_stretch(l, b);
    let s3 = model.batch_write_stretch(l, pos, b);
    let s4 = model.batch_items(l, pos, b, b);
    let s5 = model.batch_out_stretch(l, b);
    let s6 = model.batch_feed_stretch(l, b);
    lemma_sum(s1, s2);
    lemma_sum(s1 + s2, s3);
    lemma_sum(s1 + s2 + s3, s4);
    lemma_sum(s1 + s2 + s3 + s4, s5);
    lemma_sum(s1 + s2 + s3 + s4 + s5, s6);
}

proof fn lemma_batch_layers_products(model: LlamaModel, pos: int, b: int, k: nat)
    requires
        forall|l: int| 0 <= l < k ==> #[trigger] (model.gpu_w->0).layer_resident(l),
    ensures
        super::laws::matrix_products(model.batch_layers_cmds(pos, b, k)).len() == 7 * k,
        super::laws::vector_products(model.batch_layers_cmds(pos, b, k)).len() == 0,
    decreases k,
{
    if k == 0 {
        lemma_no_products();
    } else {
        let less = (k - 1) as nat;
        lemma_batch_layers_products(model, pos, b, less);
        assert((model.gpu_w->0).layer_resident(k - 1));
        lemma_batch_layer_products(model, k - 1, pos, b);
        lemma_sum(model.batch_layers_cmds(pos, b, less), model.batch_layer_cmds(k - 1, pos, b));
    }
}

proof fn lemma_batch_close_products(model: LlamaModel, b: int, last: bool)
    requires
        (model.gpu_w->0).output is Some,
    ensures
        super::laws::matrix_products(model.batch_close_cmds(b, last)).len() == 0,
        super::laws::vector_products(model.batch_close_cmds(b, last)).len() == (if last {
            1nat
        } else {
            0nat
        }),
{
    let (c, gw, ga) = (model.config, model.gpu_w->0, model.gpu_acts->0);
    let submit = super::laws::final_submission(model, last);
    lemma_single(submit, |cmd: GpuCmd| cmd is Gemm);
    lemma_single(submit, |cmd: GpuCmd| cmd is Gemv);
    if last {
        let copy = GpuCmd::CopyToAct {
            dst: ga.xn,
            src: super::gpu::CopySource::Act(ga.x_batch),
            offset: ((b - 1) * c.n_embd * 4) as u64,
        };
        let norm = GpuCmd::RmsNorm {
            src: ga.xn,
            weight: ga.out_norm,
            dst: ga.xn,
            n: c.n_embd as u32,
        };
        let p0 = super::record::fenced(copy);
        let p1 = super::record::fenced(norm);
        let p2 = super::record::gemv_cmd(gw.output, ga.xn, ga.logits);
        lemma_fenced(copy);
        lemma_fenced(norm);
        lemma_weight(gw.output, ga.xn, ga.logits, 0);
        lemma_sum(p0, p1);
        lemma_sum(p0 + p1, p2);
        lemma_sum(p0 + p1 + p2, seq![submit]);
    }
}

proof fn lemma_open_products(model: LlamaModel, from: int, b: int)
    ensures
        super::laws::matrix_products(model.batch_open_cmds(from, b)).len() == 0,
        super::laws::vector_products(model.batch_open_cmds(from, b)).len() == 0,
{
    let begin = GpuCmd::BeginForSets {
        sets: super::prefill_gemm::gemm_sets(model.config.n_layers as int, b) as u32,
    };
    let copy = GpuCmd::CopyToAct {
        dst: (model.gpu_acts->0).x_batch,
        src: super::gpu::CopySource::Staging,
        offset: (from * model.config.n_embd * 4) as u64,
    };
    lemma_single(begin, |cmd: GpuCmd| cmd is Gemm);
    lemma_single(begin, |cmd: GpuCmd| cmd is Gemv);
    lemma_single(copy, |cmd: GpuCmd| cmd is Gemm);
    lemma_single(copy, |cmd: GpuCmd| cmd is Gemv);
    lemma_sum(seq![begin], seq![copy]);
}

proof fn lemma_batch_products(model: LlamaModel, start: int, from: int, to: int, n: int)
    requires
        model.all_resident(),
        (model.gpu_w->0).output is Some,
    ensures
        super::laws::matrix_products(model.batch_cmds(start, from, to, n)).len() == 7
            * model.config.n_layers,
        super::laws::vector_products(model.batch_cmds(start, from, to, n)).len() == (if to == n {
            1nat
        } else {
            0nat
        }),
{
    let k = model.config.n_layers as nat;
    let open = model.batch_open_cmds(from, to - from);
    let layers = model.batch_layers_cmds(start + from, to - from, k);
    lemma_batch_layers_products(model, start + from, to - from, k);
    lemma_batch_close_products(model, to - from, to == n);
    lemma_open_products(model, from, to - from);
    lemma_sum(open, layers);
    lemma_sum(open + layers, model.batch_close_cmds(to - from, to == n));
}

proof fn lemma_batches_products(model: LlamaModel, start: int, from: int, n: int, size: int)
    requires
        from < n,
        size >= 1,
        model.all_resident(),
        (model.gpu_w->0).output is Some,
    ensures
        super::laws::matrix_products(model.batches_cmds(start, from, n, size)).len()
            == super::prefill::chunk_count(n - from, size) * (7 * model.config.n_layers),
        super::laws::vector_products(model.batches_cmds(start, from, n, size)).len() == 1,
    decreases n - from,
{
    let to = super::prefill::chunk_end(from, size, n);
    let rest = model.batches_cmds(start, to, n, size);
    lemma_batch_products(model, start, from, to, n);
    lemma_sum(model.batch_cmds(start, from, to, n), rest);
    super::laws::lemma_chunk_count(n - from, size);
    let per_chunk = 7 * model.config.n_layers;
    if to < n {
        lemma_batches_products(model, start, to, n, size);
        let others = super::prefill::chunk_count(n - to, size);
        lemma_common_factor(1, others, per_chunk);
    } else {
        assert(rest == Seq::<GpuCmd>::empty());
        lemma_no_products();
        lemma_common_factor(1, 0, per_chunk);
    }
}

/// With every weight on the device, evaluating a prompt a chunk at a time takes one
/// matrix-matrix product for each layer weight and chunk, and a single matrix-vector product,
/// which gives the logits.
pub proof fn law_gemm_products(model: LlamaModel, start: int, n: int, size: int)
    requires
        n > 0,
        size >= 1,
        model.all_resident(),
        (model.gpu_w->0).output is Some,
    ensures
        super::laws::matrix_products(model.prefill_gemm_cmds(start, n, size)).len()
            == super::prefill::chunk_count(n, size) * (7 * model.config.n_layers),
        super::laws::vector_products(model.prefill_gemm_cmds(start, n, size)).len() == 1,
{
    let read = GpuCmd::ReadLogits {
        logits: (model.gpu_acts->0).logits,
        readback: (model.gpu_acts->0).logits_rb,
    };
    lemma_batches_products(model, start, 0, n, size);
    lemma_single(read, |cmd: GpuCmd| cmd is Gemm);
    lemma_single(read, |cmd: GpuCmd| cmd is Gemv);
    lemma_sum(model.batches_cmds(start, 0, n, size), seq![read]);
}

proof fn lemma_qkv_products(model: LlamaModel, l: int)
    requires
        (model.gpu_w->0).layer_resident(l),
    ensures
        super::laws::vector_products(
            super::record::qkv_stretch(model.gpu_w->0, model.gpu_acts->0, l),
        ).len() == 3,
{
    let (gw, ga) = (model.gpu_w->0, model.gpu_acts->0);
    let p1 = super::record::gemv_cmd(gw.attn_q@[l], ga.xn, ga.q);
    let p2 = super::record::gemv_cmd(gw.attn_k@[l], ga.xn, ga.k);
    let p3 = super::record::gemv_cmd(gw.attn_v@[l], ga.xn, ga.v);
    lemma_weight(gw.attn_q@[l], ga.xn, ga.q, 0);
    lemma_weight(gw.attn_k@[l], ga.xn, ga.k, 0);
    lemma_weight(gw.attn_v@[l], ga.xn, ga.v, 0);
    lemma_fenced(GpuCmd::Barrier);
    lemma_sum(p1, p2);
    lemma_sum(p1 + p2, p3);
    lemma_sum(p1 + p2 + p3, super::record::barrier());
}

proof fn lemma_project_products(model: LlamaModel, l: int)
    requires
        (model.gpu_w->0).layer_resident(l),
    ensures
        super::laws::vector_products(
            super::record::project_stretch(model.config, model.gpu_w->0, model.gpu_acts->0, l),
        ).len() == 3,
{
    let (c, gw, ga) = (model.config, model.gpu_w->0, model.gpu_acts->0);
    let add = GpuCmd::Add { dst: ga.x, src: ga.proj, n: c.n_embd as u32 };
    let norm = GpuCmd::RmsNorm {
        src: ga.x,
        weight: ga.ffn_norms@[l],
        dst: ga.xn,
        n: c.n_embd as u32,
    };
    let fence = super::record::barrier();
    let p0 = super::record::gemv_cmd(gw.attn_out@[l], ga.attn_out, ga.proj);
    let p1 = super::record::fenced(add);
    let p2 = super::record::fenced(norm);
    let p3 = super::record::gemv_cmd(gw.ffn_gate@[l], ga.xn, ga.gate);
    let p4 = super::record::gemv_cmd(gw.ffn_up@[l], ga.xn, ga.up);
    lemma_weight(gw.attn_out@[l], ga.attn_out, ga.proj, 0);
    lemma_weight(gw.ffn_gate@[l], ga.xn, ga.gate, 0);
    lemma_weight(gw.ffn_up@[l], ga.xn, ga.up, 0);
    lemma_fenced(add);
    lemma_fenced(norm);
    lemma_sum(p0, fence);
    lemma_sum(p0 + fence, p1);
    lemma_sum(p0 + fence + p1, p2);
    lemma_sum(p0 + fence + p1 + p2, p3);
    lemma_sum(p0 + fence + p1 + p2 + p3, p4);
    lemma_sum(p0 + fence + p1 + p2 + p3 + p4, fence);
}

proof fn lemma_feed_products(model: LlamaModel, l: int)
    requires
        (model.gpu_w->0).layer_resident(l),
    ensures
        super::laws::vector_products(
            super::record::feed_stretch(model.config, model.gpu_w->0, model.gpu_acts->0, l),
        ).len() == 1,
{
    let (c, gw, ga) = (model.config, model.gpu_w->0, model.gpu_acts->0);
    let swiglu = GpuCmd::SwiGlu { gate: ga.gate, up: ga.up, n: c.n_ff as u32 };
    let p0 = super::record::fenced(swiglu);
    let p1 = super::record::gemv_cmd(gw.ffn_down@[l], ga.gate, ga.ff);
    lemma_fenced(swiglu);
    lemma_weight(gw.ffn_down@[l], ga.gate, ga.ff, 0);
    lemma_sum(p0, p1);
    lemma_sum(p0 + p1, super::record::barrier());
}

/// The norm, the biases and the attention of a layer hold no products.
proof fn lemma_plain_products(model: LlamaModel, l: int, pos: int)
    ensures
        super::laws::vector_products(
            super::record::norm_stretch(model.config, model.gpu_acts->0, l),
        ).len() == 0,
        super::laws::vector_products(
            super::record::bias_stretch(model.config, model.gpu_acts->0, l),
        ).len() == 0,
        super::laws::vector_products(
            super::record::attend_stretch(model.config, model.gpu_acts->0, l, pos),
        ).len() == 0,
{
    let (c, ga) = (model.config, model.gpu_acts->0);
    lemma_fenced(
        GpuCmd::RmsNorm { src: ga.x, weight: ga.attn_norms@[l], dst: ga.xn, n: c.n_embd as u32 },
    );
    let (qw, kw) = (c.q_width() as u32, c.kv_width() as u32);
    let p1 = super::record::bias_cmd(ga.q_bias@[l], ga.q, qw);
    let p2 = super::record::bias_cmd(ga.k_bias@[l], ga.k, kw);
    let p3 = super::record::bias_cmd(ga.v_bias@[l], ga.v, kw);
    lemma_batch_bias(ga.q_bias@[l], ga.q, qw, 0);
    lemma_batch_bias(ga.k_bias@[l], ga.k, kw, 0);
    lemma_batch_bias(ga.v_bias@[l], ga.v, kw, 0);
    lemma_bias_barrier(ga, l);
    lemma_sum(p1, p2);
    lemma_sum(p1 + p2, p3);
    lemma_sum(p1 + p2 + p3, super::record::bias_barrier(ga, l));
    let rope = GpuCmd::Rope {
        q: ga.q,
        k: ga.k,
        n_heads: c.n_heads as u32,
        n_kv_heads: c.n_kv_heads as u32,
        head_dim: c.head_dim as u32,
        pos: pos as u32,
    };
    let write = GpuCmd::KvWrite {
        k: ga.k,
        v: ga.v,
        k_cache: ga.k_cache@[l],
        v_cache: ga.v_cache@[l],
        pos: pos as u32,
        n_kv_heads: c.n_kv_heads as u32,
        head_dim: c.head_dim as u32,
    };
    let attend = GpuCmd::Attention {
        q: ga.q,
        k_cache: ga.k_cache@[l],
        v_cache: ga.v_cache@[l],
        dst: ga.attn_out,
        scores: ga.scores,
        n_heads: c.n_heads as u32,
        n_kv_heads: c.n_kv_heads as u32,
        head_dim: c.head_dim as u32,
        seq_len: (pos + 1) as u32,
        ctx_len: ga.ctx_len as u32,
    };
    lemma_fenced(rope);
    lemma_fenced(write);
    lemma_fenced(attend);
    lemma_sum(super::record::fenced(rope), super::record::fenced(write));
    lemma_sum(
        super::record::fenced(rope) + super::record::fenced(write),
        super::record::fenced(attend),
    );
}

proof fn lemma_layer_products(model: LlamaModel, l: int, pos: int)
    requires
        (model.gpu_w->0).layer_resident(l),
    ensures
        super::laws::vector_products(
            super::record::layer_cmds(model.config, model.gpu_w->0, model.gpu_acts->0, l, pos),
        ).len() == 7,
{
    let (c, gw, ga) = (model.config, model.gpu_w->0, model.gpu_acts->0);
    let s1 = super::record::norm_stretch(c, ga, l);
    let s2 = super::record::qkv_stretch(gw, ga, l);
    let s3 = super::record::bias_stretch(c, ga, l);
    let s4 = super::record::attend_stretch(c, ga, l, pos);
    let s5 = super::record::project_stretch(c, gw, ga, l);
    let s6 = super::record::feed_stretch(c, gw, ga, l);
    let s7 = super::record::fenced(super::record::residual_cmd(c, ga));
    lemma_plain_products(model, l, pos);
    lemma_qkv_products(model, l);
    lemma_project_products(model, l);
    lemma_feed_products(model, l);
    lemma_fenced(super::record::residual_cmd(c, ga));
    lemma_sum(s1, s2);
    lemma_sum(s1 + s2, s3);
    lemma_sum(s1 + s2 + s3, s4);
    lemma_sum(s1 + s2 + s3 + s4, s5);
    lemma_sum(s1 + s2 + s3 + s4 + s5, s6);
    lemma_sum(s1 + s2 + s3 + s4 + s5 + s6, s7);
}

proof fn lemma_layers_products(model: LlamaModel, pos: int, k: nat)
    requires
        forall|l: int| 0 <= l < k ==> #[trigger] (model.gpu_w->0).layer_resident(l),
    ensures
        super::laws::vector_products(
            super::llama::layers_cmds(model.config, model.gpu_w->0, model.gpu_acts->0, pos, k),
        ).len() == 7 * k,
    decreases k,
{
    if k == 0 {
        lemma_no_products();
    } else {
        let (c, gw, ga) = (model.config, model.gpu_w->0, model.gpu_acts->0);
        let less = (k - 1) as nat;
        lemma_layers_products(model, pos, less);
        assert(gw.layer_resident(k - 1));
        lemma_layer_products(model, k - 1, pos);
        lemma_sum(
            super::llama::layers_cmds(c, gw, ga, pos, less),
            super::record::layer_cmds(c, gw, ga, k - 1, pos),
        );
    }
}

proof fn lemma_tokens_products(model: LlamaModel, start: int, from: int, to: int)
    requires
        from <= to,
        model.all_resident(),
    ensures
        super::laws::vector_products(model.tokens_cmds(start, from, to)).len() == (to - from) * (7
            * model.config.n_layers),
    decreases to - from,
{
    let per_token = 7 * model.config.n_layers;
    if from == to {
        lemma_no_products();
        lemma_common_factor(to - from, to - from, per_token);
    } else {
        let k = model.config.n_layers as nat;
        let copy = model.token_cmds(start, to - 1)[0];
        lemma_tokens_products(model, start, from, to - 1);
        lemma_layers_products(model, start + (to - 1), k);
        lemma_single(copy, |cmd: GpuCmd| cmd is Gemv);
        lemma_sum(
            seq![copy],
            super::llama::layers_cmds(
                model.config,
                model.gpu_w->0,
                model.gpu_acts->0,
                start + (to - 1),
                k,
            ),
        );
        lemma_sum(model.tokens_cmds(start, from, to - 1), model.token_cmds(start, to - 1));
        lemma_common_factor(to - 1 - from, 1, per_token);
    }
}

proof fn lemma_close_products(model: LlamaModel, last: bool)
    requires
        (model.gpu_w->0).output is Some,
    ensures
        super::laws::vector_products(model.close_cmds(last)).len() == (if last {
            1nat
        } else {
            0nat
        }),
{
    let (c, gw, ga) = (model.config, model.gpu_w->0, model.gpu_acts->0);
    let submit = super::laws::final_submission(model, last);
    lemma_single(submit, |cmd: GpuCmd| cmd is Gemv);
    if last {
        let norm = GpuCmd::RmsNorm {
            src: ga.x,
            weight: ga.out_norm,
            dst: ga.xn,
            n: c.n_embd as u32,
        };
        let p0 = super::record::fenced(norm);
        let p1 = super::record::gemv_cmd(gw.output, ga.xn, ga.logits);
        lemma_fenced(norm);
        lemma_weight(gw.output, ga.xn, ga.logits, 0);
        lemma_sum(p0, p1);
        lemma_sum(p0 + p1, seq![submit]);
    }
}

proof fn lemma_chunks_products(model: LlamaModel, start: int, from: int, n: int, size: int)
    requires
        from < n,
        size >= 1,
        model.all_resident(),
        (model.gpu_w->0).output is Some,
    ensures
        super::laws::vector_products(model.chunks_cmds(start, from, n, size)).len() == (n - from)
            * (7 * model.config.n_layers) + 1,
    decreases n - from,
{
    let to = super::prefill::chunk_end(from, size, n);
    let rest = model.chunks_cmds(start, to, n, size);
    let open = model.chunk_cmds(start, from, to, n)[0];
    let body = model.tokens_cmds(start, from, to);
    let close = model.close_cmds(to == n);
    lemma_tokens_products(model, start, from, to);
    lemma_close_products(model, to == n);
    lemma_single(open, |cmd: GpuCmd| cmd is Gemv);
    lemma_sum(seq![open], body);
    lemma_sum(seq![open] + body, close);
    lemma_sum(model.chunk_cmds(start, from, to, n), rest);
    let per_token = 7 * model.config.n_layers;
    if to < n {
        lemma_chunks_products(model, start, to, n, size);
        lemma_common_factor(to - from, n - to, per_token);
    } else {
        assert(rest == Seq::<GpuCmd>::empty());
        lemma_no_products();
    }
}

/// With every weight on the device, evaluating a prompt a token at a time takes one
/// matrix-vector product for each layer weight and token, and one more, which gives the
/// logits.
pub proof fn law_gemv_products(model: LlamaModel, start: int, n: int, size: int)
    requires
        n > 0,
        size >= 1,
        model.all_resident(),
        (model.gpu_w->0).output is Some,
    ensures
        super::laws::vector_products(model.prefill_cmds(start, n, size)).len() == n * (7
            * model.config.n_layers) + 1,
{
    let tail = seq![
        GpuCmd::FreeStaging,
        GpuCmd::ReadLogits {
            logits: (model.gpu_acts->0).logits,
            readback: (model.gpu_acts->0).logits_rb,
        },
    ];
    lemma_chunks_products(model, start, 0, n, size);
    super::laws::lemma_filter_none(tail, |cmd: GpuCmd| cmd is Gemv);
    lemma_sum(model.chunks_cmds(start, 0, n, size), tail);
}

} // verus!
