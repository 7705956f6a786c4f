//! Batches compute the function of the model.
//!
//! A batch takes all its tokens through a layer before the next layer begins. Since no token
//! looks ahead, each of them ends as if it had gone through all layers before the next token came.
use vstd::prelude::*;

use super::gpu::{ActBuf, CopySource, GpuCmd, GpuTensor};
use super::laws_device::Bench;
use super::llama::LlamaModel;
use super::maths::{Flow, Heads, Maths};

verus! {

/// A matrix-matrix product after others.
proof fn lemma_then_gemm<V>(
    d: Bench<V>,
    s: spec_fn(ActBuf) -> Seq<V>,
    x: Seq<GpuCmd>,
    weight: Option<GpuTensor>,
    src: ActBuf,
    dst: ActBuf,
    batch: u32,
)
    requires
        weight is Some,
    ensures
        d.run(s, x + super::record::gemm_cmd(weight, src, dst, batch)) == d.step(
            d.run(s, x),
            GpuCmd::Gemm { weight: weight->0, src, dst, batch },
        ),
{
    super::laws_device::lemma_then(
        d,
        s,
        x,
        GpuCmd::Gemm { weight: weight->0, src, dst, batch },
    );
}

/// A bias after others, where there is one.
proof fn lemma_then_bias<V>(
    d: Bench<V>,
    s: spec_fn(ActBuf) -> Seq<V>,
    x: Seq<GpuCmd>,
    bias: Option<ActBuf>,
    dst: ActBuf,
    n: u32,
    batch: u32,
)
    ensures
        d.run(s, x + super::record::batch_bias_cmd(bias, dst, n, batch)) == match bias {
            Some(b) => d.step(d.run(s, x), GpuCmd::BatchBiasAdd { dst, bias: b, n, batch }),
            None => d.run(s, x),
        },
{
    match bias {
        Some(b) => super::laws_device::lemma_then(
            d,
            s,
            x,
            GpuCmd::BatchBiasAdd { dst, bias: b, n, batch },
        ),
        None => assert(x + super::record::batch_bias_cmd(bias, dst, n, batch) =~= x),
    }
}

/// The norm and the three projections of a layer, for `b` tokens.
proof fn lemma_qkv<V>(
    m: Maths<V>,
    model: LlamaModel,
    resident: Seq<bool>,
    ctx_len: usize,
    s: spec_fn(ActBuf) -> Seq<V>,
    staged: Seq<usize>,
    l: int,
    b: int,
)
    requires
        super::laws_device::is_ready(m, model, resident, ctx_len, s),
        0 <= l < model.config.n_layers,
        0 <= b <= u32::MAX,
    ensures
        ({
            let (w, c) = (model.weights, model.config);
            let ga = model.gpu_acts->0;
            let t = super::laws_device::bench(m, model, staged).run(
                s,
                model.batch_qkv_stretch(l, b),
            );
            &&& forall|i: int|
                0 <= i < b ==> {
                    let h = (m.normed)(
                        s(ga.x_batch)[i],
                        (m.vector)(w.attn_norm@[l]),
                        c.n_embd as int,
                    );
                    &&& #[trigger] t(ga.q_batch)[i] == m.projected(
                        w.attn_q@[l],
                        w.attn_q_f32@[l],
                        c.n_embd,
                        h,
                    )
                    &&& t(ga.k_batch)[i] == m.projected(
                        w.attn_k@[l],
                        w.attn_k_f32@[l],
                        c.n_embd,
                        h,
                    )
                    &&& t(ga.v_batch)[i] == m.projected(
                        w.attn_v@[l],
                        w.attn_v_f32@[l],
                        c.n_embd,
                        h,
                    )
                }
            &&& forall|x: ActBuf| x.id <= ga.x_batch.id ==> #[trigger] t(x) == s(x)
        }),
{
    let (w, c) = (model.weights, model.config);
    let (gw, ga) = (model.gpu_w->0, model.gpu_acts->0);
    let d = super::laws_device::bench(m, model, staged);
    super::laws_device::lemma_numbers(m, model, resident, ctx_len, s);
    super::laws_device::lemma_bufs(m, model, resident, ctx_len, s, l);
    super::laws_device::lemma_matrices(m, model, resident, ctx_len, s, staged, l);
    let bb = b as u32;
    let norm = GpuCmd::BatchRmsNorm {
        src: ga.x_batch,
        weight: ga.attn_norms@[l],
        dst: ga.xn_batch,
        n: c.n_embd as u32,
        batch: bb,
    };
    let p1 = super::record::fenced(norm);
    let p2 = p1 + super::record::gemm_cmd(gw.attn_q@[l], ga.xn_batch, ga.q_batch, bb);
    let p3 = p2 + super::record::gemm_cmd(gw.attn_k@[l], ga.xn_batch, ga.k_batch, bb);
    let p4 = p3 + super::record::gemm_cmd(gw.attn_v@[l], ga.xn_batch, ga.v_batch, bb);
    assert(model.batch_qkv_stretch(l, b) =~= p4 + super::record::barrier());
    super::laws_device::lemma_then_fenced(d, s, p1, norm);
    lemma_then_gemm(d, s, p1, gw.attn_q@[l], ga.xn_batch, ga.q_batch, bb);
    lemma_then_gemm(d, s, p2, gw.attn_k@[l], ga.xn_batch, ga.k_batch, bb);
    lemma_then_gemm(d, s, p3, gw.attn_v@[l], ga.xn_batch, ga.v_batch, bb);
    super::laws_device::lemma_then_fenced(d, s, p4, norm);
    let s1 = d.step(s, norm);
    assert forall|i: int| 0 <= i < b implies #[trigger] s1(ga.xn_batch)[i] == (m.normed)(
        s(ga.x_batch)[i],
        (m.vector)(w.attn_norm@[l]),
        c.n_embd as int,
    ) by {}
}

/// The biases of a layer, for `b` tokens.
proof fn lemma_biases<V>(
    m: Maths<V>,
    model: LlamaModel,
    resident: Seq<bool>,
    ctx_len: usize,
    s: spec_fn(ActBuf) -> Seq<V>,
    staged: Seq<usize>,
    l: int,
    b: int,
)
    requires
        super::laws_device::is_ready(m, model, resident, ctx_len, s),
        0 <= l < model.config.n_layers,
        0 <= b <= u32::MAX,
    ensures
        ({
            let (w, c) = (model.weights, model.config);
            let ga = model.gpu_acts->0;
            let t = super::laws_device::bench(m, model, staged).run(
                s,
                model.batch_bias_stretch(l, b),
            );
            let (nq, nk) = (c.n_heads * c.head_dim, c.n_kv_heads * c.head_dim);
            &&& forall|i: int|
                0 <= i < b ==> {
                    &&& #[trigger] t(ga.q_batch)[i] == m.shifted(
                        s(ga.q_batch)[i],
                        w.attn_q_bias@[l],
                        nq,
                    )
                    &&& t(ga.k_batch)[i] == m.shifted(s(ga.k_batch)[i], w.attn_k_bias@[l], nk)
                    &&& t(ga.v_batch)[i] == m.shifted(s(ga.v_batch)[i], w.attn_v_bias@[l], nk)
                }
            &&& forall|x: ActBuf| x.id <= ga.x_batch.id ==> #[trigger] t(x) == s(x)
        }),
{
    let (w, c) = (model.weights, model.config);
    let ga = model.gpu_acts->0;
    let d = super::laws_device::bench(m, model, staged);
    super::laws_device::lemma_numbers(m, model, resident, ctx_len, s);
    super::laws_device::lemma_bufs(m, model, resident, ctx_len, s, l);
    let bb = b as u32;
    let none = Seq::<GpuCmd>::empty();
    let (nq, nk) = (c.q_width() as u32, c.kv_width() as u32);
    let p1 = none + super::record::batch_bias_cmd(ga.q_bias@[l], ga.q_batch, nq, bb);
    let p2 = p1 + super::record::batch_bias_cmd(ga.k_bias@[l], ga.k_batch, nk, bb);
    let p3 = p2 + super::record::batch_bias_cmd(ga.v_bias@[l], ga.v_batch, nk, bb);
    let p4 = p3 + super::record::bias_barrier(ga, l);
    assert(model.batch_bias_stretch(l, b) =~= p4);
    lemma_then_bias(d, s, none, ga.q_bias@[l], ga.q_batch, nq, bb);
    lemma_then_bias(d, s, p1, ga.k_bias@[l], ga.k_batch, nk, bb);
    lemma_then_bias(d, s, p2, ga.v_bias@[l], ga.v_batch, nk, bb);
    super::laws_device::lemma_then(d, s, p3, GpuCmd::Barrier);
    assert(d.run(s, p4) == d.run(s, p3)) by {
        if !(ga.q_bias@[l] is Some || ga.k_bias@[l] is Some || ga.v_bias@[l] is Some) {
            assert(p4 =~= p3);
        }
    }
}

/// The positions are turned in, and keys and values are stored, for `b` tokens.
proof fn lemma_write<V>(
    m: Maths<V>,
    model: LlamaModel,
    resident: Seq<bool>,
    ctx_len: usize,
    s: spec_fn(ActBuf) -> Seq<V>,
    staged: Seq<usize>,
    l: int,
    pos: int,
    b: int,
)
    requires
        super::laws_device::is_ready(m, model, resident, ctx_len, s),
        0 <= l < model.config.n_layers,
        0 <= b <= u32::MAX,
        0 <= pos <= u32::MAX,
    ensures
        ({
            let c = model.config;
            let ga = model.gpu_acts->0;
            let t = super::laws_device::bench(m, model, staged).run(
                s,
                model.batch_write_stretch(l, pos, b),
            );
            let (nh, kv, hd) = (c.n_heads as int, c.n_kv_heads as int, c.head_dim as int);
            &&& forall|i: int|
                0 <= i < b ==> {
                    &&& #[trigger] t(ga.q_batch)[i] == (m.turned)(
                        s(ga.q_batch)[i],
                        nh,
                        hd,
                        pos + i,
                    )
                    &&& t(ga.k_batch)[i] == (m.turned)(s(ga.k_batch)[i], kv, hd, pos + i)
                }
            &&& t(ga.v_batch) == s(ga.v_batch)
            &&& t(ga.k_cache@[l])[0] == super::laws_device::stored_rows(
                m,
                s(ga.k_cache@[l])[0],
                t(ga.k_batch),
                pos,
                kv,
                hd,
                b as nat,
            )
            &&& t(ga.v_cache@[l])[0] == super::laws_device::stored_rows(
                m,
                s(ga.v_cache@[l])[0],
                s(ga.v_batch),
                pos,
                kv,
                hd,
                b as nat,
            )
            &&& forall|x: ActBuf|
                x.id <= ga.x_batch.id && x != ga.k_cache@[l] && x != ga.v_cache@[l]
                    ==> #[trigger] t(x) == s(x)
        }),
{
    let c = model.config;
    let ga = model.gpu_acts->0;
    let d = super::laws_device::bench(m, model, staged);
    super::laws_device::lemma_numbers(m, model, resident, ctx_len, s);
    super::laws_device::lemma_bufs(m, model, resident, ctx_len, s, l);
    let rope = GpuCmd::BatchRope {
        q: ga.q_batch,
        k: ga.k_batch,
        n_heads: c.n_heads as u32,
        n_kv_heads: c.n_kv_heads as u32,
        head_dim: c.head_dim as u32,
        pos: pos as u32,
        batch: b as u32,
    };
    let write = GpuCmd::BatchKvWrite {
        k: ga.k_batch,
        v: ga.v_batch,
        k_cache: ga.k_cache@[l],
        v_cache: ga.v_cache@[l],
        pos: pos as u32,
        n_kv_heads: c.n_kv_heads as u32,
        head_dim: c.head_dim as u32,
        batch: b as u32,
    };
    let p1 = super::record::fenced(rope);
    super::laws_device::lemma_then_fenced(d, s, p1, rope);
    super::laws_device::lemma_then_fenced(d, s, p1, write);
    let s1 = d.step(s, rope);
    let t = d.step(s1, write);
    assert(t(ga.k_batch) == s1(ga.k_batch));
}

/// The queries of the first `k` of `b` tokens are answered.
proof fn lemma_items<V>(
    m: Maths<V>,
    model: LlamaModel,
    resident: Seq<bool>,
    ctx_len: usize,
    s: spec_fn(ActBuf) -> Seq<V>,
    staged: Seq<usize>,
    l: int,
    pos: int,
    b: int,
    k: int,
)
    requires
        super::laws_device::is_ready(m, model, resident, ctx_len, s),
        0 <= l < model.config.n_layers,
        0 <= k <= b,
        0 <= pos,
        pos + b <= u32::MAX,
        b * model.config.n_embd <= u32::MAX,
        b * model.config.n_heads * model.config.head_dim <= u32::MAX,
        model.config.n_embd > 0,
        model.config.n_heads * model.config.head_dim > 0,
    ensures
        ({
            let c = model.config;
            let ga = model.gpu_acts->0;
            let t = super::laws_device::bench(m, model, staged).run(
                s,
                model.batch_items(l, pos, b, k),
            );
            let shape = Heads {
                n_heads: c.n_heads as int,
                n_kv_heads: c.n_kv_heads as int,
                head_dim: c.head_dim as int,
            };
            &&& forall|i: int|
                0 <= i < k ==> #[trigger] t(ga.ao_batch)[i] == (m.attended)(
                    s(ga.q_batch)[i],
                    s(ga.k_cache@[l])[0],
                    s(ga.v_cache@[l])[0],
                    shape,
                    pos + i + 1,
                    ctx_len as int,
                )
            &&& forall|x: ActBuf| x != ga.ao_batch ==> #[trigger] t(x) == s(x)
        }),
    decreases k,
{
    let c = model.config;
    let ga = model.gpu_acts->0;
    let d = super::laws_device::bench(m, model, staged);
    super::laws_device::lemma_numbers(m, model, resident, ctx_len, s);
    super::laws_device::lemma_bufs(m, model, resident, ctx_len, s, l);
    if k > 0 {
        let i = k - 1;
        lemma_items(m, model, resident, ctx_len, s, staged, l, pos, b, i);
        let less = model.batch_items(l, pos, b, i);
        let item = model.batch_item_cmd(l, pos, i);
        let all = model.batch_items(l, pos, b, k);
        lemma_offsets(i, b, c.n_heads as int, c.head_dim as int, c.n_embd as int);
        let t1 = d.run(s, less);
        let t2 = d.step(t1, item);
        super::laws_device::lemma_then(d, s, less, item);
        if k < b {
            assert(all =~= less + seq![item] + seq![GpuCmd::Barrier]);
            super::laws_device::lemma_then(d, s, less + seq![item], GpuCmd::Barrier);
        } else {
            assert(all =~= less + seq![item]);
        }
        assert(d.run(s, all) == t2);
        assert(t2(ga.ao_batch)[i] == (m.attended)(
            s(ga.q_batch)[i],
            s(ga.k_cache@[l])[0],
            s(ga.v_cache@[l])[0],
            Heads {
                n_heads: c.n_heads as int,
                n_kv_heads: c.n_kv_heads as int,
                head_dim: c.head_dim as int,
            },
            pos + i + 1,
            ctx_len as int,
        ));
        assert forall|j: int| 0 <= j < i implies #[trigger] t2(ga.ao_batch)[j] == t1(
            ga.ao_batch,
        )[j] by {}
    }
}

/// Where the row of token `i` of a batch begins.
proof fn lemma_offsets(i: int, b: int, heads: int, dim: int, width: int)
    requires
        0 <= i < b,
        heads >= 0,
        dim >= 0,
        heads * dim > 0,
        width > 0,
        b * width <= u32::MAX,
        b * heads * dim <= u32::MAX,
    ensures
        (i * heads * dim) as u32 == i * heads * dim,
        (i * width) as u32 == i * width,
        super::laws_device::row_at(i * heads * dim, heads * dim) == i,
        super::laws_device::row_at(i * width, width) == i,
{
    assert(0 <= i * heads * dim <= b * heads * dim && 0 <= i * width <= b * width && (i * heads
        * dim) / (heads * dim) == i && (i * width) / width == i) by (nonlinear_arith)
        requires
            0 <= i < b,
            heads >= 0,
            dim >= 0,
            heads * dim > 0,
            width > 0,
    {
        let w = heads * dim;
        assert(i * heads * dim == i * w);
        assert(b * heads * dim == b * w);
    }
}

/// The answers to the queries of `b` tokens are projected and added.
proof fn lemma_out<V>(
    m: Maths<V>,
    model: LlamaModel,
    resident: Seq<bool>,
    ctx_len: usize,
    s: spec_fn(ActBuf) -> Seq<V>,
    staged: Seq<usize>,
    l: int,
    b: int,
)
    requires
        super::laws_device::is_ready(m, model, resident, ctx_len, s),
        0 <= l < model.config.n_layers,
        0 <= b <= u32::MAX,
    ensures
        ({
            let (w, c) = (model.weights, model.config);
            let ga = model.gpu_acts->0;
            let t = super::laws_device::bench(m, model, staged).run(
                s,
                model.batch_out_stretch(l, b),
            );
            &&& forall|i: int|
                0 <= i < b ==> #[trigger] t(ga.x_batch)[i] == (m.sum)(
                    s(ga.x_batch)[i],
                    (m.product)(
                        super::cpu::CpuMatrix::Quant { tensor: w.attn_out@[l] },
                        s(ga.ao_batch)[i],
                    ),
                    c.n_embd as int,
                )
            &&& forall|x: ActBuf| x.id < ga.x_batch.id ==> #[trigger] t(x) == s(x)
        }),
{
    let c = model.config;
    let (gw, ga) = (model.gpu_w->0, model.gpu_acts->0);
    let d = super::laws_device::bench(m, model, staged);
    super::laws_device::lemma_numbers(m, model, resident, ctx_len, s);
    super::laws_device::lemma_matrices(m, model, resident, ctx_len, s, staged, l);
    let bb = b as u32;
    let none = Seq::<GpuCmd>::empty();
    let sum = GpuCmd::BatchAdd {
        dst: ga.x_batch,
        src: ga.proj_batch,
        n: c.n_embd as u32,
        batch: bb,
    };
    let p1 = none + seq![GpuCmd::Barrier];
    let p2 = p1 + super::record::gemm_cmd(gw.attn_out@[l], ga.ao_batch, ga.proj_batch, bb);
    let p3 = p2 + seq![GpuCmd::Barrier];
    assert(model.batch_out_stretch(l, b) =~= p3 + super::record::fenced(sum));
    super::laws_device::lemma_then(d, s, none, GpuCmd::Barrier);
    lemma_then_gemm(d, s, p1, gw.attn_out@[l], ga.ao_batch, ga.proj_batch, bb);
    super::laws_device::lemma_then(d, s, p2, GpuCmd::Barrier);
    super::laws_device::lemma_then_fenced(d, s, p3, sum);
}

/// The feed-forward block, for `b` tokens.
proof fn lemma_feed<V>(
    m: Maths<V>,
    model: LlamaModel,
    resident: Seq<bool>,
    ctx_len: usize,
    s: spec_fn(ActBuf) -> Seq<V>,
    staged: Seq<usize>,
    l: int,
    b: int,
)
    requires
        super::laws_device::is_ready(m, model, resident, ctx_len, s),
        0 <= l < model.config.n_layers,
        0 <= b <= u32::MAX,
    ensures
        ({
            let (w, c) = (model.weights, model.config);
            let ga = model.gpu_acts->0;
            let t = super::laws_device::bench(m, model, staged).run(
                s,
                model.batch_feed_stretch(l, b),
            );
            &&& forall|i: int|
                0 <= i < b ==> #[trigger] t(ga.x_batch)[i] == ({
                    let y = s(ga.x_batch)[i];
                    let h = (m.normed)(y, (m.vector)(w.ffn_norm@[l]), c.n_embd as int);
                    let g = (m.gated)(
                        (m.product)(
                            super::cpu::CpuMatrix::Quant { tensor: w.ffn_gate@[l] },
                            h,
                        ),
                        (m.product)(super::cpu::CpuMatrix::Quant { tensor: w.ffn_up@[l] }, h),
                        c.n_ff as int,
                    );
                    (m.sum)(
                        y,
                        (m.product)(
                            super::cpu::CpuMatrix::Quant { tensor: w.ffn_down@[l] },
                            g,
                        ),
                        c.n_embd as int,
                    )
                })
            &&& forall|x: ActBuf| x.id < ga.x_batch.id ==> #[trigger] t(x) == s(x)
        }),
{
    let c = model.config;
    let (gw, ga) = (model.gpu_w->0, model.gpu_acts->0);
    let d = super::laws_device::bench(m, model, staged);
    super::laws_device::lemma_numbers(m, model, resident, ctx_len, s);
    super::laws_device::lemma_bufs(m, model, resident, ctx_len, s, l);
    super::laws_device::lemma_matrices(m, model, resident, ctx_len, s, staged, l);
    let bb = b as u32;
    let norm = GpuCmd::BatchRmsNorm {
        src: ga.x_batch,
        weight: ga.ffn_norms@[l],
        dst: ga.xn_batch,
        n: c.n_embd as u32,
        batch: bb,
    };
    let gate = GpuCmd::BatchSwiGlu {
        gate: ga.gate_batch,
        up: ga.up_batch,
        n: c.n_ff as u32,
        batch: bb,
    };
    let sum = GpuCmd::BatchAdd {
        dst: ga.x_batch,
        src: ga.ff_batch,
        n: c.n_embd as u32,
        batch: bb,
    };
    let p1 = super::record::fenced(norm);
    let p2 = p1 + super::record::gemm_cmd(gw.ffn_gate@[l], ga.xn_batch, ga.gate_batch, bb);
    let p3 = p2 + super::record::gemm_cmd(gw.ffn_up@[l], ga.xn_batch, ga.up_batch, bb);
    let p4 = p3 + seq![GpuCmd::Barrier];
    let p5 = p4 + super::record::fenced(gate);
    let p6 = p5 + super::record::gemm_cmd(gw.ffn_down@[l], ga.gate_batch, ga.ff_batch, bb);
    let p7 = p6 + seq![GpuCmd::Barrier];
    assert(model.batch_feed_stretch(l, b) =~= p7 + super::record::fenced(sum));
    super::laws_device::lemma_then_fenced(d, s, p1, norm);
    lemma_then_gemm(d, s, p1, gw.ffn_gate@[l], ga.xn_batch, ga.gate_batch, bb);
    lemma_then_gemm(d, s, p2, gw.ffn_up@[l], ga.xn_batch, ga.up_batch, bb);
    super::laws_device::lemma_then(d, s, p3, GpuCmd::Barrier);
    super::laws_device::lemma_then_fenced(d, s, p4, gate);
    lemma_then_gemm(d, s, p5, gw.ffn_down@[l], ga.gate_batch, ga.ff_batch, bb);
    super::laws_device::lemma_then(d, s, p6, GpuCmd::Barrier);
    super::laws_device::lemma_then_fenced(d, s, p7, sum);
    let s1 = d.step(s, norm);
    assert forall|i: int| 0 <= i < b implies #[trigger] s1(ga.xn_batch)[i] == (m.normed)(
        s(ga.x_batch)[i],
        (m.vector)(model.weights.ffn_norm@[l]),
        c.n_embd as int,
    ) by {}
}

/// Only the first `n` rows are stored.
proof fn lemma_stored_rows<V>(
    m: Maths<V>,
    cache: V,
    a: Seq<V>,
    b: Seq<V>,
    pos: int,
    kv: int,
    hd: int,
    n: nat,
)
    requires
        forall|i: int| 0 <= i < n ==> #[trigger] a[i] == b[i],
    ensures
        super::laws_device::stored_rows(m, cache, a, pos, kv, hd, n)
            == super::laws_device::stored_rows(m, cache, b, pos, kv, hd, n),
    decreases n,
{
    if n > 0 {
        lemma_stored_rows(m, cache, a, b, pos, kv, hd, (n - 1) as nat);
        assert(a[n - 1] == b[n - 1]);
    }
}

/// The keys of `b` tokens in layer `l`.
pub open spec fn key_rows<V>(
    m: Maths<V>,
    model: LlamaModel,
    l: int,
    pos: int,
    b: int,
    xs: Seq<V>,
) -> Seq<V> {
    Seq::new(b as nat, |i: int| m.keys(model.weights, model.config, l, pos + i, xs[i]))
}

/// The values of `b` tokens in layer `l`.
pub open spec fn value_rows<V>(
    m: Maths<V>,
    model: LlamaModel,
    l: int,
    b: int,
    xs: Seq<V>,
) -> Seq<V> {
    Seq::new(b as nat, |i: int| m.values(model.weights, model.config, l, xs[i]))
}

/// The sizes of a batch of `b` tokens from position `pos` on can be handed to the device.
pub open spec fn batch_fits(c: super::config::ModelConfig, pos: int, b: int) -> bool {
    &&& 0 <= pos
    &&& 0 <= b
    &&& pos + b <= u32::MAX
    &&& b * c.n_embd <= u32::MAX
    &&& b * c.n_heads * c.head_dim <= u32::MAX
    &&& c.n_embd > 0
    &&& c.n_heads * c.head_dim > 0
}

/// The first half of a layer: the queries of all tokens are answered.
proof fn lemma_first_half<V>(
    m: Maths<V>,
    model: LlamaModel,
    resident: Seq<bool>,
    ctx_len: usize,
    s: spec_fn(ActBuf) -> Seq<V>,
    staged: Seq<usize>,
    l: int,
    pos: int,
    b: int,
)
    requires
        super::laws_device::is_ready(m, model, resident, ctx_len, s),
        0 <= l < model.config.n_layers,
        batch_fits(model.config, pos, b),
    ensures
        ({
            let (w, c) = (model.weights, model.config);
            let ga = model.gpu_acts->0;
            let (kv, hd) = (c.n_kv_heads as int, c.head_dim as int);
            let t = super::laws_device::bench(m, model, staged).run(
                s,
                model.batch_qkv_stretch(l, b) + model.batch_bias_stretch(l, b)
                    + model.batch_write_stretch(l, pos, b) + model.batch_items(l, pos, b, b),
            );
            let xs = s(ga.x_batch);
            &&& super::laws_device::is_ready(m, model, resident, ctx_len, t)
            &&& t(ga.k_cache@[l])[0] == super::laws_device::stored_rows(
                m,
                s(ga.k_cache@[l])[0],
                key_rows(m, model, l, pos, b, xs),
                pos,
                kv,
                hd,
                b as nat,
            )
            &&& t(ga.v_cache@[l])[0] == super::laws_device::stored_rows(
                m,
                s(ga.v_cache@[l])[0],
                value_rows(m, model, l, b, xs),
                pos,
                kv,
                hd,
                b as nat,
            )
            &&& forall|i: int|
                0 <= i < b ==> #[trigger] t(ga.ao_batch)[i] == (m.attended)(
                    m.queries(w, c, l, pos + i, xs[i]),
                    t(ga.k_cache@[l])[0],
                    t(ga.v_cache@[l])[0],
                    Heads { n_heads: c.n_heads as int, n_kv_heads: kv, head_dim: hd },
                    pos + i + 1,
                    ctx_len as int,
                )
            &&& forall|x: ActBuf|
                x.id <= ga.x_batch.id && x != ga.k_cache@[l] && x != ga.v_cache@[l]
                    ==> #[trigger] t(x) == s(x)
        }),
{
    let (w, c) = (model.weights, model.config);
    let ga = model.gpu_acts->0;
    let (kv, hd) = (c.n_kv_heads as int, c.head_dim as int);
    let d = super::laws_device::bench(m, model, staged);
    let xs = s(ga.x_batch);
    super::laws_device::lemma_numbers(m, model, resident, ctx_len, s);
    super::laws_device::lemma_bufs(m, model, resident, ctx_len, s, l);
    let qkv = model.batch_qkv_stretch(l, b);
    let bias = model.batch_bias_stretch(l, b);
    let write = model.batch_write_stretch(l, pos, b);
    let items = model.batch_items(l, pos, b, b);
    super::laws_device::lemma_run_sum(d, s, qkv + bias + write, items);
    super::laws_device::lemma_run_sum(d, s, qkv + bias, write);
    super::laws_device::lemma_run_sum(d, s, qkv, bias);
    let s1 = d.run(s, qkv);
    let s2 = d.run(s1, bias);
    let s3 = d.run(s2, write);
    let t = d.run(s3, items);
    lemma_qkv(m, model, resident, ctx_len, s, staged, l, b);
    super::laws_device::lemma_held(m, model, resident, ctx_len, s, s1);
    lemma_biases(m, model, resident, ctx_len, s1, staged, l, b);
    super::laws_device::lemma_held(m, model, resident, ctx_len, s1, s2);
    lemma_write(m, model, resident, ctx_len, s2, staged, l, pos, b);
    super::laws_device::lemma_held(m, model, resident, ctx_len, s2, s3);
    lemma_items(m, model, resident, ctx_len, s3, staged, l, pos, b, b);
    super::laws_device::lemma_held(m, model, resident, ctx_len, s3, t);
    let keys = key_rows(m, model, l, pos, b, xs);
    let values = value_rows(m, model, l, b, xs);
    assert forall|i: int| 0 <= i < b implies s3(ga.q_batch)[i] == m.queries(
        w,
        c,
        l,
        pos + i,
        #[trigger] xs[i],
    ) && s3(ga.k_batch)[i] == keys[i] && s2(ga.v_batch)[i] == values[i] by {
        let h = (m.normed)(xs[i], (m.vector)(w.attn_norm@[l]), c.n_embd as int);
        assert(s1(ga.q_batch)[i] == m.projected(w.attn_q@[l], w.attn_q_f32@[l], c.n_embd, h));
        assert(s2(ga.q_batch)[i] == m.shifted(
            s1(ga.q_batch)[i],
            w.attn_q_bias@[l],
            c.n_heads * c.head_dim,
        ));
        assert(s3(ga.q_batch)[i] == (m.turned)(
            s2(ga.q_batch)[i],
            c.n_heads as int,
            hd,
            pos + i,
        ));
    }
    assert forall|i: int| 0 <= i < b implies s3(ga.k_batch)[i] == #[trigger] keys[i] by {
        assert(xs[i] == s(ga.x_batch)[i]);
    }
    assert forall|i: int| 0 <= i < b implies s2(ga.v_batch)[i] == #[trigger] values[i] by {
        assert(xs[i] == s(ga.x_batch)[i]);
    }
    lemma_stored_rows(m, s(ga.k_cache@[l])[0], s3(ga.k_batch), keys, pos, kv, hd, b as nat);
    lemma_stored_rows(m, s(ga.v_cache@[l])[0], s2(ga.v_batch), values, pos, kv, hd, b as nat);
    assert forall|i: int| 0 <= i < b implies #[trigger] t(ga.ao_batch)[i] == (m.attended)(
        m.queries(w, c, l, pos + i, xs[i]),
        t(ga.k_cache@[l])[0],
        t(ga.v_cache@[l])[0],
        Heads { n_heads: c.n_heads as int, n_kv_heads: kv, head_dim: hd },
        pos + i + 1,
        ctx_len as int,
    ) by {
        assert(s3(ga.q_batch)[i] == m.queries(w, c, l, pos + i, xs[i]));
    }
}

/// One layer, for `b` tokens.
proof fn lemma_layer<V>(
    m: Maths<V>,
    model: LlamaModel,
    resident: Seq<bool>,
    ctx_len: usize,
    s: spec_fn(ActBuf) -> Seq<V>,
    staged: Seq<usize>,
    l: int,
    pos: int,
    b: int,
)
    requires
        super::laws_device::is_ready(m, model, resident, ctx_len, s),
        0 <= l < model.config.n_layers,
        batch_fits(model.config, pos, b),
    ensures
        ({
            let (w, c) = (model.weights, model.config);
            let ga = model.gpu_acts->0;
            let (kv, hd) = (c.n_kv_heads as int, c.head_dim as int);
            let t = super::laws_device::bench(m, model, staged).run(
                s,
                model.batch_layer_cmds(l, pos, b),
            );
            let xs = s(ga.x_batch);
            &&& super::laws_device::is_ready(m, model, resident, ctx_len, t)
            &&& t(ga.k_cache@[l])[0] == super::laws_device::stored_rows(
                m,
                s(ga.k_cache@[l])[0],
                key_rows(m, model, l, pos, b, xs),
                pos,
                kv,
                hd,
                b as nat,
            )
            &&& t(ga.v_cache@[l])[0] == super::laws_device::stored_rows(
                m,
                s(ga.v_cache@[l])[0],
                value_rows(m, model, l, b, xs),
                pos,
                kv,
                hd,
                b as nat,
            )
            &&& forall|i: int|
                0 <= i < b ==> #[trigger] t(ga.x_batch)[i] == m.finished(
                    w,
                    c,
                    l,
                    xs[i],
                    (m.attended)(
                        m.queries(w, c, l, pos + i, xs[i]),
                        t(ga.k_cache@[l])[0],
                        t(ga.v_cache@[l])[0],
                        Heads { n_heads: c.n_heads as int, n_kv_heads: kv, head_dim: hd },
                        pos + i + 1,
                        ctx_len as int,
                    ),
                )
            &&& forall|x: ActBuf|
                x.id < ga.x_batch.id && x != ga.k_cache@[l] && x != ga.v_cache@[l]
                    ==> #[trigger] t(x) == s(x)
        }),
{
    let ga = model.gpu_acts->0;
    let d = super::laws_device::bench(m, model, staged);
    super::laws_device::lemma_numbers(m, model, resident, ctx_len, s);
    super::laws_device::lemma_bufs(m, model, resident, ctx_len, s, l);
    let half = model.batch_qkv_stretch(l, b) + model.batch_bias_stretch(l, b)
        + model.batch_write_stretch(l, pos, b) + model.batch_items(l, pos, b, b);
    let out = model.batch_out_stretch(l, b);
    let feed = model.batch_feed_stretch(l, b);
    super::laws_device::lemma_run_sum(d, s, half + out, feed);
    super::laws_device::lemma_run_sum(d, s, half, out);
    let s1 = d.run(s, half);
    let s2 = d.run(s1, out);
    let t = d.run(s2, feed);
    lemma_first_half(m, model, resident, ctx_len, s, staged, l, pos, b);
    lemma_out(m, model, resident, ctx_len, s1, staged, l, b);
    super::laws_device::lemma_held(m, model, resident, ctx_len, s1, s2);
    lemma_feed(m, model, resident, ctx_len, s2, staged, l, b);
    super::laws_device::lemma_held(m, model, resident, ctx_len, s2, t);
    assert forall|i: int| 0 <= i < b implies #[trigger] t(ga.x_batch)[i] == m.finished(
        model.weights,
        model.config,
        l,
        s(ga.x_batch)[i],
        s1(ga.ao_batch)[i],
    ) by {
        assert(s2(ga.x_batch)[i] == (m.sum)(
            s1(ga.x_batch)[i],
            (m.product)(
                super::cpu::CpuMatrix::Quant { tensor: model.weights.attn_out@[l] },
                s1(ga.ao_batch)[i],
            ),
            model.config.n_embd as int,
        ));
    }
}

/// What `n` layers leave of the keys and values of layer `j`.
proof fn lemma_frame<V>(
    m: Maths<V>,
    w: super::weights::Weights,
    c: super::config::ModelConfig,
    ctx_len: int,
    pos: int,
    n: nat,
    f: Flow<V>,
    j: int,
)
    requires
        n <= f.k.len(),
        n <= f.v.len(),
        0 <= j < f.k.len(),
        j < f.v.len(),
    ensures
        ({
            let g = m.layers(w, c, ctx_len, pos, n, f);
            let x = m.layers(w, c, ctx_len, pos, j as nat, f).x;
            let (kv, hd) = (c.n_kv_heads as int, c.head_dim as int);
            &&& g.k.len() == f.k.len()
            &&& g.v.len() == f.v.len()
            &&& j >= n ==> g.k[j] == f.k[j] && g.v[j] == f.v[j]
            &&& j < n ==> g.k[j] == (m.stored)(f.k[j], m.keys(w, c, j, pos, x), pos, kv, hd)
            &&& j < n ==> g.v[j] == (m.stored)(f.v[j], m.values(w, c, j, x), pos, kv, hd)
        }),
    decreases n,
{
    if n > 0 {
        lemma_frame(m, w, c, ctx_len, pos, (n - 1) as nat, f, j);
    }
}

/// The keys and values before the token with index `i` of a prompt, and the token before it.
pub open spec fn before<V>(
    m: Maths<V>,
    model: LlamaModel,
    ctx_len: usize,
    tokens: Seq<usize>,
    start: int,
    f: Flow<V>,
    i: int,
) -> Flow<V> {
    m.tokens(model.weights, model.config, ctx_len as int, tokens.take(i), start, f)
}

/// The token with index `i` of a prompt after `l` layers, where each token goes through all
/// layers before the next one.
pub open spec fn at_layer<V>(
    m: Maths<V>,
    model: LlamaModel,
    ctx_len: usize,
    tokens: Seq<usize>,
    start: int,
    f: Flow<V>,
    i: int,
    l: nat,
) -> V {
    let g = before(m, model, ctx_len, tokens, start, f, i);
    m.layers(
        model.weights,
        model.config,
        ctx_len as int,
        start + i,
        l,
        Flow { x: (m.row)(tokens[i]), k: g.k, v: g.v },
    ).x
}

/// There are keys and values for each layer, whatever came before.
proof fn lemma_before_covers<V>(
    m: Maths<V>,
    model: LlamaModel,
    ctx_len: usize,
    tokens: Seq<usize>,
    start: int,
    f: Flow<V>,
    i: int,
)
    requires
        f.k.len() == model.config.n_layers,
        f.v.len() == model.config.n_layers,
        0 <= i <= tokens.len(),
    ensures
        before(m, model, ctx_len, tokens, start, f, i).k.len() == model.config.n_layers,
        before(m, model, ctx_len, tokens, start, f, i).v.len() == model.config.n_layers,
    decreases i,
{
    let (w, c) = (model.weights, model.config);
    if i > 0 {
        lemma_before_covers(m, model, ctx_len, tokens, start, f, i - 1);
        let t = tokens.take(i);
        assert(t.drop_last() =~= tokens.take(i - 1));
        let g = before(m, model, ctx_len, tokens, start, f, i - 1);
        let h = Flow { x: (m.row)(t.last()), k: g.k, v: g.v };
        if c.n_layers > 0 {
            lemma_frame(m, w, c, ctx_len as int, start + i - 1, c.n_layers as nat, h, 0);
        }
    }
}

/// The token with index `i` goes through layer `l`.
proof fn lemma_passes<V>(
    m: Maths<V>,
    model: LlamaModel,
    ctx_len: usize,
    tokens: Seq<usize>,
    start: int,
    f: Flow<V>,
    i: int,
    l: int,
)
    requires
        f.k.len() == model.config.n_layers,
        f.v.len() == model.config.n_layers,
        0 <= i < tokens.len(),
        0 <= l < model.config.n_layers,
    ensures
        ({
            let (w, c) = (model.weights, model.config);
            let (kv, hd) = (c.n_kv_heads as int, c.head_dim as int);
            let x = at_layer(m, model, ctx_len, tokens, start, f, i, l as nat);
            let g = before(m, model, ctx_len, tokens, start, f, i);
            let h = before(m, model, ctx_len, tokens, start, f, i + 1);
            &&& h.k[l] == (m.stored)(g.k[l], m.keys(w, c, l, start + i, x), start + i, kv, hd)
            &&& h.v[l] == (m.stored)(g.v[l], m.values(w, c, l, x), start + i, kv, hd)
            &&& at_layer(m, model, ctx_len, tokens, start, f, i, (l + 1) as nat) == m.finished(
                w,
                c,
                l,
                x,
                (m.attended)(
                    m.queries(w, c, l, start + i, x),
                    h.k[l],
                    h.v[l],
                    Heads { n_heads: c.n_heads as int, n_kv_heads: kv, head_dim: hd },
                    start + i + 1,
                    ctx_len as int,
                ),
            )
        }),
{
    let (w, c) = (model.weights, model.config);
    let g = before(m, model, ctx_len, tokens, start, f, i);
    lemma_before_covers(m, model, ctx_len, tokens, start, f, i);
    let t = tokens.take(i + 1);
    assert(t.drop_last() =~= tokens.take(i));
    assert(t.last() == tokens[i]);
    let e = Flow { x: (m.row)(tokens[i]), k: g.k, v: g.v };
    let ctx = ctx_len as int;
    lemma_frame(m, w, c, ctx, start + i, c.n_layers as nat, e, l);
    lemma_frame(m, w, c, ctx, start + i, l as nat, e, l);
}

/// Storing the keys of a chunk row by row leaves those of the prompt up to there.
proof fn lemma_chunk_keys<V>(
    m: Maths<V>,
    model: LlamaModel,
    ctx_len: usize,
    tokens: Seq<usize>,
    start: int,
    f: Flow<V>,
    from: int,
    b: int,
    l: int,
    xs: Seq<V>,
    j: nat,
)
    requires
        f.k.len() == model.config.n_layers,
        f.v.len() == model.config.n_layers,
        0 <= from,
        from + b <= tokens.len(),
        0 <= l < model.config.n_layers,
        j <= b,
        forall|i: int|
            0 <= i < b ==> #[trigger] xs[i] == at_layer(
                m,
                model,
                ctx_len,
                tokens,
                start,
                f,
                from + i,
                l as nat,
            ),
    ensures
        ({
            let c = model.config;
            let (kv, hd) = (c.n_kv_heads as int, c.head_dim as int);
            let g = before(m, model, ctx_len, tokens, start, f, from);
            let h = before(m, model, ctx_len, tokens, start, f, from + j);
            let pos = start + from;
            &&& super::laws_device::stored_rows(
                m,
                g.k[l],
                key_rows(m, model, l, pos, b, xs),
                pos,
                kv,
                hd,
                j,
            ) == h.k[l]
            &&& super::laws_device::stored_rows(
                m,
                g.v[l],
                value_rows(m, model, l, b, xs),
                pos,
                kv,
                hd,
                j,
            ) == h.v[l]
        }),
    decreases j,
{
    if j > 0 {
        let i = (j - 1) as int;
        lemma_chunk_keys(
            m,
            model,
            ctx_len,
            tokens,
            start,
            f,
            from,
            b,
            l,
            xs,
            (j - 1) as nat,
        );
        lemma_passes(m, model, ctx_len, tokens, start, f, from + i, l);
        assert(xs[i] == at_layer(m, model, ctx_len, tokens, start, f, from + i, l as nat));
        assert(start + from + i == start + (from + i));
        assert(key_rows(m, model, l, start + from, b, xs)[i] == m.keys(
            model.weights,
            model.config,
            l,
            start + from + i,
            xs[i],
        ));
        assert(value_rows(m, model, l, b, xs)[i] == m.values(
            model.weights,
            model.config,
            l,
            xs[i],
        ));
    }
}

/// Rows that are stored behind the first `n` positions do not matter to attention over those.
proof fn lemma_looks_back<V>(
    m: Maths<V>,
    q: V,
    k: V,
    v: V,
    keys: Seq<V>,
    values: Seq<V>,
    pos: int,
    shape: Heads,
    ctx: int,
    i: nat,
    j: nat,
)
    requires
        m.looks_back(),
        i <= j,
    ensures
        ({
            let (kv, hd) = (shape.n_kv_heads, shape.head_dim);
            (m.attended)(
                q,
                super::laws_device::stored_rows(m, k, keys, pos, kv, hd, j),
                super::laws_device::stored_rows(m, v, values, pos, kv, hd, j),
                shape,
                pos + i,
                ctx,
            ) == (m.attended)(
                q,
                super::laws_device::stored_rows(m, k, keys, pos, kv, hd, i),
                super::laws_device::stored_rows(m, v, values, pos, kv, hd, i),
                shape,
                pos + i,
                ctx,
            )
        }),
    decreases j,
{
    if i < j {
        let (kv, hd) = (shape.n_kv_heads, shape.head_dim);
        let h = (j - 1) as nat;
        lemma_looks_back(m, q, k, v, keys, values, pos, shape, ctx, i, h);
        let k1 = super::laws_device::stored_rows(m, k, keys, pos, kv, hd, h);
        let v1 = super::laws_device::stored_rows(m, v, values, pos, kv, hd, h);
        let k2 = super::laws_device::stored_rows(m, k, keys, pos, kv, hd, j);
        let v2 = super::laws_device::stored_rows(m, v, values, pos, kv, hd, j);
        assert(k2 == (m.stored)(k1, keys[j - 1], pos + j - 1, kv, hd));
        assert(v2 == (m.stored)(v1, values[j - 1], pos + j - 1, kv, hd));
        assert((m.attended)(q, k2, v2, shape, pos + i, ctx) == (m.attended)(
            q,
            k1,
            v2,
            shape,
            pos + i,
            ctx,
        ));
        assert((m.attended)(q, k1, v2, shape, pos + i, ctx) == (m.attended)(
            q,
            k1,
            v1,
            shape,
            pos + i,
            ctx,
        ));
    }
}

/// After `k` layers of a chunk its rows and the caches hold what they hold where each token goes
/// through all layers before the next one.
pub open spec fn keeps_step<V>(
    m: Maths<V>,
    model: LlamaModel,
    ctx_len: usize,
    tokens: Seq<usize>,
    start: int,
    f: Flow<V>,
    from: int,
    b: int,
    k: int,
    s: spec_fn(ActBuf) -> Seq<V>,
) -> bool {
    let ga = model.gpu_acts->0;
    &&& forall|i: int|
        0 <= i < b ==> #[trigger] s(ga.x_batch)[i] == at_layer(
            m,
            model,
            ctx_len,
            tokens,
            start,
            f,
            from + i,
            k as nat,
        )
    &&& forall|l: int|
        0 <= l < model.config.n_layers ==> {
            let g = before(
                m,
                model,
                ctx_len,
                tokens,
                start,
                f,
                if l < k {
                    from + b
                } else {
                    from
                },
            );
            &&& s(#[trigger] ga.k_cache@[l])[0] == g.k[l]
            &&& s(ga.v_cache@[l])[0] == g.v[l]
        }
}

proof fn lemma_layers<V>(
    m: Maths<V>,
    model: LlamaModel,
    resident: Seq<bool>,
    ctx_len: usize,
    s: spec_fn(ActBuf) -> Seq<V>,
    tokens: Seq<usize>,
    start: int,
    f: Flow<V>,
    from: int,
    b: int,
    k: nat,
)
    requires
        m.looks_back(),
        super::laws_device::is_ready(m, model, resident, ctx_len, s),
        f.k.len() == model.config.n_layers,
        f.v.len() == model.config.n_layers,
        0 <= start,
        0 <= from,
        from + b <= tokens.len(),
        batch_fits(model.config, start + from, b),
        k <= model.config.n_layers,
        keeps_step(m, model, ctx_len, tokens, start, f, from, b, 0, s),
    ensures
        ({
            let t = super::laws_device::bench(m, model, tokens).run(
                s,
                model.batch_layers_cmds(start + from, b, k),
            );
            &&& super::laws_device::is_ready(m, model, resident, ctx_len, t)
            &&& keeps_step(m, model, ctx_len, tokens, start, f, from, b, k as int, t)
        }),
    decreases k,
{
    let (w, c) = (model.weights, model.config);
    let ga = model.gpu_acts->0;
    let d = super::laws_device::bench(m, model, tokens);
    let pos = start + from;
    if k > 0 {
        let l = k - 1;
        lemma_layers(m, model, resident, ctx_len, s, tokens, start, f, from, b, l as nat);
        let less = model.batch_layers_cmds(pos, b, l as nat);
        let u = d.run(s, less);
        super::laws_device::lemma_run_sum(d, s, less, model.batch_layer_cmds(l, pos, b));
        lemma_layer(m, model, resident, ctx_len, u, tokens, l, pos, b);
        let t = d.run(s, model.batch_layers_cmds(pos, b, k));
        let xs = u(ga.x_batch);
        let g = before(m, model, ctx_len, tokens, start, f, from);
        let (kv, hd) = (c.n_kv_heads as int, c.head_dim as int);
        let shape = Heads { n_heads: c.n_heads as int, n_kv_heads: kv, head_dim: hd };
        let keys = key_rows(m, model, l, pos, b, xs);
        let values = value_rows(m, model, l, b, xs);
        assert(u(ga.k_cache@[l])[0] == g.k[l]);
        assert forall|i: int| 0 <= i < b implies #[trigger] xs[i] == at_layer(
            m,
            model,
            ctx_len,
            tokens,
            start,
            f,
            from + i,
            l as nat,
        ) by {
            assert(u(ga.x_batch)[i] == xs[i]);
        }
        lemma_chunk_keys(m, model, ctx_len, tokens, start, f, from, b, l, xs, b as nat);
        assert forall|i: int| 0 <= i < b implies #[trigger] t(ga.x_batch)[i] == at_layer(
            m,
            model,
            ctx_len,
            tokens,
            start,
            f,
            from + i,
            k,
        ) by {
            let q = m.queries(w, c, l, pos + i, xs[i]);
            assert(xs[i] == at_layer(m, model, ctx_len, tokens, start, f, from + i, l as nat));
            lemma_chunk_keys(
                m,
                model,
                ctx_len,
                tokens,
                start,
                f,
                from,
                b,
                l,
                xs,
                (i + 1) as nat,
            );
            lemma_passes(m, model, ctx_len, tokens, start, f, from + i, l);
            lemma_looks_back(
                m,
                q,
                g.k[l],
                g.v[l],
                keys,
                values,
                pos,
                shape,
                ctx_len as int,
                (i + 1) as nat,
                b as nat,
            );
            assert(from + (i + 1) as nat == from + i + 1);
            assert(pos + (i + 1) as nat == start + (from + i) + 1);
            assert(pos + i == start + (from + i));
        }
        assert forall|j: int| 0 <= j < c.n_layers implies {
            let h = before(
                m,
                model,
                ctx_len,
                tokens,
                start,
                f,
                if j < k {
                    from + b
                } else {
                    from
                },
            );
            &&& t(#[trigger] ga.k_cache@[j])[0] == h.k[j]
            &&& t(ga.v_cache@[j])[0] == h.v[j]
        } by {
            super::laws_device::lemma_numbers(m, model, resident, ctx_len, u);
            super::laws_device::lemma_bufs(m, model, resident, ctx_len, u, j);
            super::laws_device::lemma_bufs(m, model, resident, ctx_len, u, l);
            if j != l {
                assert(t(ga.k_cache@[j]) == u(ga.k_cache@[j]));
                assert(t(ga.v_cache@[j]) == u(ga.v_cache@[j]));
            }
        }
    }
}

/// The last row of a batch becomes the logits.
proof fn lemma_close<V>(
    m: Maths<V>,
    model: LlamaModel,
    resident: Seq<bool>,
    ctx_len: usize,
    s: spec_fn(ActBuf) -> Seq<V>,
    staged: Seq<usize>,
    b: int,
)
    requires
        super::laws_device::is_ready(m, model, resident, ctx_len, s),
        model.config.n_embd > 0,
        b >= 1,
        b * model.config.n_embd * 4 <= usize::MAX,
    ensures
        ({
            let (w, c) = (model.weights, model.config);
            let ga = model.gpu_acts->0;
            let t = super::laws_device::bench(m, model, staged).run(
                s,
                model.batch_close_cmds(b, true),
            );
            &&& t(ga.logits) == seq![m.logits(w, c, s(ga.x_batch)[b - 1])]
            &&& t(ga.logits_rb) == t(ga.logits)
            &&& forall|x: ActBuf| x.id < ga.x.id ==> #[trigger] t(x) == s(x)
            &&& super::laws_device::is_ready(m, model, resident, ctx_len, t)
        }),
{
    let (w, c) = (model.weights, model.config);
    let (gw, ga) = (model.gpu_w->0, model.gpu_acts->0);
    let d = super::laws_device::bench(m, model, staged);
    super::laws_device::lemma_numbers(m, model, resident, ctx_len, s);
    assert(resident[0]);
    let none = Seq::<GpuCmd>::empty();
    let copy = GpuCmd::CopyToAct {
        dst: ga.xn,
        src: CopySource::Act(ga.x_batch),
        offset: ((b - 1) * c.n_embd * 4) as u64,
    };
    let norm = GpuCmd::RmsNorm { src: ga.xn, weight: ga.out_norm, dst: ga.xn, n: c.n_embd as u32 };
    let submit = GpuCmd::SubmitWithReadback { logits: ga.logits, readback: ga.logits_rb };
    let p1 = super::record::fenced(copy);
    let p2 = p1 + super::record::fenced(norm);
    let p3 = p2 + super::record::gemv_cmd(gw.output, ga.xn, ga.logits);
    let p4 = p3 + seq![submit];
    assert(model.batch_close_cmds(b, true) =~= p4);
    super::laws_device::lemma_then_fenced(d, s, p1, copy);
    super::laws_device::lemma_then_fenced(d, s, p1, norm);
    super::laws_device::lemma_then_gemv(d, s, p2, gw.output, ga.xn, ga.logits);
    super::laws_device::lemma_then(d, s, p3, submit);
    super::laws_device::lemma_row_at(b - 1, c.n_embd as int, b);
    assert(d.matrix(gw.output->0) == super::cpu::CpuMatrix::Quant { tensor: w.output }) by {
        assert(d.uploads[0] == super::uploads::Upload::Quant { tensor: w.output });
    }
    super::laws_device::lemma_held(m, model, resident, ctx_len, s, d.run(s, p4));
}

/// A part of a batch that fits does fit.
proof fn lemma_fits(c: super::config::ModelConfig, start: int, from: int, b: int, most: int, n: int)
    requires
        0 <= start,
        0 <= from,
        0 <= b <= most,
        from + b <= n,
        start + n <= u32::MAX,
        most * c.n_embd <= u32::MAX,
        most * c.n_heads * c.head_dim <= u32::MAX,
        c.n_embd > 0,
        c.n_heads * c.head_dim > 0,
        n * c.n_embd * 4 <= usize::MAX,
    ensures
        batch_fits(c, start + from, b),
        b * c.n_embd * 4 <= usize::MAX,
{
    let (e, h, d) = (c.n_embd as int, c.n_heads as int, c.head_dim as int);
    assert(b * e <= most * e && b * h * d <= most * h * d && b * e * 4 <= n * e * 4) by (
    nonlinear_arith)
        requires
            0 <= b <= most,
            b <= n,
            e >= 0,
            h >= 0,
            d >= 0,
    {
        assert(b * h <= most * h);
    }
}

/// The most tokens in a batch of a prompt.
pub open spec fn most_rows(n: int, size: int) -> int {
    if size <= n {
        size
    } else {
        n
    }
}

/// The batches from index `from` on.
proof fn lemma_batches<V>(
    m: Maths<V>,
    model: LlamaModel,
    resident: Seq<bool>,
    ctx_len: usize,
    s: spec_fn(ActBuf) -> Seq<V>,
    tokens: Seq<usize>,
    start: int,
    f: Flow<V>,
    from: int,
    size: int,
)
    requires
        m.looks_back(),
        super::laws_device::is_ready(m, model, resident, ctx_len, s),
        f.k.len() == model.config.n_layers,
        f.v.len() == model.config.n_layers,
        model.config.n_embd > 0,
        model.config.n_heads * model.config.head_dim > 0,
        0 <= from < tokens.len(),
        size >= 1,
        tokens.len() * model.config.n_embd * 4 <= usize::MAX,
        most_rows(tokens.len() as int, size) * model.config.n_embd <= u32::MAX,
        most_rows(tokens.len() as int, size) * model.config.n_heads * model.config.head_dim
            <= u32::MAX,
        0 <= start,
        start + tokens.len() <= u32::MAX,
        forall|l: int|
            0 <= l < model.config.n_layers ==> {
                let g = before(m, model, ctx_len, tokens, start, f, from);
                &&& s(#[trigger] (model.gpu_acts->0).k_cache@[l])[0] == g.k[l]
                &&& s((model.gpu_acts->0).v_cache@[l])[0] == g.v[l]
            },
    ensures
        ({
            let (w, c) = (model.weights, model.config);
            let ga = model.gpu_acts->0;
            let n = tokens.len() as int;
            let t = super::laws_device::bench(m, model, tokens).run(
                s,
                model.batches_cmds(start, from, n, size),
            );
            let g = before(m, model, ctx_len, tokens, start, f, n);
            &&& t(ga.logits) == seq![m.logits(w, c, g.x)]
            &&& t(ga.logits_rb) == t(ga.logits)
            &&& forall|l: int|
                0 <= l < c.n_layers ==> {
                    &&& t(#[trigger] ga.k_cache@[l])[0] == g.k[l]
                    &&& t(ga.v_cache@[l])[0] == g.v[l]
                }
            &&& super::laws_device::is_ready(m, model, resident, ctx_len, t)
        }),
    decreases tokens.len() - from,
{
    let c = model.config;
    let ga = model.gpu_acts->0;
    let n = tokens.len() as int;
    let d = super::laws_device::bench(m, model, tokens);
    let to = super::prefill::chunk_end(from, size, n);
    let b = to - from;
    let none = Seq::<GpuCmd>::empty();
    lemma_fits(c, start, from, b, most_rows(n, size), n);
    let open = model.batch_open_cmds(from, b);
    let begin = open[0];
    let copy = open[1];
    let layers = model.batch_layers_cmds(start + from, b, c.n_layers as nat);
    let close = model.batch_close_cmds(b, to == n);
    let rest = model.batches_cmds(start, to, n, size);
    super::laws_device::lemma_run_sum(d, s, open + layers + close, rest);
    super::laws_device::lemma_run_sum(d, s, open + layers, close);
    super::laws_device::lemma_run_sum(d, s, open, layers);
    assert(open =~= none + seq![begin] + seq![copy]);
    super::laws_device::lemma_then(d, s, none, begin);
    super::laws_device::lemma_then(d, s, none + seq![begin], copy);
    let u = d.step(s, copy);
    super::laws_device::lemma_row_at(from, c.n_embd as int, n);
    super::laws_device::lemma_numbers(m, model, resident, ctx_len, s);
    super::laws_device::lemma_held(m, model, resident, ctx_len, s, u);
    assert forall|i: int| 0 <= i < b implies #[trigger] u(ga.x_batch)[i] == at_layer(
        m,
        model,
        ctx_len,
        tokens,
        start,
        f,
        from + i,
        0,
    ) by {}
    assert forall|l: int| 0 <= l < c.n_layers implies u(#[trigger] ga.k_cache@[l]) == s(
        ga.k_cache@[l],
    ) && u(ga.v_cache@[l]) == s(ga.v_cache@[l]) by {
        super::laws_device::lemma_bufs(m, model, resident, ctx_len, s, l);
    }
    assert(keeps_step(m, model, ctx_len, tokens, start, f, from, b, 0, u));
    lemma_layers(
        m,
        model,
        resident,
        ctx_len,
        u,
        tokens,
        start,
        f,
        from,
        b,
        c.n_layers as nat,
    );
    let v = d.run(u, layers);
    let t = d.run(v, close);
    let g = before(m, model, ctx_len, tokens, start, f, to);
    assert forall|l: int| 0 <= l < c.n_layers implies v(#[trigger] ga.k_cache@[l])[0] == g.k[l]
        && v(ga.v_cache@[l])[0] == g.v[l] by {
        let k = c.n_layers as int;
        assert(keeps_step(m, model, ctx_len, tokens, start, f, from, b, k, v));
        let end = if l < k {
            from + b
        } else {
            from
        };
        assert(end == to);
        assert(v(ga.k_cache@[l])[0] == before(m, model, ctx_len, tokens, start, f, end).k[l]);
    }
    if to < n {
        super::laws_device::lemma_run_one(d, v, GpuCmd::SubmitNoReadback);
        assert(t == v);
        lemma_batches(m, model, resident, ctx_len, t, tokens, start, f, to, size);
    } else {
        assert(rest =~= none);
        lemma_close(m, model, resident, ctx_len, v, tokens, b);
        assert(v(ga.x_batch)[b - 1] == at_layer(
            m,
            model,
            ctx_len,
            tokens,
            start,
            f,
            from + (b - 1),
            c.n_layers as nat,
        ));
        assert(tokens.take(to).drop_last() =~= tokens.take(to - 1));
        assert(tokens.take(to).last() == tokens[to - 1]);
        assert(v(ga.x_batch)[b - 1] == g.x);
        assert forall|l: int| 0 <= l < c.n_layers implies t(#[trigger] ga.k_cache@[l])[0]
            == g.k[l] && t(ga.v_cache@[l])[0] == g.v[l] by {
            super::laws_device::lemma_bufs(m, model, resident, ctx_len, v, l);
            super::laws_device::lemma_numbers(m, model, resident, ctx_len, v);
            assert(v(ga.k_cache@[l])[0] == g.k[l]);
        }
    }
}

/// The evaluation of a prompt on a device in batches leaves the logits of the model after its
/// last token, there and with the host, and the keys and values of all its tokens in the caches,
/// as if the tokens had come one by one: the token with index `i` stands at position `start + i`.
pub proof fn law_batches_compute_the_model<V>(
    m: Maths<V>,
    model: LlamaModel,
    resident: Seq<bool>,
    ctx_len: usize,
    s: spec_fn(ActBuf) -> Seq<V>,
    tokens: Seq<usize>,
    start: int,
    size: int,
)
    requires
        m.looks_back(),
        super::laws_device::is_ready(m, model, resident, ctx_len, s),
        model.config.n_embd > 0,
        model.config.n_heads * model.config.head_dim > 0,
        tokens.len() > 0,
        size >= 1,
        tokens.len() * model.config.n_embd * 4 <= usize::MAX,
        most_rows(tokens.len() as int, size) * model.config.n_embd <= u32::MAX,
        most_rows(tokens.len() as int, size) * model.config.n_heads * model.config.head_dim
            <= u32::MAX,
        0 <= start,
        start + tokens.len() <= u32::MAX,
    ensures
        ({
            let (w, c) = (model.weights, model.config);
            let ga = model.gpu_acts->0;
            let n = c.n_layers as nat;
            let t = super::laws_device::bench(m, model, tokens).run(
                s,
                model.prefill_gemm_cmds(start, tokens.len() as int, size),
            );
            let f = m.tokens(
                w,
                c,
                ctx_len as int,
                tokens,
                start,
                super::laws_device::flow_on(ga, n, s, s(ga.x)[0]),
            );
            &&& t(ga.logits) == seq![m.logits(w, c, f.x)]
            &&& t(ga.logits_rb) == seq![m.logits(w, c, f.x)]
            &&& super::laws_device::flow_on(ga, n, t, f.x) == f
            &&& super::laws_device::is_ready(m, model, resident, ctx_len, t)
        }),
{
    let c = model.config;
    let ga = model.gpu_acts->0;
    let n = tokens.len() as int;
    let layers = c.n_layers as nat;
    let d = super::laws_device::bench(m, model, tokens);
    let f = super::laws_device::flow_on(ga, layers, s, s(ga.x)[0]);
    let batches = model.batches_cmds(start, 0, n, size);
    let read = GpuCmd::ReadLogits { logits: ga.logits, readback: ga.logits_rb };
    super::laws_device::lemma_then(d, s, batches, read);
    assert(tokens.take(0) =~= Seq::empty());
    assert(tokens.take(n) =~= tokens);
    lemma_batches(m, model, resident, ctx_len, s, tokens, start, f, 0, size);
    lemma_before_covers(m, model, ctx_len, tokens, start, f, n);
    let g = before(m, model, ctx_len, tokens, start, f, n);
    let t = d.run(s, batches);
    let e = super::laws_device::flow_on(ga, layers, t, g.x);
    assert forall|l: int| 0 <= l < layers implies e.k[l] == g.k[l] && e.v[l] == g.v[l] by {
        assert(t(ga.k_cache@[l])[0] == g.k[l]);
    }
    assert(e.k =~= g.k);
    assert(e.v =~= g.v);
}

} // verus!
