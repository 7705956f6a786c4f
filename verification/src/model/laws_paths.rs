//! What the evaluation of a token promises, on the host and on a device alike.
use vstd::prelude::*;

use super::config::ModelConfig;
use super::cpu::{CpuBuf, CpuMatrix, CpuOp};
use super::gpu::{ActBuf, GpuActs, GpuCmd, GpuTensor, GpuWeights};
use super::llama::LlamaModel;
use super::uploads::Upload;
use super::weights::{FloatVec, Weights};

verus! {

/// The matrix that a step multiplies by.
pub open spec fn step_matrix(op: CpuOp) -> Seq<CpuMatrix> {
    match op {
        CpuOp::MatVec { matrix, .. } => seq![matrix],
        _ => Seq::empty(),
    }
}

/// The matrices that an evaluation on the host multiplies by, in order.
pub open spec fn host_matrices(ops: Seq<CpuOp>) -> Seq<CpuMatrix>
    decreases ops.len(),
{
    if ops.len() == 0 {
        Seq::empty()
    } else {
        host_matrices(ops.drop_last()) + step_matrix(ops.last())
    }
}

/// The matrix that an upload put on the device, with `cols` numbers in a float row.
pub open spec fn uploaded(upload: Upload, cols: usize) -> CpuMatrix {
    match upload {
        Upload::Quant { tensor } => CpuMatrix::Quant { tensor },
        Upload::Floats { span, .. } => CpuMatrix::Floats { span, cols },
    }
}

/// The matrix that a command multiplies by.
pub open spec fn cmd_matrix(cmd: GpuCmd, uploads: Seq<Upload>, cols: usize) -> Seq<CpuMatrix> {
    match cmd {
        GpuCmd::Gemv { weight, .. } => seq![uploaded(uploads[weight.id as int], cols)],
        GpuCmd::Gemm { weight, .. } => seq![uploaded(uploads[weight.id as int], cols)],
        _ => Seq::empty(),
    }
}

/// The matrices that recorded commands multiply by, in order.
pub open spec fn device_matrices(
    cmds: Seq<GpuCmd>,
    uploads: Seq<Upload>,
    cols: usize,
) -> Seq<CpuMatrix>
    decreases cmds.len(),
{
    if cmds.len() == 0 {
        Seq::empty()
    } else {
        device_matrices(cmds.drop_last(), uploads, cols) + cmd_matrix(cmds.last(), uploads, cols)
    }
}

/// The projections of layer `l`.
pub open spec fn qkv_matrices(w: Weights, c: ModelConfig, l: int) -> Seq<CpuMatrix> {
    seq![super::cpu::matrix(w.attn_q@[l], w.attn_q_f32@[l], c.n_embd)] + seq![
        super::cpu::matrix(w.attn_k@[l], w.attn_k_f32@[l], c.n_embd),
    ] + seq![super::cpu::matrix(w.attn_v@[l], w.attn_v_f32@[l], c.n_embd)]
}

/// The matrices of layer `l`.
pub open spec fn layer_matrices(w: Weights, c: ModelConfig, l: int) -> Seq<CpuMatrix> {
    qkv_matrices(w, c, l) + seq![CpuMatrix::Quant { tensor: w.attn_out@[l] }] + (seq![
        CpuMatrix::Quant { tensor: w.ffn_gate@[l] },
    ] + seq![CpuMatrix::Quant { tensor: w.ffn_up@[l] }] + seq![
        CpuMatrix::Quant { tensor: w.ffn_down@[l] },
    ])
}

/// The matrices of the first `k` layers.
pub open spec fn layers_matrices(w: Weights, c: ModelConfig, k: nat) -> Seq<CpuMatrix>
    decreases k,
{
    if k == 0 {
        Seq::empty()
    } else {
        layers_matrices(w, c, (k - 1) as nat) + layer_matrices(w, c, k - 1)
    }
}

/// The matrices of a model: those of its layers, one after the other, and the output
/// projection.
pub open spec fn model_matrices(w: Weights, c: ModelConfig) -> Seq<CpuMatrix> {
    layers_matrices(w, c, c.n_layers as nat) + seq![CpuMatrix::Quant { tensor: w.output }]
}

proof fn lemma_host_sum(a: Seq<CpuOp>, b: Seq<CpuOp>)
    ensures
        host_matrices(a + b) == host_matrices(a) + host_matrices(b),
    decreases b.len(),
{
    if b.len() == 0 {
        assert(a + b =~= a);
        assert(host_matrices(a) + host_matrices(b) =~= host_matrices(a));
    } else {
        assert((a + b).drop_last() =~= a + b.drop_last());
        lemma_host_sum(a, b.drop_last());
        assert(host_matrices(a + b) =~= host_matrices(a) + host_matrices(b));
    }
}

proof fn lemma_host_one(op: CpuOp)
    ensures
        host_matrices(seq![op]) == step_matrix(op),
{
    let s = seq![op];
    assert(s.drop_last() =~= Seq::empty());
    assert(host_matrices(s.drop_last()) =~= Seq::empty());
    assert(host_matrices(s) =~= step_matrix(op));
}

/// Steps that multiply by nothing leave the matrices as they are.
proof fn lemma_host_rest(a: Seq<CpuOp>, b: Seq<CpuOp>)
    requires
        host_matrices(b) == Seq::<CpuMatrix>::empty(),
    ensures
        host_matrices(a + b) == host_matrices(a),
{
    lemma_host_sum(a, b);
    assert(host_matrices(a) + host_matrices(b) =~= host_matrices(a));
}

proof fn lemma_host_step(a: Seq<CpuOp>, op: CpuOp)
    ensures
        host_matrices(a + seq![op]) == host_matrices(a) + step_matrix(op),
{
    lemma_host_sum(a, seq![op]);
    lemma_host_one(op);
}

/// A step that multiplies by nothing.
proof fn lemma_host_idle(a: Seq<CpuOp>, op: CpuOp)
    requires
        step_matrix(op) == Seq::<CpuMatrix>::empty(),
    ensures
        host_matrices(a + seq![op]) == host_matrices(a),
{
    lemma_host_step(a, op);
    assert(host_matrices(a) + step_matrix(op) =~= host_matrices(a));
}

proof fn lemma_host_bias(dst: CpuBuf, bias: Option<FloatVec>)
    ensures
        host_matrices(super::cpu::bias_op(dst, bias)) == Seq::<CpuMatrix>::empty(),
{
    if let Some(b) = bias {
        lemma_host_one(CpuOp::AddBias { dst, bias: b });
    }
}

proof fn lemma_host_norm(weight: FloatVec)
    ensures
        host_matrices(super::cpu::norm_ops(weight)) == Seq::<CpuMatrix>::empty(),
{
    let copy = CpuOp::Copy { dst: CpuBuf::Xn, src: CpuBuf::X };
    lemma_host_one(copy);
    lemma_host_idle(seq![copy], CpuOp::RmsNorm { buf: CpuBuf::Xn, weight });
}

proof fn lemma_host_qkv(w: Weights, c: ModelConfig, l: int)
    ensures
        host_matrices(super::cpu::qkv_ops(w, c, l)) == qkv_matrices(w, c, l),
{
    let q = CpuOp::MatVec {
        dst: CpuBuf::Q,
        src: CpuBuf::Xn,
        matrix: super::cpu::matrix(w.attn_q@[l], w.attn_q_f32@[l], c.n_embd),
    };
    let k = CpuOp::MatVec {
        dst: CpuBuf::K,
        src: CpuBuf::Xn,
        matrix: super::cpu::matrix(w.attn_k@[l], w.attn_k_f32@[l], c.n_embd),
    };
    let v = CpuOp::MatVec {
        dst: CpuBuf::V,
        src: CpuBuf::Xn,
        matrix: super::cpu::matrix(w.attn_v@[l], w.attn_v_f32@[l], c.n_embd),
    };
    let bq = super::cpu::bias_op(CpuBuf::Q, w.attn_q_bias@[l]);
    let bk = super::cpu::bias_op(CpuBuf::K, w.attn_k_bias@[l]);
    let bv = super::cpu::bias_op(CpuBuf::V, w.attn_v_bias@[l]);
    lemma_host_one(q);
    lemma_host_step(seq![q], k);
    lemma_host_step(seq![q] + seq![k], v);
    let s = seq![q] + seq![k] + seq![v];
    lemma_host_bias(CpuBuf::Q, w.attn_q_bias@[l]);
    lemma_host_bias(CpuBuf::K, w.attn_k_bias@[l]);
    lemma_host_bias(CpuBuf::V, w.attn_v_bias@[l]);
    lemma_host_rest(s, bq);
    lemma_host_rest(s + bq, bk);
    lemma_host_rest(s + bq + bk, bv);
}

proof fn lemma_host_heads(c: ModelConfig, l: int, pos: int, k: nat)
    requires
        k <= c.n_heads,
    ensures
        host_matrices(super::cpu::attend_ops(c, l, pos).take(k as int)) == Seq::<
            CpuMatrix,
        >::empty(),
    decreases k,
{
    if k > 0 {
        let all = super::cpu::attend_ops(c, l, pos);
        lemma_host_heads(c, l, pos, (k - 1) as nat);
        assert(all.take(k as int) =~= all.take(k - 1) + seq![all[k - 1]]);
        lemma_host_idle(all.take(k - 1), all[k - 1]);
    }
}

proof fn lemma_host_attention(c: ModelConfig, l: int, pos: int)
    ensures
        host_matrices(super::cpu::attention_ops(c, l, pos)) == Seq::<CpuMatrix>::empty(),
{
    let rope = CpuOp::Rope {
        pos: pos as usize,
        head_dim: c.head_dim,
        n_heads: c.n_heads,
        n_kv_heads: c.n_kv_heads,
    };
    let store = CpuOp::StoreKv { layer: l as usize, start: (pos * c.kv_width()) as usize };
    let clear = CpuOp::Clear { buf: CpuBuf::Attn };
    let heads = super::cpu::attend_ops(c, l, pos);
    lemma_host_one(rope);
    lemma_host_idle(seq![rope], store);
    lemma_host_idle(seq![rope] + seq![store], clear);
    lemma_host_heads(c, l, pos, c.n_heads as nat);
    assert(heads.take(c.n_heads as int) =~= heads);
    lemma_host_rest(seq![rope] + seq![store] + seq![clear], heads);
}

proof fn lemma_host_project(w: Weights, l: int)
    ensures
        host_matrices(super::cpu::project_ops(w, l)) == seq![
            CpuMatrix::Quant { tensor: w.attn_out@[l] },
        ],
{
    let out = CpuOp::MatVec {
        dst: CpuBuf::Proj,
        src: CpuBuf::Attn,
        matrix: CpuMatrix::Quant { tensor: w.attn_out@[l] },
    };
    lemma_host_one(out);
    lemma_host_idle(seq![out], CpuOp::AddBuf { dst: CpuBuf::X, src: CpuBuf::Proj });
}

proof fn lemma_host_feed(w: Weights, c: ModelConfig, l: int)
    ensures
        host_matrices(super::cpu::feed_ops(w, c, l)) == seq![
            CpuMatrix::Quant { tensor: w.ffn_gate@[l] },
        ] + seq![CpuMatrix::Quant { tensor: w.ffn_up@[l] }] + seq![
            CpuMatrix::Quant { tensor: w.ffn_down@[l] },
        ],
{
    let gate = CpuOp::MatVec {
        dst: CpuBuf::Gate,
        src: CpuBuf::Xn,
        matrix: CpuMatrix::Quant { tensor: w.ffn_gate@[l] },
    };
    let up = CpuOp::MatVec {
        dst: CpuBuf::Up,
        src: CpuBuf::Xn,
        matrix: CpuMatrix::Quant { tensor: w.ffn_up@[l] },
    };
    let swiglu = CpuOp::SwiGlu { n: c.n_ff };
    let down = CpuOp::MatVec {
        dst: CpuBuf::Ff,
        src: CpuBuf::Gate,
        matrix: CpuMatrix::Quant { tensor: w.ffn_down@[l] },
    };
    let sum = CpuOp::AddBuf { dst: CpuBuf::X, src: CpuBuf::Ff };
    lemma_host_one(gate);
    lemma_host_step(seq![gate], up);
    lemma_host_idle(seq![gate] + seq![up], swiglu);
    lemma_host_step(seq![gate] + seq![up] + seq![swiglu], down);
    lemma_host_idle(seq![gate] + seq![up] + seq![swiglu] + seq![down], sum);
}

proof fn lemma_host_layer(w: Weights, c: ModelConfig, l: int, pos: int)
    ensures
        host_matrices(super::cpu::layer_ops(w, c, l, pos)) == layer_matrices(w, c, l),
{
    let s1 = super::cpu::norm_ops(w.attn_norm@[l]);
    let s2 = s1 + super::cpu::qkv_ops(w, c, l);
    let s3 = s2 + super::cpu::attention_ops(c, l, pos);
    let s4 = s3 + super::cpu::project_ops(w, l);
    let s5 = s4 + super::cpu::norm_ops(w.ffn_norm@[l]);
    lemma_host_norm(w.attn_norm@[l]);
    lemma_host_qkv(w, c, l);
    lemma_host_sum(s1, super::cpu::qkv_ops(w, c, l));
    assert(host_matrices(s2) =~= qkv_matrices(w, c, l));
    lemma_host_attention(c, l, pos);
    lemma_host_rest(s2, super::cpu::attention_ops(c, l, pos));
    lemma_host_project(w, l);
    lemma_host_sum(s3, super::cpu::project_ops(w, l));
    lemma_host_norm(w.ffn_norm@[l]);
    lemma_host_rest(s4, super::cpu::norm_ops(w.ffn_norm@[l]));
    lemma_host_feed(w, c, l);
    lemma_host_sum(s5, super::cpu::feed_ops(w, c, l));
}

proof fn lemma_host_layers(w: Weights, c: ModelConfig, pos: int, k: nat)
    ensures
        host_matrices(super::cpu::layers_ops(w, c, pos, k)) == layers_matrices(w, c, k),
    decreases k,
{
    if k > 0 {
        lemma_host_layers(w, c, pos, (k - 1) as nat);
        lemma_host_layer(w, c, k - 1, pos);
        lemma_host_sum(
            super::cpu::layers_ops(w, c, pos, (k - 1) as nat),
            super::cpu::layer_ops(w, c, k - 1, pos),
        );
    }
}

proof fn lemma_host_scratch(c: ModelConfig, pos: int, k: int)
    requires
        0 <= k <= super::cpu::scratch_ops(c, pos).len(),
    ensures
        host_matrices(super::cpu::scratch_ops(c, pos).take(k)) == Seq::<CpuMatrix>::empty(),
    decreases k,
{
    if k > 0 {
        let all = super::cpu::scratch_ops(c, pos);
        lemma_host_scratch(c, pos, k - 1);
        assert(all.take(k) =~= all.take(k - 1) + seq![all[k - 1]]);
        assert(step_matrix(all[k - 1]) =~= Seq::empty());
        lemma_host_idle(all.take(k - 1), all[k - 1]);
    }
}

/// An evaluation on the host multiplies by every matrix of the model once, in order.
pub proof fn law_host_uses_every_matrix(w: Weights, c: ModelConfig, token: usize, pos: int)
    ensures
        host_matrices(super::cpu::forward_ops(w, c, token, pos)) == model_matrices(w, c),
{
    let scratch = super::cpu::scratch_ops(c, pos);
    let layers = super::cpu::layers_ops(w, c, pos, c.n_layers as nat);
    let embed = CpuOp::Embed { token };
    let norm = CpuOp::RmsNorm { buf: CpuBuf::X, weight: w.output_norm };
    let zeros = CpuOp::Zeros { buf: CpuBuf::Logits, len: c.n_vocab };
    let out = CpuOp::MatVec {
        dst: CpuBuf::Logits,
        src: CpuBuf::X,
        matrix: CpuMatrix::Quant { tensor: w.output },
    };
    lemma_host_one(embed);
    lemma_host_scratch(c, pos, scratch.len() as int);
    assert(scratch.take(scratch.len() as int) =~= scratch);
    lemma_host_rest(seq![embed], scratch);
    lemma_host_layers(w, c, pos, c.n_layers as nat);
    lemma_host_sum(seq![embed] + scratch, layers);
    assert(host_matrices(seq![embed] + scratch + layers) =~= layers_matrices(
        w,
        c,
        c.n_layers as nat,
    ));
    lemma_host_one(norm);
    lemma_host_idle(seq![norm], zeros);
    lemma_host_step(seq![norm] + seq![zeros], out);
    assert(host_matrices(super::cpu::logits_ops(w, c)) =~= seq![
        CpuMatrix::Quant { tensor: w.output },
    ]);
    lemma_host_sum(seq![embed] + scratch + layers, super::cpu::logits_ops(w, c));
}

pub(crate) proof fn lemma_sum(a: Seq<GpuCmd>, b: Seq<GpuCmd>, u: Seq<Upload>, cols: usize)
    ensures
        device_matrices(a + b, u, cols) == device_matrices(a, u, cols) + device_matrices(
            b,
            u,
            cols,
        ),
    decreases b.len(),
{
    if b.len() == 0 {
        assert(a + b =~= a);
        assert(device_matrices(a, u, cols) + device_matrices(b, u, cols) =~= device_matrices(
            a,
            u,
            cols,
        ));
    } else {
        assert((a + b).drop_last() =~= a + b.drop_last());
        lemma_sum(a, b.drop_last(), u, cols);
        assert(device_matrices(a + b, u, cols) =~= device_matrices(a, u, cols)
            + device_matrices(b, u, cols));
    }
}

pub(crate) proof fn lemma_one(cmd: GpuCmd, u: Seq<Upload>, cols: usize)
    ensures
        device_matrices(seq![cmd], u, cols) == cmd_matrix(cmd, u, cols),
{
    let s = seq![cmd];
    assert(s.drop_last() =~= Seq::empty());
    assert(device_matrices(s.drop_last(), u, cols) =~= Seq::empty());
    assert(device_matrices(s, u, cols) =~= cmd_matrix(cmd, u, cols));
}

/// Commands that multiply by nothing leave the matrices as they are.
pub(crate) proof fn lemma_rest(a: Seq<GpuCmd>, b: Seq<GpuCmd>, u: Seq<Upload>, cols: usize)
    requires
        device_matrices(b, u, cols) == Seq::<CpuMatrix>::empty(),
    ensures
        device_matrices(a + b, u, cols) == device_matrices(a, u, cols),
{
    lemma_sum(a, b, u, cols);
    assert(device_matrices(a, u, cols) + device_matrices(b, u, cols) =~= device_matrices(
        a,
        u,
        cols,
    ));
}

pub(crate) proof fn lemma_idle(cmd: GpuCmd, u: Seq<Upload>, cols: usize)
    requires
        !(cmd is Gemv),
        !(cmd is Gemm),
    ensures
        device_matrices(seq![cmd], u, cols) == Seq::<CpuMatrix>::empty(),
        device_matrices(super::record::fenced(cmd), u, cols) == Seq::<CpuMatrix>::empty(),
{
    lemma_one(cmd, u, cols);
    lemma_one(GpuCmd::Barrier, u, cols);
    lemma_rest(seq![cmd], seq![GpuCmd::Barrier], u, cols);
}

pub(crate) proof fn lemma_gemv(
    weight: Option<GpuTensor>,
    src: ActBuf,
    dst: ActBuf,
    u: Seq<Upload>,
    cols: usize,
)
    requires
        weight is Some,
    ensures
        device_matrices(super::record::gemv_cmd(weight, src, dst), u, cols) == seq![
            uploaded(u[(weight->0).id as int], cols),
        ],
{
    lemma_one(GpuCmd::Gemv { weight: weight->0, src, dst }, u, cols);
}

proof fn lemma_bias(bias: Option<ActBuf>, dst: ActBuf, n: u32, u: Seq<Upload>, cols: usize)
    ensures
        device_matrices(super::record::bias_cmd(bias, dst, n), u, cols) == Seq::<
            CpuMatrix,
        >::empty(),
{
    if let Some(b) = bias {
        lemma_idle(GpuCmd::Add { dst, src: b, n }, u, cols);
    }
}

proof fn lemma_stamp(l: int, u: Seq<Upload>, cols: usize)
    ensures
        device_matrices(super::llama::stamp(l), u, cols) == Seq::<CpuMatrix>::empty(),
{
    if l == 0 {
        lemma_idle(GpuCmd::Timestamp, u, cols);
    }
}

proof fn lemma_layer_end(c: ModelConfig, l: int, u: Seq<Upload>, cols: usize)
    ensures
        device_matrices(super::llama::layer_end(c, l), u, cols) == Seq::<CpuMatrix>::empty(),
{
    if l < c.n_layers - 1 {
        lemma_idle(GpuCmd::Barrier, u, cols);
    }
}

pub(crate) proof fn lemma_qkv(gw: GpuWeights, ga: GpuActs, l: int, u: Seq<Upload>, cols: usize)
    requires
        gw.layer_resident(l),
    ensures
        device_matrices(super::record::qkv_stretch(gw, ga, l), u, cols) == seq![
            uploaded(u[(gw.attn_q@[l]->0).id as int], cols),
        ] + seq![uploaded(u[(gw.attn_k@[l]->0).id as int], cols)] + seq![
            uploaded(u[(gw.attn_v@[l]->0).id as int], cols),
        ],
{
    let q = super::record::gemv_cmd(gw.attn_q@[l], ga.xn, ga.q);
    let k = super::record::gemv_cmd(gw.attn_k@[l], ga.xn, ga.k);
    let v = super::record::gemv_cmd(gw.attn_v@[l], ga.xn, ga.v);
    lemma_gemv(gw.attn_q@[l], ga.xn, ga.q, u, cols);
    lemma_gemv(gw.attn_k@[l], ga.xn, ga.k, u, cols);
    lemma_gemv(gw.attn_v@[l], ga.xn, ga.v, u, cols);
    lemma_sum(q, k, u, cols);
    lemma_sum(q + k, v, u, cols);
    lemma_idle(GpuCmd::Barrier, u, cols);
    lemma_rest(q + k + v, super::record::barrier(), u, cols);
}

pub(crate) proof fn lemma_biases(c: ModelConfig, ga: GpuActs, l: int, u: Seq<Upload>, cols: usize)
    ensures
        device_matrices(super::record::bias_stretch(c, ga, l), u, cols) == Seq::<
            CpuMatrix,
        >::empty(),
{
    let q = super::record::bias_cmd(ga.q_bias@[l], ga.q, c.q_width() as u32);
    let k = super::record::bias_cmd(ga.k_bias@[l], ga.k, c.kv_width() as u32);
    let v = super::record::bias_cmd(ga.v_bias@[l], ga.v, c.kv_width() as u32);
    let b = super::record::bias_barrier(ga, l);
    lemma_bias(ga.q_bias@[l], ga.q, c.q_width() as u32, u, cols);
    lemma_bias(ga.k_bias@[l], ga.k, c.kv_width() as u32, u, cols);
    lemma_bias(ga.v_bias@[l], ga.v, c.kv_width() as u32, u, cols);
    lemma_idle(GpuCmd::Barrier, u, cols);
    lemma_rest(q, k, u, cols);
    lemma_rest(q + k, v, u, cols);
    lemma_rest(q + k + v, b, u, cols);
}

pub(crate) proof fn lemma_attend(
    c: ModelConfig,
    ga: GpuActs,
    l: int,
    pos: int,
    u: Seq<Upload>,
    cols: usize,
)
    ensures
        device_matrices(super::record::attend_stretch(c, ga, l, pos), u, cols) == Seq::<
            CpuMatrix,
        >::empty(),
{
    let rope = GpuCmd::Rope {
        q: ga.q,
        k: ga.k,
        n_heads: c.n_heads as u32,
        n_kv_heads: c.n_kv_heads as u32,
        head_dim: c.head_dim as u32,
        pos: pos as u32,
    };
    let write = GpuCmd::KvWrite {
        k: ga.k,
        v: ga.v,
        k_cache: ga.k_cache@[l],
        v_cache: ga.v_cache@[l],
        pos: pos as u32,
        n_kv_heads: c.n_kv_heads as u32,
        head_dim: c.head_dim as u32,
    };
    let attention = GpuCmd::Attention {
        q: ga.q,
        k_cache: ga.k_cache@[l],
        v_cache: ga.v_cache@[l],
        dst: ga.attn_out,
        scores: ga.scores,
        n_heads: c.n_heads as u32,
        n_kv_heads: c.n_kv_heads as u32,
        head_dim: c.head_dim as u32,
        seq_len: (pos + 1) as u32,
        ctx_len: ga.ctx_len as u32,
    };
    let a = super::record::fenced(rope);
    let b = super::record::fenced(write);
    lemma_idle(rope, u, cols);
    lemma_idle(write, u, cols);
    lemma_idle(attention, u, cols);
    lemma_rest(a, b, u, cols);
    lemma_rest(a + b, super::record::fenced(attention), u, cols);
}

pub(crate) proof fn lemma_project(
    c: ModelConfig,
    gw: GpuWeights,
    ga: GpuActs,
    l: int,
    u: Seq<Upload>,
    cols: usize,
)
    requires
        gw.layer_resident(l),
    ensures
        device_matrices(super::record::project_stretch(c, gw, ga, l), u, cols) == seq![
            uploaded(u[(gw.attn_out@[l]->0).id as int], cols),
        ] + seq![uploaded(u[(gw.ffn_gate@[l]->0).id as int], cols)] + seq![
            uploaded(u[(gw.ffn_up@[l]->0).id as int], cols),
        ],
{
    let add = GpuCmd::Add { dst: ga.x, src: ga.proj, n: c.n_embd as u32 };
    let norm = GpuCmd::RmsNorm {
        src: ga.x,
        weight: ga.ffn_norms@[l],
        dst: ga.xn,
        n: c.n_embd as u32,
    };
    let s1 = super::record::gemv_cmd(gw.attn_out@[l], ga.attn_out, ga.proj);
    let s2 = s1 + super::record::barrier();
    let s3 = s2 + super::record::fenced(add);
    let s4 = s3 + super::record::fenced(norm);
    let gate = super::record::gemv_cmd(gw.ffn_gate@[l], ga.xn, ga.gate);
    let up = super::record::gemv_cmd(gw.ffn_up@[l], ga.xn, ga.up);
    lemma_gemv(gw.attn_out@[l], ga.attn_out, ga.proj, u, cols);
    lemma_idle(GpuCmd::Barrier, u, cols);
    lemma_rest(s1, super::record::barrier(), u, cols);
    lemma_idle(add, u, cols);
    lemma_rest(s2, super::record::fenced(add), u, cols);
    lemma_idle(norm, u, cols);
    lemma_rest(s3, super::record::fenced(norm), u, cols);
    lemma_gemv(gw.ffn_gate@[l], ga.xn, ga.gate, u, cols);
    lemma_gemv(gw.ffn_up@[l], ga.xn, ga.up, u, cols);
    lemma_sum(s4, gate, u, cols);
    lemma_sum(s4 + gate, up, u, cols);
    lemma_rest(s4 + gate + up, super::record::barrier(), u, cols);
}

pub(crate) proof fn lemma_feed(
    c: ModelConfig,
    gw: GpuWeights,
    ga: GpuActs,
    l: int,
    u: Seq<Upload>,
    cols: usize,
)
    requires
        gw.layer_resident(l),
    ensures
        device_matrices(super::record::feed_stretch(c, gw, ga, l), u, cols) == seq![
            uploaded(u[(gw.ffn_down@[l]->0).id as int], cols),
        ],
{
    let swiglu = GpuCmd::SwiGlu { gate: ga.gate, up: ga.up, n: c.n_ff as u32 };
    let s1 = super::record::fenced(swiglu);
    let down = super::record::gemv_cmd(gw.ffn_down@[l], ga.gate, ga.ff);
    lemma_idle(swiglu, u, cols);
    lemma_gemv(gw.ffn_down@[l], ga.gate, ga.ff, u, cols);
    lemma_sum(s1, down, u, cols);
    assert(device_matrices(s1 + down, u, cols) =~= device_matrices(down, u, cols));
    lemma_idle(GpuCmd::Barrier, u, cols);
    lemma_rest(s1 + down, super::record::barrier(), u, cols);
}

pub(crate) proof fn lemma_regroup(
    a: Seq<CpuMatrix>,
    o: CpuMatrix,
    g: CpuMatrix,
    p: CpuMatrix,
    d: CpuMatrix,
)
    ensures
        (a + (seq![o] + seq![g] + seq![p])) + seq![d] == a + seq![o] + (seq![g] + seq![p] + seq![
            d,
        ]),
{
    assert((a + (seq![o] + seq![g] + seq![p])) + seq![d] =~= a + seq![o] + (seq![g] + seq![p]
        + seq![d]));
}

/// The model is whole on the device: the uploads of all its weights are there.
pub open spec fn whole_on_device(model: LlamaModel, resident: Seq<bool>) -> bool {
    let n = model.config.n_layers;
    &&& model.weights.covers(n as nat)
    &&& model.gpu_w matches Some(gw) && gw.is_placed(resident, n as nat)
    &&& model.gpu_acts is Some
    &&& resident.len() == 1 + 7 * n <= usize::MAX
    &&& forall|i: int| 0 <= i < resident.len() ==> #[trigger] resident[i]
}

pub(crate) proof fn lemma_placed_resident(model: LlamaModel, resident: Seq<bool>, l: int)
    requires
        whole_on_device(model, resident),
        0 <= l < model.config.n_layers,
    ensures
        (model.gpu_w->0).layer_resident(l),
        (model.gpu_w->0).output is Some,
{
    let n = model.config.n_layers as int;
    assert(resident[0]);
    assert(resident[1 + l]);
    assert(resident[1 + n + l]);
    assert(resident[1 + 2 * n + l]);
    assert(resident[1 + 3 * n + l]);
    assert(resident[1 + 4 * n + l]);
    assert(resident[1 + 5 * n + l]);
    assert(resident[1 + 6 * n + l]);
}

proof fn lemma_timed_layer(model: LlamaModel, resident: Seq<bool>, l: int, pos: int)
    requires
        whole_on_device(model, resident),
        0 <= l < model.config.n_layers,
    ensures
        device_matrices(
            super::llama::timed_layer_cmds(
                model.config,
                model.gpu_w->0,
                model.gpu_acts->0,
                l,
                pos,
            ),
            super::uploads::uploads_of(model.weights, model.config),
            model.config.n_embd,
        ) == layer_matrices(model.weights, model.config, l),
{
    let c = model.config;
    let w = model.weights;
    let gw = model.gpu_w->0;
    let ga = model.gpu_acts->0;
    let u = super::uploads::uploads_of(w, c);
    let cols = c.n_embd;
    let st = super::llama::stamp(l);
    let s1 = super::record::norm_stretch(c, ga, l);
    let s2 = s1 + st;
    let s3 = s2 + super::record::qkv_stretch(gw, ga, l);
    let s4 = s3 + st;
    let s5 = s4 + super::record::bias_stretch(c, ga, l);
    let s6 = s5 + super::record::attend_stretch(c, ga, l, pos);
    let s7 = s6 + st;
    let s8 = s7 + super::record::project_stretch(c, gw, ga, l);
    let s9 = s8 + st;
    let s10 = s9 + super::record::feed_stretch(c, gw, ga, l);
    let s11 = s10 + st;
    let s12 = s11 + seq![super::record::residual_cmd(c, ga)];
    lemma_placed_resident(model, resident, l);
    super::uploads::law_handles_name_their_weights(gw, resident, w, c, l);
    lemma_stamp(l, u, cols);
    lemma_idle(
        GpuCmd::RmsNorm { src: ga.x, weight: ga.attn_norms@[l], dst: ga.xn, n: c.n_embd as u32 },
        u,
        cols,
    );
    lemma_rest(s1, st, u, cols);
    lemma_qkv(gw, ga, l, u, cols);
    lemma_sum(s2, super::record::qkv_stretch(gw, ga, l), u, cols);
    assert(device_matrices(s3, u, cols) =~= qkv_matrices(w, c, l));
    lemma_rest(s3, st, u, cols);
    lemma_biases(c, ga, l, u, cols);
    lemma_rest(s4, super::record::bias_stretch(c, ga, l), u, cols);
    lemma_attend(c, ga, l, pos, u, cols);
    lemma_rest(s5, super::record::attend_stretch(c, ga, l, pos), u, cols);
    lemma_rest(s6, st, u, cols);
    lemma_project(c, gw, ga, l, u, cols);
    lemma_sum(s7, super::record::project_stretch(c, gw, ga, l), u, cols);
    lemma_rest(s8, st, u, cols);
    lemma_feed(c, gw, ga, l, u, cols);
    lemma_sum(s9, super::record::feed_stretch(c, gw, ga, l), u, cols);
    lemma_rest(s10, st, u, cols);
    lemma_idle(super::record::residual_cmd(c, ga), u, cols);
    lemma_rest(s11, seq![super::record::residual_cmd(c, ga)], u, cols);
    lemma_layer_end(c, l, u, cols);
    lemma_rest(s12, super::llama::layer_end(c, l), u, cols);
    lemma_regroup(
        qkv_matrices(w, c, l),
        CpuMatrix::Quant { tensor: w.attn_out@[l] },
        CpuMatrix::Quant { tensor: w.ffn_gate@[l] },
        CpuMatrix::Quant { tensor: w.ffn_up@[l] },
        CpuMatrix::Quant { tensor: w.ffn_down@[l] },
    );
}

proof fn lemma_timed_layers(model: LlamaModel, resident: Seq<bool>, pos: int, k: nat)
    requires
        whole_on_device(model, resident),
        k <= model.config.n_layers,
    ensures
        device_matrices(
            super::llama::timed_layers_cmds(
                model.config,
                model.gpu_w->0,
                model.gpu_acts->0,
                pos,
                k,
            ),
            super::uploads::uploads_of(model.weights, model.config),
            model.config.n_embd,
        ) == layers_matrices(model.weights, model.config, k),
    decreases k,
{
    if k > 0 {
        let c = model.config;
        let gw = model.gpu_w->0;
        let ga = model.gpu_acts->0;
        lemma_timed_layers(model, resident, pos, (k - 1) as nat);
        lemma_timed_layer(model, resident, k - 1, pos);
        lemma_sum(
            super::llama::timed_layers_cmds(c, gw, ga, pos, (k - 1) as nat),
            super::llama::timed_layer_cmds(c, gw, ga, k - 1, pos),
            super::uploads::uploads_of(model.weights, c),
            c.n_embd,
        );
    }
}

/// A model that is whole on the device is evaluated there with the matrices that the host
/// multiplies by, in the same order.
pub proof fn law_device_follows_host(
    model: LlamaModel,
    resident: Seq<bool>,
    token: usize,
    pos: int,
)
    requires
        whole_on_device(model, resident),
    ensures
        device_matrices(
            super::llama::forward_cmds(
                model.config,
                model.gpu_w->0,
                model.gpu_acts->0,
                token,
                pos,
            ),
            super::uploads::uploads_of(model.weights, model.config),
            model.config.n_embd,
        ) == host_matrices(super::cpu::forward_ops(model.weights, model.config, token, pos)),
{
    let c = model.config;
    let w = model.weights;
    let gw = model.gpu_w->0;
    let ga = model.gpu_acts->0;
    let u = super::uploads::uploads_of(w, c);
    let cols = c.n_embd;
    let upload = GpuCmd::UploadEmbedding { dst: ga.x, token };
    let submit = GpuCmd::SubmitWithReadback { logits: ga.logits, readback: ga.logits_rb };
    let read = GpuCmd::ReadLogits { logits: ga.logits, readback: ga.logits_rb };
    let norm = GpuCmd::RmsNorm { src: ga.x, weight: ga.out_norm, dst: ga.xn, n: c.n_embd as u32 };
    let open = seq![GpuCmd::Begin, upload, GpuCmd::Timestamp];
    let close = seq![GpuCmd::Timestamp, submit, GpuCmd::PrintTimestamps, read];
    let layers = super::llama::timed_layers_cmds(c, gw, ga, pos, c.n_layers as nat);
    let stamp = seq![GpuCmd::Timestamp];
    let out = super::record::gemv_cmd(gw.output, ga.xn, ga.logits);
    let out_cmds = super::record::output_cmds(c, gw, ga);
    assert(resident[0]);
    lemma_idle(GpuCmd::Begin, u, cols);
    lemma_idle(upload, u, cols);
    lemma_idle(GpuCmd::Timestamp, u, cols);
    lemma_idle(submit, u, cols);
    lemma_idle(GpuCmd::PrintTimestamps, u, cols);
    lemma_idle(read, u, cols);
    lemma_idle(norm, u, cols);
    lemma_rest(seq![GpuCmd::Begin], seq![upload], u, cols);
    lemma_rest(seq![GpuCmd::Begin] + seq![upload], stamp, u, cols);
    assert(open =~= seq![GpuCmd::Begin] + seq![upload] + stamp);
    lemma_rest(stamp, seq![submit], u, cols);
    lemma_rest(stamp + seq![submit], seq![GpuCmd::PrintTimestamps], u, cols);
    lemma_rest(stamp + seq![submit] + seq![GpuCmd::PrintTimestamps], seq![read], u, cols);
    assert(close =~= stamp + seq![submit] + seq![GpuCmd::PrintTimestamps] + seq![read]);
    lemma_timed_layers(model, resident, pos, c.n_layers as nat);
    lemma_sum(open, layers, u, cols);
    assert(device_matrices(open + layers, u, cols) =~= layers_matrices(w, c, c.n_layers as nat));
    lemma_rest(open + layers, stamp, u, cols);
    lemma_gemv(gw.output, ga.xn, ga.logits, u, cols);
    lemma_sum(super::record::fenced(norm), out, u, cols);
    assert(device_matrices(out_cmds, u, cols) =~= seq![CpuMatrix::Quant { tensor: w.output }]);
    lemma_sum(open + layers + stamp, out_cmds, u, cols);
    lemma_rest(open + layers + stamp + out_cmds, close, u, cols);
    law_host_uses_every_matrix(w, c, token, pos);
}

} // verus!
