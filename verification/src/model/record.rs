//! The commands of one transformer layer on the device.
//!
//! A layer is recorded in six stretches, so that the recording that takes time stamps and the
//! one that does not can be stated with the same words.
use vstd::prelude::*;

use super::config::ModelConfig;
use super::gpu::{ActBuf, GpuActs, GpuCmd, GpuTensor, GpuWeights};

verus! {

/// A barrier.
pub open spec fn barrier() -> Seq<GpuCmd> {
    seq![GpuCmd::Barrier]
}

/// A command and a barrier after it.
pub open spec fn fenced(cmd: GpuCmd) -> Seq<GpuCmd> {
    seq![cmd] + seq![GpuCmd::Barrier]
}

/// Matrix times vector, where the matrix is on the device.
pub open spec fn gemv_cmd(weight: Option<GpuTensor>, src: ActBuf, dst: ActBuf) -> Seq<GpuCmd> {
    match weight {
        Some(t) => seq![GpuCmd::Gemv { weight: t, src, dst }],
        None => Seq::empty(),
    }
}

/// Matrix times matrix, where the first matrix is on the device.
pub open spec fn gemm_cmd(
    weight: Option<GpuTensor>,
    src: ActBuf,
    dst: ActBuf,
    batch: u32,
) -> Seq<GpuCmd> {
    match weight {
        Some(t) => seq![GpuCmd::Gemm { weight: t, src, dst, batch }],
        None => Seq::empty(),
    }
}

/// The addition of a bias, where there is one.
pub open spec fn bias_cmd(bias: Option<ActBuf>, dst: ActBuf, n: u32) -> Seq<GpuCmd> {
    match bias {
        Some(b) => seq![GpuCmd::Add { dst, src: b, n }],
        None => Seq::empty(),
    }
}

/// The addition of a bias to each row of a batch, where there is one.
pub open spec fn batch_bias_cmd(
    bias: Option<ActBuf>,
    dst: ActBuf,
    n: u32,
    batch: u32,
) -> Seq<GpuCmd> {
    match bias {
        Some(b) => seq![GpuCmd::BatchBiasAdd { dst, bias: b, n, batch }],
        None => Seq::empty(),
    }
}

/// A barrier after the biases of layer `l`, where the layer has any.
pub open spec fn bias_barrier(ga: GpuActs, l: int) -> Seq<GpuCmd> {
    if ga.q_bias@[l] is Some || ga.k_bias@[l] is Some || ga.v_bias@[l] is Some {
        seq![GpuCmd::Barrier]
    } else {
        Seq::empty()
    }
}

/// The norm in front of the attention block.
pub open spec fn norm_stretch(c: ModelConfig, ga: GpuActs, l: int) -> Seq<GpuCmd> {
    fenced(
        GpuCmd::RmsNorm { src: ga.x, weight: ga.attn_norms@[l], dst: ga.xn, n: c.n_embd as u32 },
    )
}

/// The query, key and value projections.
pub open spec fn qkv_stretch(gw: GpuWeights, ga: GpuActs, l: int) -> Seq<GpuCmd> {
    gemv_cmd(gw.attn_q@[l], ga.xn, ga.q) + gemv_cmd(gw.attn_k@[l], ga.xn, ga.k) + gemv_cmd(
        gw.attn_v@[l],
        ga.xn,
        ga.v,
    ) + barrier()
}

/// The biases of the projections.
pub open spec fn bias_stretch(c: ModelConfig, ga: GpuActs, l: int) -> Seq<GpuCmd> {
    bias_cmd(ga.q_bias@[l], ga.q, c.q_width() as u32) + bias_cmd(
        ga.k_bias@[l],
        ga.k,
        c.kv_width() as u32,
    ) + bias_cmd(ga.v_bias@[l], ga.v, c.kv_width() as u32) + bias_barrier(ga, l)
}

/// The rotary embedding of position `pos`, the write of its key and value into the cache, and
/// the attention over positions `0..=pos`.
pub open spec fn attend_stretch(c: ModelConfig, ga: GpuActs, l: int, pos: int) -> Seq<GpuCmd> {
    fenced(
        GpuCmd::Rope {
            q: ga.q,
            k: ga.k,
            n_heads: c.n_heads as u32,
            n_kv_heads: c.n_kv_heads as u32,
            head_dim: c.head_dim as u32,
            pos: pos as u32,
        },
    ) + fenced(
        GpuCmd::KvWrite {
            k: ga.k,
            v: ga.v,
            k_cache: ga.k_cache@[l],
            v_cache: ga.v_cache@[l],
            pos: pos as u32,
            n_kv_heads: c.n_kv_heads as u32,
            head_dim: c.head_dim as u32,
        },
    ) + fenced(
        GpuCmd::Attention {
            q: ga.q,
            k_cache: ga.k_cache@[l],
            v_cache: ga.v_cache@[l],
            dst: ga.attn_out,
            scores: ga.scores,
            n_heads: c.n_heads as u32,
            n_kv_heads: c.n_kv_heads as u32,
            head_dim: c.head_dim as u32,
            seq_len: (pos + 1) as u32,
            ctx_len: ga.ctx_len as u32,
        },
    )
}

/// The output projection of the attention block, its addition to the residual, and the norm
/// and the first two projections of the feed-forward block.
pub open spec fn project_stretch(
    c: ModelConfig,
    gw: GpuWeights,
    ga: GpuActs,
    l: int,
) -> Seq<GpuCmd> {
    gemv_cmd(gw.attn_out@[l], ga.attn_out, ga.proj) + barrier() + fenced(
        GpuCmd::Add { dst: ga.x, src: ga.proj, n: c.n_embd as u32 },
    ) + fenced(
        GpuCmd::RmsNorm { src: ga.x, weight: ga.ffn_norms@[l], dst: ga.xn, n: c.n_embd as u32 },
    ) + gemv_cmd(gw.ffn_gate@[l], ga.xn, ga.gate) + gemv_cmd(gw.ffn_up@[l], ga.xn, ga.up)
        + barrier()
}

/// The gated activation and the last projection of the feed-forward block.
pub open spec fn feed_stretch(c: ModelConfig, gw: GpuWeights, ga: GpuActs, l: int) -> Seq<GpuCmd> {
    fenced(GpuCmd::SwiGlu { gate: ga.gate, up: ga.up, n: c.n_ff as u32 }) + gemv_cmd(
        gw.ffn_down@[l],
        ga.gate,
        ga.ff,
    ) + barrier()
}

/// The addition of the feed-forward block to the residual.
pub open spec fn residual_cmd(c: ModelConfig, ga: GpuActs) -> GpuCmd {
    GpuCmd::Add { dst: ga.x, src: ga.ff, n: c.n_embd as u32 }
}

/// One layer for the token at position `pos`.
pub open spec fn layer_cmds(
    c: ModelConfig,
    gw: GpuWeights,
    ga: GpuActs,
    l: int,
    pos: int,
) -> Seq<GpuCmd> {
    norm_stretch(c, ga, l) + qkv_stretch(gw, ga, l) + bias_stretch(c, ga, l) + attend_stretch(
        c,
        ga,
        l,
        pos,
    ) + project_stretch(c, gw, ga, l) + feed_stretch(c, gw, ga, l) + fenced(
        residual_cmd(c, ga),
    )
}

/// The final norm and the projection to the logits.
pub open spec fn output_cmds(c: ModelConfig, gw: GpuWeights, ga: GpuActs) -> Seq<GpuCmd> {
    fenced(
        GpuCmd::RmsNorm { src: ga.x, weight: ga.out_norm, dst: ga.xn, n: c.n_embd as u32 },
    ) + gemv_cmd(gw.output, ga.xn, ga.logits)
}

pub(crate) fn record_gemv(
    weight: Option<GpuTensor>,
    src: ActBuf,
    dst: ActBuf,
    cmds: &mut Vec<GpuCmd>,
)
    ensures
        final(cmds)@ == old(cmds)@ + gemv_cmd(weight, src, dst),
{
    if let Some(t) = weight {
        cmds.push(GpuCmd::Gemv { weight: t, src, dst });
    }
    assert(cmds@ =~= old(cmds)@ + gemv_cmd(weight, src, dst));
}

pub(crate) fn record_gemm(
    weight: Option<GpuTensor>,
    src: ActBuf,
    dst: ActBuf,
    batch: u32,
    cmds: &mut Vec<GpuCmd>,
)
    ensures
        final(cmds)@ == old(cmds)@ + gemm_cmd(weight, src, dst, batch),
{
    if let Some(t) = weight {
        cmds.push(GpuCmd::Gemm { weight: t, src, dst, batch });
    }
    assert(cmds@ =~= old(cmds)@ + gemm_cmd(weight, src, dst, batch));
}

pub(crate) fn record_bias(bias: Option<ActBuf>, dst: ActBuf, n: u32, cmds: &mut Vec<GpuCmd>)
    ensures
        final(cmds)@ == old(cmds)@ + bias_cmd(bias, dst, n),
{
    if let Some(b) = bias {
        cmds.push(GpuCmd::Add { dst, src: b, n });
    }
    assert(cmds@ =~= old(cmds)@ + bias_cmd(bias, dst, n));
}

pub(crate) fn record_batch_bias(
    bias: Option<ActBuf>,
    dst: ActBuf,
    n: u32,
    batch: u32,
    cmds: &mut Vec<GpuCmd>,
)
    ensures
        final(cmds)@ == old(cmds)@ + batch_bias_cmd(bias, dst, n, batch),
{
    if let Some(b) = bias {
        cmds.push(GpuCmd::BatchBiasAdd { dst, bias: b, n, batch });
    }
    assert(cmds@ =~= old(cmds)@ + batch_bias_cmd(bias, dst, n, batch));
}

pub(crate) fn record_bias_barrier(ga: &GpuActs, l: usize, cmds: &mut Vec<GpuCmd>)
    requires
        l < ga.q_bias@.len(),
        l < ga.k_bias@.len(),
        l < ga.v_bias@.len(),
    ensures
        final(cmds)@ == old(cmds)@ + bias_barrier(*ga, l as int),
{
    if ga.q_bias[l].is_some() || ga.k_bias[l].is_some() || ga.v_bias[l].is_some() {
        cmds.push(GpuCmd::Barrier);
    }
    assert(cmds@ =~= old(cmds)@ + bias_barrier(*ga, l as int));
}

pub(crate) fn record_norm(c: &ModelConfig, ga: &GpuActs, l: usize, cmds: &mut Vec<GpuCmd>)
    requires
        l < ga.attn_norms@.len(),
    ensures
        final(cmds)@ == old(cmds)@ + norm_stretch(*c, *ga, l as int),
{
    cmds.push(
        GpuCmd::RmsNorm { src: ga.x, weight: ga.attn_norms[l], dst: ga.xn, n: c.n_embd as u32 },
    );
    cmds.push(GpuCmd::Barrier);
    assert(cmds@ =~= old(cmds)@ + norm_stretch(*c, *ga, l as int));
}

pub(crate) fn record_qkv(gw: &GpuWeights, ga: &GpuActs, l: usize, cmds: &mut Vec<GpuCmd>)
    requires
        l < gw.attn_q@.len(),
        l < gw.attn_k@.len(),
        l < gw.attn_v@.len(),
    ensures
        final(cmds)@ == old(cmds)@ + qkv_stretch(*gw, *ga, l as int),
{
    record_gemv(gw.attn_q[l], ga.xn, ga.q, cmds);
    record_gemv(gw.attn_k[l], ga.xn, ga.k, cmds);
    record_gemv(gw.attn_v[l], ga.xn, ga.v, cmds);
    cmds.push(GpuCmd::Barrier);
    assert(cmds@ =~= old(cmds)@ + qkv_stretch(*gw, *ga, l as int));
}

pub(crate) fn record_biases(c: &ModelConfig, ga: &GpuActs, l: usize, cmds: &mut Vec<GpuCmd>)
    requires
        c.widths_fit(),
        l < ga.q_bias@.len(),
        l < ga.k_bias@.len(),
        l < ga.v_bias@.len(),
    ensures
        final(cmds)@ == old(cmds)@ + bias_stretch(*c, *ga, l as int),
{
    let kvd: usize = c.kv_dim();
    record_bias(ga.q_bias[l], ga.q, c.q_dim() as u32, cmds);
    record_bias(ga.k_bias[l], ga.k, kvd as u32, cmds);
    record_bias(ga.v_bias[l], ga.v, kvd as u32, cmds);
    record_bias_barrier(ga, l, cmds);
    assert(cmds@ =~= old(cmds)@ + bias_stretch(*c, *ga, l as int));
}

pub(crate) fn record_attend(
    c: &ModelConfig,
    ga: &GpuActs,
    l: usize,
    pos: usize,
    cmds: &mut Vec<GpuCmd>,
)
    requires
        pos < usize::MAX,
        l < ga.k_cache@.len(),
        l < ga.v_cache@.len(),
    ensures
        final(cmds)@ == old(cmds)@ + attend_stretch(*c, *ga, l as int, pos as int),
{
    cmds.push(
        GpuCmd::Rope {
            q: ga.q,
            k: ga.k,
            n_heads: c.n_heads as u32,
            n_kv_heads: c.n_kv_heads as u32,
            head_dim: c.head_dim as u32,
            pos: pos as u32,
        },
    );
    cmds.push(GpuCmd::Barrier);
    cmds.push(
        GpuCmd::KvWrite {
            k: ga.k,
            v: ga.v,
            k_cache: ga.k_cache[l],
            v_cache: ga.v_cache[l],
            pos: pos as u32,
            n_kv_heads: c.n_kv_heads as u32,
            head_dim: c.head_dim as u32,
        },
    );
    cmds.push(GpuCmd::Barrier);
    cmds.push(
        GpuCmd::Attention {
            q: ga.q,
            k_cache: ga.k_cache[l],
            v_cache: ga.v_cache[l],
            dst: ga.attn_out,
            scores: ga.scores,
            n_heads: c.n_heads as u32,
            n_kv_heads: c.n_kv_heads as u32,
            head_dim: c.head_dim as u32,
            seq_len: (pos + 1) as u32,
            ctx_len: ga.ctx_len as u32,
        },
    );
    cmds.push(GpuCmd::Barrier);
    assert(cmds@ =~= old(cmds)@ + attend_stretch(*c, *ga, l as int, pos as int));
}

pub(crate) fn record_project(
    c: &ModelConfig,
    gw: &GpuWeights,
    ga: &GpuActs,
    l: usize,
    cmds: &mut Vec<GpuCmd>,
)
    requires
        l < gw.attn_out@.len(),
        l < gw.ffn_gate@.len(),
        l < gw.ffn_up@.len(),
        l < ga.ffn_norms@.len(),
    ensures
        final(cmds)@ == old(cmds)@ + project_stretch(*c, *gw, *ga, l as int),
{
    record_gemv(gw.attn_out[l], ga.attn_out, ga.proj, cmds);
    cmds.push(GpuCmd::Barrier);
    cmds.push(GpuCmd::Add { dst: ga.x, src: ga.proj, n: c.n_embd as u32 });
    cmds.push(GpuCmd::Barrier);
    cmds.push(
        GpuCmd::RmsNorm { src: ga.x, weight: ga.ffn_norms[l], dst: ga.xn, n: c.n_embd as u32 },
    );
    cmds.push(GpuCmd::Barrier);
    record_gemv(gw.ffn_gate[l], ga.xn, ga.gate, cmds);
    record_gemv(gw.ffn_up[l], ga.xn, ga.up, cmds);
    cmds.push(GpuCmd::Barrier);
    assert(cmds@ =~= old(cmds)@ + project_stretch(*c, *gw, *ga, l as int));
}

pub(crate) fn record_feed(
    c: &ModelConfig,
    gw: &GpuWeights,
    ga: &GpuActs,
    l: usize,
    cmds: &mut Vec<GpuCmd>,
)
    requires
        l < gw.ffn_down@.len(),
    ensures
        final(cmds)@ == old(cmds)@ + feed_stretch(*c, *gw, *ga, l as int),
{
    cmds.push(GpuCmd::SwiGlu { gate: ga.gate, up: ga.up, n: c.n_ff as u32 });
    cmds.push(GpuCmd::Barrier);
    record_gemv(gw.ffn_down[l], ga.gate, ga.ff, cmds);
    cmds.push(GpuCmd::Barrier);
    assert(cmds@ =~= old(cmds)@ + feed_stretch(*c, *gw, *ga, l as int));
}

pub(crate) fn record_output(
    c: &ModelConfig,
    gw: &GpuWeights,
    ga: &GpuActs,
    cmds: &mut Vec<GpuCmd>,
)
    ensures
        final(cmds)@ == old(cmds)@ + output_cmds(*c, *gw, *ga),
{
    cmds.push(
        GpuCmd::RmsNorm { src: ga.x, weight: ga.out_norm, dst: ga.xn, n: c.n_embd as u32 },
    );
    cmds.push(GpuCmd::Barrier);
    record_gemv(gw.output, ga.xn, ga.logits, cmds);
    assert(cmds@ =~= old(cmds)@ + output_cmds(*c, *gw, *ga));
}

} // verus!
