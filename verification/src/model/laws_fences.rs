//! Kernels that touch the same buffer are kept apart by a barrier.
//!
//! A device may run kernels side by side. Where one writes what another reads or writes, a
//! barrier has to stand between them. Copies from the host and copies back wait by themselves.
use vstd::prelude::*;

use super::config::ModelConfig;
use super::gpu::{ActBuf, CopySource, GpuActs, GpuCmd};
use super::llama::LlamaModel;
use super::weights::Weights;

verus! {

/// The kernel reads the buffer.
pub open spec fn reads(cmd: GpuCmd, b: ActBuf) -> bool {
    match cmd {
        GpuCmd::RmsNorm { src, weight, .. } => b == src || b == weight,
        GpuCmd::Gemv { src, .. } => b == src,
        GpuCmd::Add { dst, src, .. } => b == dst || b == src,
        GpuCmd::Rope { q, k, .. } => b == q || b == k,
        GpuCmd::KvWrite { k, v, .. } => b == k || b == v,
        GpuCmd::Attention { q, k_cache, v_cache, .. } => b == q || b == k_cache || b == v_cache,
        GpuCmd::SwiGlu { gate, up, .. } => b == gate || b == up,
        GpuCmd::BatchRmsNorm { src, weight, .. } => b == src || b == weight,
        GpuCmd::Gemm { src, .. } => b == src,
        GpuCmd::BatchBiasAdd { dst, bias, .. } => b == dst || b == bias,
        GpuCmd::BatchRope { q, k, .. } => b == q || b == k,
        GpuCmd::BatchKvWrite { k, v, .. } => b == k || b == v,
        GpuCmd::BatchAttnItem { q, k_cache, v_cache, .. } => b == q || b == k_cache || b
            == v_cache,
        GpuCmd::BatchAdd { dst, src, .. } => b == dst || b == src,
        GpuCmd::BatchSwiGlu { gate, up, .. } => b == gate || b == up,
        GpuCmd::CopyToAct { src: CopySource::Act(src), .. } => b == src,
        _ => false,
    }
}

/// The kernel writes the buffer.
pub open spec fn writes(cmd: GpuCmd, b: ActBuf) -> bool {
    match cmd {
        GpuCmd::RmsNorm { dst, .. } => b == dst,
        GpuCmd::Gemv { dst, .. } => b == dst,
        GpuCmd::Add { dst, .. } => b == dst,
        GpuCmd::Rope { q, k, .. } => b == q || b == k,
        GpuCmd::KvWrite { k_cache, v_cache, .. } => b == k_cache || b == v_cache,
        GpuCmd::Attention { dst, scores, .. } => b == dst || b == scores,
        GpuCmd::SwiGlu { gate, .. } => b == gate,
        GpuCmd::BatchRmsNorm { dst, .. } => b == dst,
        GpuCmd::Gemm { dst, .. } => b == dst,
        GpuCmd::BatchBiasAdd { dst, .. } => b == dst,
        GpuCmd::BatchRope { q, k, .. } => b == q || b == k,
        GpuCmd::BatchKvWrite { k_cache, v_cache, .. } => b == k_cache || b == v_cache,
        GpuCmd::BatchAttnItem { dst, scores, .. } => b == dst || b == scores,
        GpuCmd::BatchAdd { dst, .. } => b == dst,
        GpuCmd::BatchSwiGlu { gate, .. } => b == gate,
        GpuCmd::CopyToAct { dst, src: CopySource::Act(_), .. } => b == dst,
        _ => false,
    }
}

/// One of the two writes a buffer that the other reads or writes.
pub open spec fn clash(x: GpuCmd, y: GpuCmd) -> bool {
    exists|b: ActBuf|
        #![trigger writes(x, b)]
        #![trigger writes(y, b)]
        writes(x, b) && (reads(y, b) || writes(y, b)) || reads(x, b) && writes(y, b)
}

/// The kernel reads or writes some buffer.
pub open spec fn touches(cmd: GpuCmd) -> bool {
    exists|b: ActBuf| #[trigger] reads(cmd, b) || writes(cmd, b)
}

/// A barrier stands between the commands with index `i` and `j`.
pub open spec fn fence_between(cmds: Seq<GpuCmd>, i: int, j: int) -> bool {
    exists|k: int| i < k < j && #[trigger] cmds[k] == GpuCmd::Barrier
}

/// Between any two kernels that touch the same buffer, where one of them writes it, stands a
/// barrier.
pub open spec fn kept_apart(cmds: Seq<GpuCmd>) -> bool {
    forall|i: int, j: int|
        #![trigger cmds[i], cmds[j]]
        0 <= i < j < cmds.len() && clash(cmds[i], cmds[j]) ==> fence_between(cmds, i, j)
}

/// Behind every kernel stands a barrier.
pub open spec fn closed_off(cmds: Seq<GpuCmd>) -> bool {
    forall|i: int|
        0 <= i < cmds.len() && touches(#[trigger] cmds[i]) ==> fence_between(
            cmds,
            i,
            cmds.len() as int,
        )
}

proof fn lemma_touches(x: GpuCmd, y: GpuCmd)
    requires
        clash(x, y),
    ensures
        touches(x),
{
    let b = choose|b: ActBuf|
        #![trigger writes(x, b)]
        #![trigger writes(y, b)]
        writes(x, b) && (reads(y, b) || writes(y, b)) || reads(x, b) && writes(y, b);
    assert(reads(x, b) || writes(x, b));
}

proof fn lemma_shift(x: Seq<GpuCmd>, y: Seq<GpuCmd>, i: int, j: int)
    requires
        0 <= i < j <= y.len(),
        fence_between(y, i, j),
    ensures
        fence_between(x + y, x.len() + i, x.len() + j),
{
    let k = choose|k: int| i < k < j && #[trigger] y[k] == GpuCmd::Barrier;
    assert((x + y)[x.len() + k] == y[k]);
}

proof fn lemma_keep(x: Seq<GpuCmd>, y: Seq<GpuCmd>, i: int, j: int, m: int)
    requires
        0 <= i < j <= x.len(),
        fence_between(x, i, j),
        j <= m,
    ensures
        fence_between(x + y, i, m),
{
    let k = choose|k: int| i < k < j && #[trigger] x[k] == GpuCmd::Barrier;
    assert((x + y)[k] == x[k]);
}

/// Commands behind others that a barrier closes off.
proof fn lemma_join(x: Seq<GpuCmd>, y: Seq<GpuCmd>)
    requires
        kept_apart(x),
        closed_off(x),
        kept_apart(y),
    ensures
        kept_apart(x + y),
        closed_off(y) ==> closed_off(x + y),
{
    let z = x + y;
    let n = x.len() as int;
    assert forall|i: int, j: int|
        #![trigger z[i], z[j]]
        0 <= i < j < z.len() && clash(z[i], z[j]) implies fence_between(z, i, j) by {
        if j < n {
            assert(z[i] == x[i] && z[j] == x[j]);
            lemma_keep(x, y, i, j, j);
        } else if i >= n {
            assert(z[i] == y[i - n] && z[j] == y[j - n]);
            lemma_shift(x, y, i - n, j - n);
        } else {
            assert(z[i] == x[i]);
            lemma_touches(z[i], z[j]);
            lemma_keep(x, y, i, n, j);
        }
    }
    if closed_off(y) {
        assert forall|i: int| 0 <= i < z.len() && touches(#[trigger] z[i]) implies fence_between(
            z,
            i,
            z.len() as int,
        ) by {
            if i < n {
                assert(z[i] == x[i]);
                lemma_keep(x, y, i, n, z.len() as int);
            } else {
                assert(z[i] == y[i - n]);
                lemma_shift(x, y, i - n, y.len() as int);
            }
        }
    }
}

/// One kernel and a barrier.
proof fn lemma_fenced(cmd: GpuCmd)
    ensures
        kept_apart(super::record::fenced(cmd)),
        closed_off(super::record::fenced(cmd)),
        kept_apart(seq![cmd]),
{
    let z = super::record::fenced(cmd);
    assert(z[1] == GpuCmd::Barrier);
}

/// Commands of which no two clash, and a barrier.
proof fn lemma_side_by_side(x: Seq<GpuCmd>)
    requires
        forall|i: int, j: int|
            #![trigger x[i], x[j]]
            0 <= i < j < x.len() ==> !clash(x[i], x[j]),
    ensures
        kept_apart(x),
        kept_apart(x + super::record::barrier()),
        closed_off(x + super::record::barrier()),
{
    let z = x + super::record::barrier();
    let n = x.len() as int;
    assert(z[n] == GpuCmd::Barrier);
    assert forall|i: int, j: int|
        #![trigger z[i], z[j]]
        0 <= i < j < z.len() && clash(z[i], z[j]) implies fence_between(z, i, j) by {
        if j < n {
            assert(z[i] == x[i] && z[j] == x[j]);
        }
    }
    assert forall|i: int| 0 <= i < z.len() && touches(#[trigger] z[i]) implies fence_between(
        z,
        i,
        z.len() as int,
    ) by {
        assert(i < n);
    }
}

/// Commands that touch nothing.
proof fn lemma_quiet(x: Seq<GpuCmd>)
    requires
        forall|i: int| 0 <= i < x.len() ==> !touches(#[trigger] x[i]),
    ensures
        kept_apart(x),
        closed_off(x),
{
    assert forall|i: int, j: int|
        #![trigger x[i], x[j]]
        0 <= i < j < x.len() implies !clash(x[i], x[j]) by {
        if clash(x[i], x[j]) {
            lemma_touches(x[i], x[j]);
        }
    }
}

/// The numbers of the buffers.
proof fn lemma_ids(ga: GpuActs, w: Weights, c: ModelConfig, ctx_len: usize)
    requires
        ga.is_allocated(w, c, ctx_len),
        super::acts::all_rooms(w, c, ctx_len).len() <= usize::MAX,
    ensures
        ({
            let at = super::acts::model_rooms(w, c, ctx_len).len() as int;
            &&& ga.x.id == at
            &&& ga.xn.id == at + 1
            &&& ga.q.id == at + 2
            &&& ga.k.id == at + 3
            &&& ga.v.id == at + 4
            &&& ga.attn_out.id == at + 5
            &&& ga.proj.id == at + 6
            &&& ga.gate.id == at + 7
            &&& ga.up.id == at + 8
            &&& ga.ff.id == at + 9
            &&& ga.logits.id == at + 10
            &&& ga.x_batch.id == at + 12
            &&& ga.xn_batch.id == at + 13
            &&& ga.q_batch.id == at + 14
            &&& ga.k_batch.id == at + 15
            &&& ga.v_batch.id == at + 16
            &&& ga.ao_batch.id == at + 17
            &&& ga.proj_batch.id == at + 18
            &&& ga.gate_batch.id == at + 19
            &&& ga.up_batch.id == at + 20
            &&& ga.ff_batch.id == at + 21
            &&& forall|l: int|
                0 <= l < c.n_layers ==> {
                    &&& #[trigger] ga.q_bias@[l] matches Some(b) ==> b.id < at
                    &&& ga.k_bias@[l] matches Some(b) ==> b.id < at
                    &&& ga.v_bias@[l] matches Some(b) ==> b.id < at
                }
        }),
{
    let n = c.n_layers as nat;
    super::laws_acts::lemma_cache_rooms(c, ctx_len, n);
    super::acts::lemma_norm_rooms_len(w, c, n);
    let at = super::acts::model_rooms(w, c, ctx_len).len() as int;
    assert(at + 22 == super::acts::all_rooms(w, c, ctx_len).len());
    assert forall|l: int| 0 <= l < c.n_layers implies {
        &&& #[trigger] ga.q_bias@[l] matches Some(b) ==> b.id < at
        &&& ga.k_bias@[l] matches Some(b) ==> b.id < at
        &&& ga.v_bias@[l] matches Some(b) ==> b.id < at
    } by {
        super::laws_acts::lemma_bias_rooms(w, n, l);
        assert(ga.layer_allocated(w, c, l));
    }
}

/// The model is on a device, and its buffers are allocated.
pub open spec fn is_placed(model: LlamaModel, ctx_len: usize) -> bool {
    &&& model.on_gpu()
    &&& (model.gpu_acts->0).is_allocated(model.weights, model.config, ctx_len)
    &&& super::acts::all_rooms(model.weights, model.config, ctx_len).len() <= usize::MAX
}

proof fn lemma_projections(model: LlamaModel, ctx_len: usize, l: int)
    requires
        is_placed(model, ctx_len),
        0 <= l < model.config.n_layers,
    ensures
        kept_apart(super::record::qkv_stretch(model.gpu_w->0, model.gpu_acts->0, l)),
        closed_off(super::record::qkv_stretch(model.gpu_w->0, model.gpu_acts->0, l)),
{
    let (gw, ga) = (model.gpu_w->0, model.gpu_acts->0);
    lemma_ids(ga, model.weights, model.config, ctx_len);
    let x = super::record::gemv_cmd(gw.attn_q@[l], ga.xn, ga.q) + super::record::gemv_cmd(
        gw.attn_k@[l],
        ga.xn,
        ga.k,
    ) + super::record::gemv_cmd(gw.attn_v@[l], ga.xn, ga.v);
    assert forall|i: int, j: int|
        #![trigger x[i], x[j]]
        0 <= i < j < x.len() implies !clash(x[i], x[j]) by {
        assert(x[i] is Gemv && x[j] is Gemv);
        assert(x[i]->Gemv_src == ga.xn && x[j]->Gemv_src == ga.xn);
        assert(x[i]->Gemv_dst != x[j]->Gemv_dst);
    }
    lemma_side_by_side(x);
}

proof fn lemma_biases(model: LlamaModel, ctx_len: usize, l: int)
    requires
        is_placed(model, ctx_len),
        0 <= l < model.config.n_layers,
    ensures
        kept_apart(super::record::bias_stretch(model.config, model.gpu_acts->0, l)),
        closed_off(super::record::bias_stretch(model.config, model.gpu_acts->0, l)),
{
    let (c, ga) = (model.config, model.gpu_acts->0);
    lemma_ids(ga, model.weights, c, ctx_len);
    assert(ga.q_bias@[l] matches Some(b) ==> b.id < ga.x.id);
    let x = super::record::bias_cmd(ga.q_bias@[l], ga.q, c.q_width() as u32)
        + super::record::bias_cmd(ga.k_bias@[l], ga.k, c.kv_width() as u32)
        + super::record::bias_cmd(ga.v_bias@[l], ga.v, c.kv_width() as u32);
    assert forall|i: int, j: int|
        #![trigger x[i], x[j]]
        0 <= i < j < x.len() implies !clash(x[i], x[j]) by {
        assert(x[i] is Add && x[j] is Add);
        assert(x[i]->Add_src.id < ga.x.id && x[j]->Add_src.id < ga.x.id);
        assert(x[i]->Add_dst.id > ga.x.id && x[j]->Add_dst.id > ga.x.id);
        assert(x[i]->Add_dst != x[j]->Add_dst);
    }
    lemma_side_by_side(x);
    if x.len() == 0 {
        assert(super::record::bias_stretch(c, ga, l) =~= x);
        lemma_quiet(x);
    } else {
        assert(super::record::bias_stretch(c, ga, l) =~= x + super::record::barrier());
    }
}

proof fn lemma_blocks(model: LlamaModel, ctx_len: usize, l: int, pos: int)
    requires
        is_placed(model, ctx_len),
        0 <= l < model.config.n_layers,
    ensures
        ({
            let (c, gw, ga) = (model.config, model.gpu_w->0, model.gpu_acts->0);
            &&& kept_apart(super::record::attend_stretch(c, ga, l, pos))
            &&& closed_off(super::record::attend_stretch(c, ga, l, pos))
            &&& kept_apart(super::record::project_stretch(c, gw, ga, l))
            &&& closed_off(super::record::project_stretch(c, gw, ga, l))
            &&& kept_apart(super::record::feed_stretch(c, gw, ga, l))
            &&& closed_off(super::record::feed_stretch(c, gw, ga, l))
        }),
{
    let (c, gw, ga) = (model.config, model.gpu_w->0, model.gpu_acts->0);
    lemma_ids(ga, model.weights, c, ctx_len);
    let a = super::record::attend_stretch(c, ga, l, pos);
    lemma_fenced(a[0]);
    lemma_fenced(a[2]);
    lemma_fenced(a[4]);
    lemma_join(super::record::fenced(a[0]), super::record::fenced(a[2]));
    lemma_join(
        super::record::fenced(a[0]) + super::record::fenced(a[2]),
        super::record::fenced(a[4]),
    );
    assert(a =~= super::record::fenced(a[0]) + super::record::fenced(a[2])
        + super::record::fenced(a[4]));
    let out = super::record::gemv_cmd(gw.attn_out@[l], ga.attn_out, ga.proj);
    let sum = GpuCmd::Add { dst: ga.x, src: ga.proj, n: c.n_embd as u32 };
    let norm = GpuCmd::RmsNorm {
        src: ga.x,
        weight: ga.ffn_norms@[l],
        dst: ga.xn,
        n: c.n_embd as u32,
    };
    let two = super::record::gemv_cmd(gw.ffn_gate@[l], ga.xn, ga.gate) + super::record::gemv_cmd(
        gw.ffn_up@[l],
        ga.xn,
        ga.up,
    );
    assert forall|i: int, j: int|
        #![trigger two[i], two[j]]
        0 <= i < j < two.len() implies !clash(two[i], two[j]) by {
        assert(two[i] is Gemv && two[j] is Gemv);
        assert(two[i]->Gemv_src == ga.xn && two[j]->Gemv_src == ga.xn);
        assert(two[i]->Gemv_dst != two[j]->Gemv_dst);
    }
    lemma_side_by_side(out);
    lemma_side_by_side(two);
    lemma_fenced(sum);
    lemma_fenced(norm);
    let p1 = out + super::record::barrier();
    let p2 = p1 + super::record::fenced(sum);
    let p3 = p2 + super::record::fenced(norm);
    lemma_join(p1, super::record::fenced(sum));
    lemma_join(p2, super::record::fenced(norm));
    lemma_join(p3, two + super::record::barrier());
    assert(super::record::project_stretch(c, gw, ga, l) =~= p3 + (two + super::record::barrier()));
    let gate = GpuCmd::SwiGlu { gate: ga.gate, up: ga.up, n: c.n_ff as u32 };
    let down = super::record::gemv_cmd(gw.ffn_down@[l], ga.gate, ga.ff);
    lemma_fenced(gate);
    lemma_side_by_side(down);
    lemma_join(super::record::fenced(gate), down + super::record::barrier());
    assert(super::record::feed_stretch(c, gw, ga, l) =~= super::record::fenced(gate) + (down
        + super::record::barrier()));
}

/// In the commands of a layer for one token, kernels that touch the same buffer are kept apart,
/// and the layer is closed off by a barrier.
pub proof fn law_layer_is_fenced(model: LlamaModel, ctx_len: usize, l: int, pos: int)
    requires
        is_placed(model, ctx_len),
        0 <= l < model.config.n_layers,
    ensures
        kept_apart(
            super::record::layer_cmds(
                model.config,
                model.gpu_w->0,
                model.gpu_acts->0,
                l,
                pos,
            ),
        ),
        closed_off(
            super::record::layer_cmds(
                model.config,
                model.gpu_w->0,
                model.gpu_acts->0,
                l,
                pos,
            ),
        ),
{
    let (c, gw, ga) = (model.config, model.gpu_w->0, model.gpu_acts->0);
    let n = super::record::norm_stretch(c, ga, l);
    let q = super::record::qkv_stretch(gw, ga, l);
    let b = super::record::bias_stretch(c, ga, l);
    let a = super::record::attend_stretch(c, ga, l, pos);
    let p = super::record::project_stretch(c, gw, ga, l);
    let f = super::record::feed_stretch(c, gw, ga, l);
    let r = super::record::residual_cmd(c, ga);
    lemma_fenced(n[0]);
    assert(n =~= super::record::fenced(n[0]));
    lemma_projections(model, ctx_len, l);
    lemma_biases(model, ctx_len, l);
    lemma_blocks(model, ctx_len, l, pos);
    lemma_fenced(r);
    lemma_join(n, q);
    lemma_join(n + q, b);
    lemma_join(n + q + b, a);
    lemma_join(n + q + b + a, p);
    lemma_join(n + q + b + a + p, f);
    lemma_join(n + q + b + a + p + f, super::record::fenced(r));
}

/// The same holds of a layer that takes time stamps. The last one of these is not closed off.
pub proof fn law_timed_layer_is_fenced(model: LlamaModel, ctx_len: usize, l: int, pos: int)
    requires
        is_placed(model, ctx_len),
        0 <= l < model.config.n_layers,
    ensures
        kept_apart(
            super::llama::timed_layer_cmds(
                model.config,
                model.gpu_w->0,
                model.gpu_acts->0,
                l,
                pos,
            ),
        ),
        l < model.config.n_layers - 1 ==> closed_off(
            super::llama::timed_layer_cmds(
                model.config,
                model.gpu_w->0,
                model.gpu_acts->0,
                l,
                pos,
            ),
        ),
{
    let (c, gw, ga) = (model.config, model.gpu_w->0, model.gpu_acts->0);
    let n = super::record::norm_stretch(c, ga, l);
    let q = super::record::qkv_stretch(gw, ga, l);
    let b = super::record::bias_stretch(c, ga, l);
    let a = super::record::attend_stretch(c, ga, l, pos);
    let p = super::record::project_stretch(c, gw, ga, l);
    let f = super::record::feed_stretch(c, gw, ga, l);
    let r = super::record::residual_cmd(c, ga);
    let t = super::llama::stamp(l);
    lemma_fenced(n[0]);
    assert(n =~= super::record::fenced(n[0]));
    lemma_projections(model, ctx_len, l);
    lemma_biases(model, ctx_len, l);
    lemma_blocks(model, ctx_len, l, pos);
    lemma_fenced(r);
    lemma_quiet(t);
    lemma_join(n, t);
    lemma_join(n + t, q);
    lemma_join(n + t + q, t);
    lemma_join(n + t + q + t, b);
    lemma_join(n + t + q + t + b, a);
    lemma_join(n + t + q + t + b + a, t);
    lemma_join(n + t + q + t + b + a + t, p);
    lemma_join(n + t + q + t + b + a + t + p, t);
    lemma_join(n + t + q + t + b + a + t + p + t, f);
    lemma_join(n + t + q + t + b + a + t + p + t + f, t);
    let all = n + t + q + t + b + a + t + p + t + f + t;
    let end = super::llama::layer_end(c, l);
    lemma_join(all, seq![r]);
    lemma_join(all, super::record::fenced(r));
    let cmds = super::llama::timed_layer_cmds(c, gw, ga, l, pos);
    if l < c.n_layers - 1 {
        assert(cmds =~= all + super::record::fenced(r));
    } else {
        assert(cmds =~= all + seq![r]);
    }
}

proof fn lemma_layers(model: LlamaModel, ctx_len: usize, pos: int, k: nat)
    requires
        is_placed(model, ctx_len),
        k <= model.config.n_layers,
    ensures
        ({
            let (c, gw, ga) = (model.config, model.gpu_w->0, model.gpu_acts->0);
            &&& kept_apart(super::llama::layers_cmds(c, gw, ga, pos, k))
            &&& closed_off(super::llama::layers_cmds(c, gw, ga, pos, k))
            &&& kept_apart(super::llama::timed_layers_cmds(c, gw, ga, pos, k))
            &&& k < c.n_layers ==> closed_off(
                super::llama::timed_layers_cmds(c, gw, ga, pos, k),
            )
        }),
    decreases k,
{
    let (c, gw, ga) = (model.config, model.gpu_w->0, model.gpu_acts->0);
    if k > 0 {
        let h = (k - 1) as nat;
        lemma_layers(model, ctx_len, pos, h);
        law_layer_is_fenced(model, ctx_len, k - 1, pos);
        law_timed_layer_is_fenced(model, ctx_len, k - 1, pos);
        lemma_join(
            super::llama::layers_cmds(c, gw, ga, pos, h),
            super::record::layer_cmds(c, gw, ga, k - 1, pos),
        );
        lemma_join(
            super::llama::timed_layers_cmds(c, gw, ga, pos, h),
            super::llama::timed_layer_cmds(c, gw, ga, k - 1, pos),
        );
    }
}

proof fn lemma_output(model: LlamaModel, ctx_len: usize)
    requires
        is_placed(model, ctx_len),
    ensures
        kept_apart(
            super::record::output_cmds(model.config, model.gpu_w->0, model.gpu_acts->0),
        ),
{
    let (c, gw, ga) = (model.config, model.gpu_w->0, model.gpu_acts->0);
    let out = super::record::output_cmds(c, gw, ga);
    let last = super::record::gemv_cmd(gw.output, ga.xn, ga.logits);
    lemma_fenced(out[0]);
    lemma_side_by_side(last);
    lemma_join(super::record::fenced(out[0]), last);
    assert(out =~= super::record::fenced(out[0]) + last);
}

/// In the evaluation of a token all layers together are kept apart, and so are the final norm
/// and the projection to the logits.
pub proof fn law_forward_is_fenced(model: LlamaModel, ctx_len: usize, pos: int)
    requires
        is_placed(model, ctx_len),
    ensures
        kept_apart(
            super::llama::timed_layers_cmds(
                model.config,
                model.gpu_w->0,
                model.gpu_acts->0,
                pos,
                model.config.n_layers as nat,
            ),
        ),
        kept_apart(
            super::record::output_cmds(model.config, model.gpu_w->0, model.gpu_acts->0),
        ),
{
    lemma_layers(model, ctx_len, pos, model.config.n_layers as nat);
    lemma_output(model, ctx_len);
}

proof fn lemma_tokens(model: LlamaModel, ctx_len: usize, start: int, from: int, to: int)
    requires
        is_placed(model, ctx_len),
    ensures
        kept_apart(model.tokens_cmds(start, from, to)),
        closed_off(model.tokens_cmds(start, from, to)),
    decreases to - from,
{
    let (c, gw, ga) = (model.config, model.gpu_w->0, model.gpu_acts->0);
    if from < to {
        let layers = super::llama::layers_cmds(c, gw, ga, start + to - 1, c.n_layers as nat);
        let token = model.token_cmds(start, to - 1);
        let copy = seq![token[0]];
        lemma_tokens(model, ctx_len, start, from, to - 1);
        lemma_layers(model, ctx_len, start + to - 1, c.n_layers as nat);
        assert(start + (to - 1) == start + to - 1);
        assert(token =~= copy + layers);
        lemma_quiet(copy);
        lemma_join(copy, layers);
        lemma_join(model.tokens_cmds(start, from, to - 1), token);
    }
}

/// A barrier or a submission at the end of commands changes nothing.
proof fn lemma_then_quiet(x: Seq<GpuCmd>, y: Seq<GpuCmd>)
    requires
        kept_apart(x),
        forall|i: int| 0 <= i < y.len() ==> !touches(#[trigger] y[i]),
    ensures
        kept_apart(x + y),
{
    let z = x + y;
    let n = x.len() as int;
    assert forall|i: int, j: int|
        #![trigger z[i], z[j]]
        0 <= i < j < z.len() && clash(z[i], z[j]) implies fence_between(z, i, j) by {
        lemma_both_touch(z[i], z[j]);
        if j >= n {
            assert(z[j] == y[j - n]);
        } else {
            assert(z[i] == x[i] && z[j] == x[j]);
            lemma_keep(x, y, i, j, j);
        }
    }
}

proof fn lemma_both_touch(x: GpuCmd, y: GpuCmd)
    requires
        clash(x, y),
    ensures
        touches(y),
{
    let b = choose|b: ActBuf|
        #![trigger writes(x, b)]
        #![trigger writes(y, b)]
        writes(x, b) && (reads(y, b) || writes(y, b)) || reads(x, b) && writes(y, b);
    assert(reads(y, b) || writes(y, b));
}

proof fn lemma_chunks(model: LlamaModel, ctx_len: usize, start: int, from: int, n: int, size: int)
    requires
        is_placed(model, ctx_len),
        size >= 1,
    ensures
        kept_apart(model.chunks_cmds(start, from, n, size)),
    decreases n - from,
{
    let (c, gw, ga) = (model.config, model.gpu_w->0, model.gpu_acts->0);
    if from < n {
        let to = super::prefill::chunk_end(from, size, n);
        let chunk = model.chunk_cmds(start, from, to, n);
        let begin = seq![chunk[0]];
        let tokens = model.tokens_cmds(start, from, to);
        let close = model.close_cmds(to == n);
        let rest = model.chunks_cmds(start, to, n, size);
        lemma_quiet(begin);
        lemma_tokens(model, ctx_len, start, from, to);
        lemma_join(begin, tokens);
        if to == n {
            let out = super::record::output_cmds(c, gw, ga);
            let submit = seq![
                GpuCmd::SubmitWithReadback { logits: ga.logits, readback: ga.logits_rb },
            ];
            lemma_output(model, ctx_len);
            lemma_then_quiet(out, submit);
            assert(close =~= out + submit);
            lemma_join(begin + tokens, close);
            assert(chunk + rest =~= begin + tokens + close);
        } else {
            lemma_quiet(close);
            lemma_join(begin + tokens, close);
            lemma_chunks(model, ctx_len, start, to, n, size);
            lemma_join(begin + tokens + close, rest);
        }
    }
}

/// In the evaluation of a prompt a token at a time, kernels that touch the same buffer are kept
/// apart.
pub proof fn law_prefill_is_fenced(
    model: LlamaModel,
    ctx_len: usize,
    start: int,
    n: int,
    size: int,
)
    requires
        is_placed(model, ctx_len),
        size >= 1,
    ensures
        kept_apart(model.prefill_cmds(start, n, size)),
{
    let ga = model.gpu_acts->0;
    let end = seq![
        GpuCmd::FreeStaging,
        GpuCmd::ReadLogits { logits: ga.logits, readback: ga.logits_rb },
    ];
    lemma_chunks(model, ctx_len, start, 0, n, size);
    lemma_then_quiet(model.chunks_cmds(start, 0, n, size), end);
}

proof fn lemma_batch_projections(model: LlamaModel, ctx_len: usize, l: int, b: int)
    requires
        is_placed(model, ctx_len),
        0 <= l < model.config.n_layers,
    ensures
        kept_apart(model.batch_qkv_stretch(l, b)),
        closed_off(model.batch_qkv_stretch(l, b)),
        kept_apart(model.batch_bias_stretch(l, b)),
        closed_off(model.batch_bias_stretch(l, b)),
{
    let (c, gw, ga) = (model.config, model.gpu_w->0, model.gpu_acts->0);
    let n = b as u32;
    lemma_ids(ga, model.weights, c, ctx_len);
    let x = super::record::gemm_cmd(gw.attn_q@[l], ga.xn_batch, ga.q_batch, n)
        + super::record::gemm_cmd(gw.attn_k@[l], ga.xn_batch, ga.k_batch, n)
        + super::record::gemm_cmd(gw.attn_v@[l], ga.xn_batch, ga.v_batch, n);
    assert forall|i: int, j: int|
        #![trigger x[i], x[j]]
        0 <= i < j < x.len() implies !clash(x[i], x[j]) by {
        assert(x[i] is Gemm && x[j] is Gemm);
        assert(x[i]->Gemm_src == ga.xn_batch && x[j]->Gemm_src == ga.xn_batch);
        assert(x[i]->Gemm_dst != x[j]->Gemm_dst);
    }
    lemma_side_by_side(x);
    let norm = model.batch_qkv_stretch(l, b)[0];
    lemma_fenced(norm);
    lemma_join(super::record::fenced(norm), x + super::record::barrier());
    assert(model.batch_qkv_stretch(l, b) =~= super::record::fenced(norm) + (x
        + super::record::barrier()));
    assert(ga.q_bias@[l] matches Some(a) ==> a.id < ga.x.id);
    let y = super::record::batch_bias_cmd(ga.q_bias@[l], ga.q_batch, c.q_width() as u32, n)
        + super::record::batch_bias_cmd(ga.k_bias@[l], ga.k_batch, c.kv_width() as u32, n)
        + super::record::batch_bias_cmd(ga.v_bias@[l], ga.v_batch, c.kv_width() as u32, n);
    assert forall|i: int, j: int|
        #![trigger y[i], y[j]]
        0 <= i < j < y.len() implies !clash(y[i], y[j]) by {
        assert(y[i] is BatchBiasAdd && y[j] is BatchBiasAdd);
        assert(y[i]->BatchBiasAdd_bias.id < ga.x.id && y[j]->BatchBiasAdd_bias.id < ga.x.id);
        assert(y[i]->BatchBiasAdd_dst.id > ga.x.id && y[j]->BatchBiasAdd_dst.id > ga.x.id);
        assert(y[i]->BatchBiasAdd_dst != y[j]->BatchBiasAdd_dst);
    }
    lemma_side_by_side(y);
    if y.len() == 0 {
        assert(model.batch_bias_stretch(l, b) =~= y);
        lemma_quiet(y);
    } else {
        assert(model.batch_bias_stretch(l, b) =~= y + super::record::barrier());
    }
}

/// The attention of the first `k` of `b` tokens, and a barrier behind it.
proof fn lemma_items(model: LlamaModel, l: int, pos: int, b: int, k: int)
    requires
        0 <= k <= b,
    ensures
        kept_apart(model.batch_items(l, pos, b, k) + super::record::barrier()),
        closed_off(model.batch_items(l, pos, b, k) + super::record::barrier()),
        k < b ==> kept_apart(model.batch_items(l, pos, b, k)) && closed_off(
            model.batch_items(l, pos, b, k),
        ),
    decreases k,
{
    let items = model.batch_items(l, pos, b, k);
    let wait = super::record::barrier();
    if k == 0 {
        lemma_quiet(items);
        lemma_quiet(items + wait);
    } else {
        let less = model.batch_items(l, pos, b, k - 1);
        let item = super::record::fenced(model.batch_item_cmd(l, pos, k - 1));
        lemma_items(model, l, pos, b, k - 1);
        lemma_fenced(model.batch_item_cmd(l, pos, k - 1));
        lemma_join(less, item);
        lemma_quiet(wait);
        if k < b {
            assert(items =~= less + item);
            lemma_join(items, wait);
        } else {
            assert(items + wait =~= less + item);
        }
    }
}

proof fn lemma_batch_blocks(model: LlamaModel, ctx_len: usize, l: int, pos: int, b: int)
    requires
        is_placed(model, ctx_len),
        0 <= l < model.config.n_layers,
    ensures
        kept_apart(model.batch_write_stretch(l, pos, b)),
        closed_off(model.batch_write_stretch(l, pos, b)),
        kept_apart(model.batch_out_stretch(l, b).skip(1)),
        closed_off(model.batch_out_stretch(l, b).skip(1)),
        model.batch_out_stretch(l, b) == super::record::barrier() + model.batch_out_stretch(
            l,
            b,
        ).skip(1),
        kept_apart(model.batch_feed_stretch(l, b)),
        closed_off(model.batch_feed_stretch(l, b)),
{
    let (c, gw, ga) = (model.config, model.gpu_w->0, model.gpu_acts->0);
    let n = b as u32;
    lemma_ids(ga, model.weights, c, ctx_len);
    let w = model.batch_write_stretch(l, pos, b);
    lemma_fenced(w[0]);
    lemma_fenced(w[2]);
    lemma_join(super::record::fenced(w[0]), super::record::fenced(w[2]));
    assert(w =~= super::record::fenced(w[0]) + super::record::fenced(w[2]));
    let out = super::record::gemm_cmd(gw.attn_out@[l], ga.ao_batch, ga.proj_batch, n);
    let sum = GpuCmd::BatchAdd {
        dst: ga.x_batch,
        src: ga.proj_batch,
        n: c.n_embd as u32,
        batch: n,
    };
    lemma_side_by_side(out);
    lemma_fenced(sum);
    lemma_join(out + super::record::barrier(), super::record::fenced(sum));
    let o = model.batch_out_stretch(l, b);
    assert(o.skip(1) =~= out + super::record::barrier() + super::record::fenced(sum));
    assert(o =~= super::record::barrier() + o.skip(1));
    let norm = model.batch_feed_stretch(l, b)[0];
    let two = super::record::gemm_cmd(gw.ffn_gate@[l], ga.xn_batch, ga.gate_batch, n)
        + super::record::gemm_cmd(gw.ffn_up@[l], ga.xn_batch, ga.up_batch, n);
    assert forall|i: int, j: int|
        #![trigger two[i], two[j]]
        0 <= i < j < two.len() implies !clash(two[i], two[j]) by {
        assert(two[i] is Gemm && two[j] is Gemm);
        assert(two[i]->Gemm_src == ga.xn_batch && two[j]->Gemm_src == ga.xn_batch);
        assert(two[i]->Gemm_dst != two[j]->Gemm_dst);
    }
    let gate = GpuCmd::BatchSwiGlu {
        gate: ga.gate_batch,
        up: ga.up_batch,
        n: c.n_ff as u32,
        batch: n,
    };
    let down = super::record::gemm_cmd(gw.ffn_down@[l], ga.gate_batch, ga.ff_batch, n);
    let last = GpuCmd::BatchAdd {
        dst: ga.x_batch,
        src: ga.ff_batch,
        n: c.n_embd as u32,
        batch: n,
    };
    lemma_fenced(norm);
    lemma_side_by_side(two);
    lemma_fenced(gate);
    lemma_side_by_side(down);
    lemma_fenced(last);
    let f1 = super::record::fenced(norm) + (two + super::record::barrier());
    let f2 = f1 + super::record::fenced(gate);
    let f3 = f2 + (down + super::record::barrier());
    lemma_join(super::record::fenced(norm), two + super::record::barrier());
    lemma_join(f1, super::record::fenced(gate));
    lemma_join(f2, down + super::record::barrier());
    lemma_join(f3, super::record::fenced(last));
    assert(model.batch_feed_stretch(l, b) =~= f3 + super::record::fenced(last));
}

/// In the commands of a layer for a batch, kernels that touch the same buffer are kept apart, and
/// the layer is closed off by a barrier.
pub proof fn law_batch_layer_is_fenced(
    model: LlamaModel,
    ctx_len: usize,
    l: int,
    pos: int,
    b: int,
)
    requires
        is_placed(model, ctx_len),
        0 <= l < model.config.n_layers,
        0 <= b,
    ensures
        kept_apart(model.batch_layer_cmds(l, pos, b)),
        closed_off(model.batch_layer_cmds(l, pos, b)),
{
    let q = model.batch_qkv_stretch(l, b);
    let s = model.batch_bias_stretch(l, b);
    let w = model.batch_write_stretch(l, pos, b);
    let items = model.batch_items(l, pos, b, b);
    let out = model.batch_out_stretch(l, b).skip(1);
    let feed = model.batch_feed_stretch(l, b);
    let wait = super::record::barrier();
    lemma_batch_projections(model, ctx_len, l, b);
    lemma_items(model, l, pos, b, b);
    lemma_batch_blocks(model, ctx_len, l, pos, b);
    lemma_join(q, s);
    lemma_join(q + s, w);
    lemma_join(q + s + w, items + wait);
    lemma_join(q + s + w + (items + wait), out);
    lemma_join(q + s + w + (items + wait) + out, feed);
    assert(model.batch_layer_cmds(l, pos, b) =~= q + s + w + (items + wait) + out + feed);
}

proof fn lemma_batch_layers(model: LlamaModel, ctx_len: usize, pos: int, b: int, k: nat)
    requires
        is_placed(model, ctx_len),
        k <= model.config.n_layers,
        0 <= b,
    ensures
        kept_apart(model.batch_layers_cmds(pos, b, k)),
        closed_off(model.batch_layers_cmds(pos, b, k)),
    decreases k,
{
    if k > 0 {
        lemma_batch_layers(model, ctx_len, pos, b, (k - 1) as nat);
        law_batch_layer_is_fenced(model, ctx_len, k - 1, pos, b);
        lemma_join(
            model.batch_layers_cmds(pos, b, (k - 1) as nat),
            model.batch_layer_cmds(k - 1, pos, b),
        );
    }
}

proof fn lemma_batch_close(model: LlamaModel, ctx_len: usize, b: int)
    requires
        is_placed(model, ctx_len),
    ensures
        kept_apart(model.batch_close_cmds(b, true)),
{
    let (gw, ga) = (model.gpu_w->0, model.gpu_acts->0);
    let all = model.batch_close_cmds(b, true);
    let first = super::record::fenced(all[0]);
    let norm = super::record::fenced(all[2]);
    let last = super::record::gemv_cmd(gw.output, ga.xn, ga.logits);
    let submit = seq![GpuCmd::SubmitWithReadback { logits: ga.logits, readback: ga.logits_rb }];
    lemma_fenced(all[0]);
    lemma_fenced(all[2]);
    lemma_side_by_side(last);
    lemma_join(first, norm);
    lemma_join(first + norm, last);
    lemma_then_quiet(first + norm + last, submit);
    assert(all =~= first + norm + last + submit);
}

proof fn lemma_batches(
    model: LlamaModel,
    ctx_len: usize,
    start: int,
    from: int,
    n: int,
    size: int,
)
    requires
        is_placed(model, ctx_len),
        size >= 1,
    ensures
        kept_apart(model.batches_cmds(start, from, n, size)),
    decreases n - from,
{
    if from < n {
        let to = super::prefill::chunk_end(from, size, n);
        let b = to - from;
        let open = model.batch_open_cmds(from, b);
        let layers = model.batch_layers_cmds(start + from, b, model.config.n_layers as nat);
        let close = model.batch_close_cmds(b, to == n);
        let rest = model.batches_cmds(start, to, n, size);
        lemma_quiet(open);
        lemma_batch_layers(model, ctx_len, start + from, b, model.config.n_layers as nat);
        lemma_join(open, layers);
        if to == n {
            lemma_batch_close(model, ctx_len, b);
            lemma_join(open + layers, close);
            assert(model.batches_cmds(start, from, n, size) =~= open + layers + close);
        } else {
            lemma_quiet(close);
            lemma_join(open + layers, close);
            lemma_batches(model, ctx_len, start, to, n, size);
            lemma_join(open + layers + close, rest);
        }
    }
}

/// In the evaluation of a prompt in batches, kernels that touch the same buffer are kept apart.
pub proof fn law_batches_are_fenced(
    model: LlamaModel,
    ctx_len: usize,
    start: int,
    n: int,
    size: int,
)
    requires
        is_placed(model, ctx_len),
        size >= 1,
    ensures
        kept_apart(model.prefill_gemm_cmds(start, n, size)),
{
    let ga = model.gpu_acts->0;
    let read = seq![GpuCmd::ReadLogits { logits: ga.logits, readback: ga.logits_rb }];
    lemma_batches(model, ctx_len, start, 0, n, size);
    lemma_then_quiet(model.batches_cmds(start, 0, n, size), read);
}

} // verus!
