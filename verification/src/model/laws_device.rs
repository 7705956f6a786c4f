//! A device computes the function of the model.
//!
//! The commands are carried out here on buffers that hold vectors: one, or one for each token of
//! a batch. A command gives each buffer that it writes a new vector, or new vectors for the first
//! tokens of a batch.
use vstd::prelude::*;

use super::config::ModelConfig;
use super::gpu::{ActBuf, CopySource, GpuActs, GpuCmd, GpuTensor};
use super::llama::LlamaModel;
use super::maths::{Flow, Heads, Maths};
use super::uploads::Upload;
use super::weights::Weights;

verus! {

/// What the buffers hold, with another content in one of them.
pub open spec fn put<V>(
    s: spec_fn(ActBuf) -> Seq<V>,
    buf: ActBuf,
    content: Seq<V>,
) -> spec_fn(ActBuf) -> Seq<V> {
    |b: ActBuf|
        if b == buf {
            content
        } else {
            s(b)
        }
}

/// What a device has to do with: the uploads behind its tensors, the rows that are staged, and
/// the width of a row.
#[verifier::reject_recursive_types(V)]
pub struct Bench<V> {
    pub maths: Maths<V>,
    pub uploads: Seq<Upload>,
    pub staged: Seq<usize>,
    pub n_embd: usize,
}

/// The number of the row that begins at an offset, in rows of `width`.
pub open spec fn row_at(offset: int, width: int) -> int {
    offset / width
}

/// New vectors for the first `n` tokens of a batch.
pub open spec fn rows<V>(before: Seq<V>, n: int, f: spec_fn(int) -> V) -> Seq<V> {
    Seq::new(
        if before.len() < n {
            n as nat
        } else {
            before.len()
        },
        |i: int|
            if i < n {
                f(i)
            } else {
                before[i]
            },
    )
}

/// Keys or values with those of the first `n` tokens of a batch stored, one after the other.
pub open spec fn stored_rows<V>(
    m: Maths<V>,
    cache: V,
    new: Seq<V>,
    pos: int,
    kv: int,
    hd: int,
    n: nat,
) -> V
    decreases n,
{
    if n == 0 {
        cache
    } else {
        (m.stored)(
            stored_rows(m, cache, new, pos, kv, hd, (n - 1) as nat),
            new[n - 1],
            pos + n - 1,
            kv,
            hd,
        )
    }
}

impl<V> Bench<V> {
    /// The matrix that a tensor on the device holds.
    pub open spec fn matrix(self, t: GpuTensor) -> super::cpu::CpuMatrix {
        match self.uploads[t.id as int] {
            Upload::Quant { tensor } => super::cpu::CpuMatrix::Quant { tensor },
            Upload::Floats { span, cols, .. } => super::cpu::CpuMatrix::Floats {
                span,
                cols: cols as usize,
            },
        }
    }

    /// One command is carried out.
    pub open spec fn step(self, s: spec_fn(ActBuf) -> Seq<V>, cmd: GpuCmd) -> spec_fn(
        ActBuf,
    ) -> Seq<V> {
        let m = self.maths;
        match cmd {
            GpuCmd::UploadEmbedding { dst, token } => put(s, dst, seq![(m.row)(token)]),
            GpuCmd::CopyToAct { dst, src: CopySource::Staging, offset } => {
                let from = row_at(offset as int, self.n_embd * 4);
                put(
                    s,
                    dst,
                    Seq::new(
                        (self.staged.len() - from) as nat,
                        |i: int| (m.row)(self.staged[from + i]),
                    ),
                )
            },
            GpuCmd::CopyToAct { dst, src: CopySource::Act(src), offset } => put(
                s,
                dst,
                seq![s(src)[row_at(offset as int, self.n_embd * 4)]],
            ),
            GpuCmd::RmsNorm { src, weight, dst, n } => put(
                s,
                dst,
                seq![(m.normed)(s(src)[0], s(weight)[0], n as int)],
            ),
            GpuCmd::Gemv { weight, src, dst } => put(
                s,
                dst,
                seq![(m.product)(self.matrix(weight), s(src)[0])],
            ),
            GpuCmd::Add { dst, src, n } => put(
                s,
                dst,
                seq![(m.sum)(s(dst)[0], s(src)[0], n as int)],
            ),
            GpuCmd::Rope { q, k, n_heads, n_kv_heads, head_dim, pos } => put(
                put(
                    s,
                    q,
                    seq![(m.turned)(s(q)[0], n_heads as int, head_dim as int, pos as int)],
                ),
                k,
                seq![(m.turned)(s(k)[0], n_kv_heads as int, head_dim as int, pos as int)],
            ),
            GpuCmd::KvWrite { k, v, k_cache, v_cache, pos, n_kv_heads, head_dim } => put(
                put(
                    s,
                    k_cache,
                    seq![
                        (m.stored)(
                            s(k_cache)[0],
                            s(k)[0],
                            pos as int,
                            n_kv_heads as int,
                            head_dim as int,
                        ),
                    ],
                ),
                v_cache,
                seq![
                    (m.stored)(
                        s(v_cache)[0],
                        s(v)[0],
                        pos as int,
                        n_kv_heads as int,
                        head_dim as int,
                    ),
                ],
            ),
            GpuCmd::Attention {
                q,
                k_cache,
                v_cache,
                dst,
                scores: _,
                n_heads,
                n_kv_heads,
                head_dim,
                seq_len,
                ctx_len,
            } => put(
                s,
                dst,
                seq![
                    (m.attended)(
                        s(q)[0],
                        s(k_cache)[0],
                        s(v_cache)[0],
                        Heads {
                            n_heads: n_heads as int,
                            n_kv_heads: n_kv_heads as int,
                            head_dim: head_dim as int,
                        },
                        seq_len as int,
                        ctx_len as int,
                    ),
                ],
            ),
            GpuCmd::SwiGlu { gate, up, n } => put(
                s,
                gate,
                seq![(m.gated)(s(gate)[0], s(up)[0], n as int)],
            ),
            GpuCmd::BatchRmsNorm { src, weight, dst, n, batch } => put(
                s,
                dst,
                rows(
                    s(dst),
                    batch as int,
                    |i: int| (m.normed)(s(src)[i], s(weight)[0], n as int),
                ),
            ),
            GpuCmd::Gemm { weight, src, dst, batch } => put(
                s,
                dst,
                rows(
                    s(dst),
                    batch as int,
                    |i: int| (m.product)(self.matrix(weight), s(src)[i]),
                ),
            ),
            GpuCmd::BatchBiasAdd { dst, bias, n, batch } => put(
                s,
                dst,
                rows(
                    s(dst),
                    batch as int,
                    |i: int| (m.sum)(s(dst)[i], s(bias)[0], n as int),
                ),
            ),
            GpuCmd::BatchRope { q, k, n_heads, n_kv_heads, head_dim, pos, batch } => put(
                put(
                    s,
                    q,
                    rows(
                        s(q),
                        batch as int,
                        |i: int|
                            (m.turned)(s(q)[i], n_heads as int, head_dim as int, pos + i),
                    ),
                ),
                k,
                rows(
                    s(k),
                    batch as int,
                    |i: int| (m.turned)(s(k)[i], n_kv_heads as int, head_dim as int, pos + i),
                ),
            ),
            GpuCmd::BatchKvWrite {
                k,
                v,
                k_cache,
                v_cache,
                pos,
                n_kv_heads,
                head_dim,
                batch,
            } => put(
                put(
                    s,
                    k_cache,
                    seq![
                        stored_rows(
                            m,
                            s(k_cache)[0],
                            s(k),
                            pos as int,
                            n_kv_heads as int,
                            head_dim as int,
                            batch as nat,
                        ),
                    ],
                ),
                v_cache,
                seq![
                    stored_rows(
                        m,
                        s(v_cache)[0],
                        s(v),
                        pos as int,
                        n_kv_heads as int,
                        head_dim as int,
                        batch as nat,
                    ),
                ],
            ),
            GpuCmd::BatchAttnItem {
                q,
                k_cache,
                v_cache,
                dst,
                scores: _,
                n_heads,
                n_kv_heads,
                head_dim,
                seq_len,
                ctx_len,
                q_offset,
                out_offset,
            } => {
                let from = row_at(q_offset as int, n_heads * head_dim);
                let to = row_at(out_offset as int, self.n_embd as int);
                let a = (m.attended)(
                    s(q)[from],
                    s(k_cache)[0],
                    s(v_cache)[0],
                    Heads {
                        n_heads: n_heads as int,
                        n_kv_heads: n_kv_heads as int,
                        head_dim: head_dim as int,
                    },
                    seq_len as int,
                    ctx_len as int,
                );
                put(
                    s,
                    dst,
                    rows(
                        s(dst),
                        to + 1,
                        |i: int|
                            if i == to {
                                a
                            } else {
                                s(dst)[i]
                            },
                    ),
                )
            },
            GpuCmd::BatchAdd { dst, src, n, batch } => put(
                s,
                dst,
                rows(
                    s(dst),
                    batch as int,
                    |i: int| (m.sum)(s(dst)[i], s(src)[i], n as int),
                ),
            ),
            GpuCmd::BatchSwiGlu { gate, up, n, batch } => put(
                s,
                gate,
                rows(
                    s(gate),
                    batch as int,
                    |i: int| (m.gated)(s(gate)[i], s(up)[i], n as int),
                ),
            ),
            GpuCmd::SubmitWithReadback { logits, readback } => put(s, readback, s(logits)),
            _ => s,
        }
    }

    /// All commands are carried out, one after the other.
    pub open spec fn run(self, s: spec_fn(ActBuf) -> Seq<V>, cmds: Seq<GpuCmd>) -> spec_fn(
        ActBuf,
    ) -> Seq<V>
        decreases cmds.len(),
    {
        if cmds.len() == 0 {
            s
        } else {
            self.step(self.run(s, cmds.drop_last()), cmds.last())
        }
    }
}

/// The vectors of the file are where the allocations put them.
pub open spec fn vectors_held<V>(
    m: Maths<V>,
    w: Weights,
    c: ModelConfig,
    ctx_len: usize,
    s: spec_fn(ActBuf) -> Seq<V>,
) -> bool {
    forall|i: int|
        0 <= i < super::acts::all_rooms(w, c, ctx_len).len() ==> (
        #[trigger] super::acts::all_rooms(w, c, ctx_len)[i].init matches Some(v) ==> s(
            ActBuf { id: i as usize },
        ) == seq![(m.vector)(v)])
}

/// The caches of a device, and a vector on its way.
pub open spec fn flow_on<V>(
    ga: GpuActs,
    n_layers: nat,
    s: spec_fn(ActBuf) -> Seq<V>,
    x: V,
) -> Flow<V> {
    Flow {
        x,
        k: Seq::new(n_layers, |l: int| s(ga.k_cache@[l])[0]),
        v: Seq::new(n_layers, |l: int| s(ga.v_cache@[l])[0]),
    }
}

/// The sizes that are handed to the device are no larger than it takes.
pub open spec fn dims_fit(c: ModelConfig, ctx_len: usize) -> bool {
    &&& c.n_embd <= u32::MAX
    &&& c.n_ff <= u32::MAX
    &&& c.n_heads <= u32::MAX
    &&& c.n_kv_heads <= u32::MAX
    &&& c.head_dim <= u32::MAX
    &&& c.n_heads * c.head_dim <= u32::MAX
    &&& c.n_kv_heads * c.head_dim <= u32::MAX
    &&& ctx_len <= u32::MAX
}

/// The model is on a device as it was loaded: all weights are there, all buffers are allocated,
/// and the vectors of the file are in theirs.
pub open spec fn is_ready<V>(
    m: Maths<V>,
    model: LlamaModel,
    resident: Seq<bool>,
    ctx_len: usize,
    s: spec_fn(ActBuf) -> Seq<V>,
) -> bool {
    &&& model.on_gpu()
    &&& super::laws_paths::whole_on_device(model, resident)
    &&& (model.gpu_acts->0).is_allocated(model.weights, model.config, ctx_len)
    &&& super::acts::all_rooms(model.weights, model.config, ctx_len).len() <= usize::MAX
    &&& dims_fit(model.config, ctx_len)
    &&& vectors_held(m, model.weights, model.config, ctx_len, s)
}

/// The bench of a model, with these rows staged.
pub open spec fn bench<V>(m: Maths<V>, model: LlamaModel, staged: Seq<usize>) -> Bench<V> {
    Bench {
        maths: m,
        uploads: super::uploads::uploads_of(model.weights, model.config),
        staged,
        n_embd: model.config.n_embd,
    }
}

pub(crate) proof fn lemma_run_sum<V>(
    d: Bench<V>,
    s: spec_fn(ActBuf) -> Seq<V>,
    x: Seq<GpuCmd>,
    y: Seq<GpuCmd>,
)
    ensures
        d.run(s, x + y) == d.run(d.run(s, x), y),
    decreases y.len(),
{
    if y.len() == 0 {
        assert(x + y =~= x);
    } else {
        assert((x + y).drop_last() =~= x + y.drop_last());
        lemma_run_sum(d, s, x, y.drop_last());
    }
}

pub(crate) proof fn lemma_run_one<V>(d: Bench<V>, s: spec_fn(ActBuf) -> Seq<V>, cmd: GpuCmd)
    ensures
        d.run(s, seq![cmd]) == d.step(s, cmd),
{
    assert(seq![cmd].drop_last() =~= Seq::empty());
    assert(d.run(s, seq![cmd].drop_last()) == s);
}

/// A command after others.
pub(crate) proof fn lemma_then<V>(
    d: Bench<V>,
    s: spec_fn(ActBuf) -> Seq<V>,
    x: Seq<GpuCmd>,
    cmd: GpuCmd,
)
    ensures
        d.run(s, x + seq![cmd]) == d.step(d.run(s, x), cmd),
{
    lemma_run_sum(d, s, x, seq![cmd]);
    lemma_run_one(d, d.run(s, x), cmd);
}

/// A command and a barrier after others.
pub(crate) proof fn lemma_then_fenced<V>(
    d: Bench<V>,
    s: spec_fn(ActBuf) -> Seq<V>,
    x: Seq<GpuCmd>,
    cmd: GpuCmd,
)
    ensures
        d.run(s, x + super::record::fenced(cmd)) == d.step(d.run(s, x), cmd),
        d.run(s, x + super::record::barrier()) == d.run(s, x),
        d.run(s, super::record::fenced(cmd)) == d.step(s, cmd),
{
    lemma_run_sum(d, s, x, super::record::fenced(cmd));
    lemma_run_sum(d, d.run(s, x), seq![cmd], seq![GpuCmd::Barrier]);
    lemma_run_one(d, d.run(s, x), cmd);
    lemma_run_one(d, d.step(d.run(s, x), cmd), GpuCmd::Barrier);
    lemma_run_sum(d, s, x, super::record::barrier());
    lemma_run_one(d, d.run(s, x), GpuCmd::Barrier);
    lemma_run_sum(d, s, seq![cmd], seq![GpuCmd::Barrier]);
    lemma_run_one(d, s, cmd);
    lemma_run_one(d, d.step(s, cmd), GpuCmd::Barrier);
}

/// The state after a bias, where there is one.
pub open spec fn biased<V>(
    d: Bench<V>,
    s: spec_fn(ActBuf) -> Seq<V>,
    bias: Option<ActBuf>,
    dst: ActBuf,
    n: u32,
) -> spec_fn(ActBuf) -> Seq<V> {
    match bias {
        Some(src) => d.step(s, GpuCmd::Add { dst, src, n }),
        None => s,
    }
}

proof fn lemma_then_bias<V>(
    d: Bench<V>,
    s: spec_fn(ActBuf) -> Seq<V>,
    x: Seq<GpuCmd>,
    bias: Option<ActBuf>,
    dst: ActBuf,
    n: u32,
)
    ensures
        d.run(s, x + super::record::bias_cmd(bias, dst, n)) == biased(d, d.run(s, x), bias, dst, n),
{
    match bias {
        Some(src) => lemma_then(d, s, x, GpuCmd::Add { dst, src, n }),
        None => assert(x + super::record::bias_cmd(bias, dst, n) =~= x),
    }
}

pub(crate) proof fn lemma_then_gemv<V>(
    d: Bench<V>,
    s: spec_fn(ActBuf) -> Seq<V>,
    x: Seq<GpuCmd>,
    weight: Option<GpuTensor>,
    src: ActBuf,
    dst: ActBuf,
)
    requires
        weight is Some,
    ensures
        d.run(s, x + super::record::gemv_cmd(weight, src, dst)) == d.step(
            d.run(s, x),
            GpuCmd::Gemv { weight: weight->0, src, dst },
        ),
{
    lemma_then(d, s, x, GpuCmd::Gemv { weight: weight->0, src, dst });
}

/// The numbers of the buffers of a model, and what those of layer `l` hold.
pub(crate) proof fn lemma_bufs<V>(
    m: Maths<V>,
    model: LlamaModel,
    resident: Seq<bool>,
    ctx_len: usize,
    s: spec_fn(ActBuf) -> Seq<V>,
    l: int,
)
    requires
        is_ready(m, model, resident, ctx_len, s),
        0 <= l < model.config.n_layers,
    ensures
        ({
            let ga = model.gpu_acts->0;
            let w = model.weights;
            let n = model.config.n_layers as int;
            let at = super::acts::model_rooms(w, model.config, ctx_len).len() as int;
            &&& ga.k_cache@[l].id == 2 * l
            &&& ga.v_cache@[l].id == 2 * l + 1
            &&& ga.attn_norms@[l].id == 2 * n + 1 + 2 * l
            &&& ga.ffn_norms@[l].id == 2 * n + 2 + 2 * l
            &&& ga.q_bias@[l] is Some <==> w.attn_q_bias@[l] is Some
            &&& ga.k_bias@[l] is Some <==> w.attn_k_bias@[l] is Some
            &&& ga.v_bias@[l] is Some <==> w.attn_v_bias@[l] is Some
            &&& ga.q_bias@[l] matches Some(b) ==> 4 * n + 2 <= b.id < at && s(b) == seq![
                (m.vector)(w.attn_q_bias@[l]->0),
            ]
            &&& ga.k_bias@[l] matches Some(b) ==> 4 * n + 2 <= b.id < at && s(b) == seq![
                (m.vector)(w.attn_k_bias@[l]->0),
            ]
            &&& ga.v_bias@[l] matches Some(b) ==> 4 * n + 2 <= b.id < at && s(b) == seq![
                (m.vector)(w.attn_v_bias@[l]->0),
            ]
            &&& s(ga.attn_norms@[l]) == seq![(m.vector)(w.attn_norm@[l])]
            &&& s(ga.ffn_norms@[l]) == seq![(m.vector)(w.ffn_norm@[l])]
        }),
{
    let ga = model.gpu_acts->0;
    let (w, c) = (model.weights, model.config);
    let n = c.n_layers as nat;
    lemma_numbers(m, model, resident, ctx_len, s);
    assert(ga.layer_allocated(w, c, l));
    super::laws_acts::lemma_bias_rooms(w, n, l);
    super::laws_acts::law_vectors_are_written(ga, w, c, ctx_len, l);
    let all = super::acts::all_rooms(w, c, ctx_len);
    assert(all[ga.attn_norms@[l].id as int].init == Some(w.attn_norm@[l]));
    assert(all[ga.ffn_norms@[l].id as int].init == Some(w.ffn_norm@[l]));
    if let Some(b) = ga.q_bias@[l] {
        assert(all[b.id as int].init == w.attn_q_bias@[l]);
    }
    if let Some(b) = ga.k_bias@[l] {
        assert(all[b.id as int].init == w.attn_k_bias@[l]);
    }
    if let Some(b) = ga.v_bias@[l] {
        assert(all[b.id as int].init == w.attn_v_bias@[l]);
    }
}

/// The numbers of the buffers that belong to no layer.
pub(crate) proof fn lemma_numbers<V>(
    m: Maths<V>,
    model: LlamaModel,
    resident: Seq<bool>,
    ctx_len: usize,
    s: spec_fn(ActBuf) -> Seq<V>,
)
    requires
        is_ready(m, model, resident, ctx_len, s),
    ensures
        ({
            let ga = model.gpu_acts->0;
            let w = model.weights;
            let n = model.config.n_layers as int;
            let at = super::acts::model_rooms(w, model.config, ctx_len).len() as int;
            &&& at == 4 * n + 2 + super::acts::bias_rooms(w, n as nat).len()
            &&& at + 22 == super::acts::all_rooms(w, model.config, ctx_len).len()
            &&& ga.scores.id == 2 * n
            &&& ga.out_norm.id == 4 * n + 1
            &&& s(ga.out_norm) == seq![(m.vector)(w.output_norm)]
            &&& ga.x.id == at
            &&& ga.xn.id == at + 1
            &&& ga.q.id == at + 2
            &&& ga.k.id == at + 3
            &&& ga.v.id == at + 4
            &&& ga.attn_out.id == at + 5
            &&& ga.proj.id == at + 6
            &&& ga.gate.id == at + 7
            &&& ga.up.id == at + 8
            &&& ga.ff.id == at + 9
            &&& ga.logits.id == at + 10
            &&& ga.logits_rb.id == at + 11
            &&& ga.x_batch.id == at + 12
            &&& ga.xn_batch.id == at + 13
            &&& ga.q_batch.id == at + 14
            &&& ga.k_batch.id == at + 15
            &&& ga.v_batch.id == at + 16
            &&& ga.ao_batch.id == at + 17
            &&& ga.proj_batch.id == at + 18
            &&& ga.gate_batch.id == at + 19
            &&& ga.up_batch.id == at + 20
            &&& ga.ff_batch.id == at + 21
            &&& ga.ctx_len == ctx_len
        }),
{
    let (w, c) = (model.weights, model.config);
    let n = c.n_layers as nat;
    super::laws_acts::lemma_cache_rooms(c, ctx_len, n);
    super::acts::lemma_norm_rooms_len(w, c, n);
    let all = super::acts::all_rooms(w, c, ctx_len);
    assert(all[4 * c.n_layers + 1].init == Some(w.output_norm));
}

/// What no command of an evaluation writes stays, and with it the vectors of the file.
pub(crate) proof fn lemma_held<V>(
    m: Maths<V>,
    model: LlamaModel,
    resident: Seq<bool>,
    ctx_len: usize,
    s: spec_fn(ActBuf) -> Seq<V>,
    t: spec_fn(ActBuf) -> Seq<V>,
)
    requires
        is_ready(m, model, resident, ctx_len, s),
        forall|b: ActBuf|
            2 * model.config.n_layers <= b.id < super::acts::model_rooms(
                model.weights,
                model.config,
                ctx_len,
            ).len() ==> #[trigger] t(b) == s(b),
    ensures
        is_ready(m, model, resident, ctx_len, t),
{
    let (w, c) = (model.weights, model.config);
    let n = c.n_layers as int;
    let all = super::acts::all_rooms(w, c, ctx_len);
    let at = super::acts::model_rooms(w, c, ctx_len).len() as int;
    lemma_numbers(m, model, resident, ctx_len, s);
    super::laws_acts::lemma_cache_rooms(c, ctx_len, n as nat);
    let caches = super::acts::cache_rooms(c, ctx_len, n as nat);
    assert forall|i: int| 0 <= i < all.len() && #[trigger] all[i].init is Some implies t(
        ActBuf { id: i as usize },
    ) == seq![(m.vector)(all[i].init->0)] by {
        if i < 2 * n {
            assert(all[i] == caches[i]);
        } else if i >= at {
            let tail = super::acts::token_rooms(c) + super::acts::batch_rooms(
                c,
                super::acts::batch_rows(ctx_len),
            );
            assert(all[i] == tail[i - at]);
            assert(tail[i - at].init is None);
        } else {
            assert(t(ActBuf { id: i as usize }) == s(ActBuf { id: i as usize }));
        }
    }
}

/// The matrices of layer `l`, where they are on the device.
pub(crate) proof fn lemma_matrices<V>(
    m: Maths<V>,
    model: LlamaModel,
    resident: Seq<bool>,
    ctx_len: usize,
    s: spec_fn(ActBuf) -> Seq<V>,
    staged: Seq<usize>,
    l: int,
)
    requires
        is_ready(m, model, resident, ctx_len, s),
        0 <= l < model.config.n_layers,
    ensures
        ({
            let d = bench(m, model, staged);
            let gw = model.gpu_w->0;
            let w = model.weights;
            let cols = model.config.n_embd;
            &&& gw.layer_resident(l)
            &&& gw.output is Some
            &&& forall|x: V|
                #[trigger] (m.product)(d.matrix(gw.attn_q@[l]->0), x) == m.projected(
                    w.attn_q@[l],
                    w.attn_q_f32@[l],
                    cols,
                    x,
                )
            &&& forall|x: V|
                #[trigger] (m.product)(d.matrix(gw.attn_k@[l]->0), x) == m.projected(
                    w.attn_k@[l],
                    w.attn_k_f32@[l],
                    cols,
                    x,
                )
            &&& forall|x: V|
                #[trigger] (m.product)(d.matrix(gw.attn_v@[l]->0), x) == m.projected(
                    w.attn_v@[l],
                    w.attn_v_f32@[l],
                    cols,
                    x,
                )
            &&& d.matrix(gw.attn_out@[l]->0) == super::cpu::CpuMatrix::Quant {
                tensor: w.attn_out@[l],
            }
            &&& d.matrix(gw.ffn_gate@[l]->0) == super::cpu::CpuMatrix::Quant {
                tensor: w.ffn_gate@[l],
            }
            &&& d.matrix(gw.ffn_up@[l]->0) == super::cpu::CpuMatrix::Quant {
                tensor: w.ffn_up@[l],
            }
            &&& d.matrix(gw.ffn_down@[l]->0) == super::cpu::CpuMatrix::Quant {
                tensor: w.ffn_down@[l],
            }
        }),
{
    super::laws_paths::lemma_placed_resident(model, resident, l);
    super::uploads::law_handles_name_their_weights(
        model.gpu_w->0,
        resident,
        model.weights,
        model.config,
        l,
    );
}

/// The norm and the three projections of a layer.
proof fn lemma_qkv<V>(
    m: Maths<V>,
    model: LlamaModel,
    resident: Seq<bool>,
    ctx_len: usize,
    s: spec_fn(ActBuf) -> Seq<V>,
    staged: Seq<usize>,
    l: int,
)
    requires
        is_ready(m, model, resident, ctx_len, s),
        0 <= l < model.config.n_layers,
    ensures
        ({
            let (w, c) = (model.weights, model.config);
            let (gw, ga) = (model.gpu_w->0, model.gpu_acts->0);
            let t = bench(m, model, staged).run(
                s,
                super::record::norm_stretch(c, ga, l) + super::record::qkv_stretch(gw, ga, l),
            );
            let h = (m.normed)(s(ga.x)[0], (m.vector)(w.attn_norm@[l]), c.n_embd as int);
            &&& t(ga.q)[0] == m.projected(w.attn_q@[l], w.attn_q_f32@[l], c.n_embd, h)
            &&& t(ga.k)[0] == m.projected(w.attn_k@[l], w.attn_k_f32@[l], c.n_embd, h)
            &&& t(ga.v)[0] == m.projected(w.attn_v@[l], w.attn_v_f32@[l], c.n_embd, h)
            &&& forall|b: ActBuf| b.id <= ga.x.id ==> #[trigger] t(b) == s(b)
        }),
{
    let (w, c) = (model.weights, model.config);
    let (gw, ga) = (model.gpu_w->0, model.gpu_acts->0);
    let d = bench(m, model, staged);
    lemma_numbers(m, model, resident, ctx_len, s);
    lemma_bufs(m, model, resident, ctx_len, s, l);
    lemma_matrices(m, model, resident, ctx_len, s, staged, l);
    let norm = GpuCmd::RmsNorm {
        src: ga.x,
        weight: ga.attn_norms@[l],
        dst: ga.xn,
        n: c.n_embd as u32,
    };
    let p1 = super::record::norm_stretch(c, ga, l);
    let p2 = p1 + super::record::gemv_cmd(gw.attn_q@[l], ga.xn, ga.q);
    let p3 = p2 + super::record::gemv_cmd(gw.attn_k@[l], ga.xn, ga.k);
    let p4 = p3 + super::record::gemv_cmd(gw.attn_v@[l], ga.xn, ga.v);
    let p5 = p4 + super::record::barrier();
    assert(super::record::norm_stretch(c, ga, l) + super::record::qkv_stretch(gw, ga, l) =~= p5);
    lemma_then_fenced(d, s, p1, norm);
    lemma_then_gemv(d, s, p1, gw.attn_q@[l], ga.xn, ga.q);
    lemma_then_gemv(d, s, p2, gw.attn_k@[l], ga.xn, ga.k);
    lemma_then_gemv(d, s, p3, gw.attn_v@[l], ga.xn, ga.v);
    lemma_then_fenced(d, s, p4, norm);
    let s1 = d.step(s, norm);
    let h = (m.normed)(s(ga.x)[0], (m.vector)(w.attn_norm@[l]), c.n_embd as int);
    assert(s1(ga.xn)[0] == h);
}

/// The biases of a layer.
proof fn lemma_biases<V>(
    m: Maths<V>,
    model: LlamaModel,
    resident: Seq<bool>,
    ctx_len: usize,
    s: spec_fn(ActBuf) -> Seq<V>,
    staged: Seq<usize>,
    l: int,
)
    requires
        is_ready(m, model, resident, ctx_len, s),
        0 <= l < model.config.n_layers,
    ensures
        ({
            let (w, c) = (model.weights, model.config);
            let ga = model.gpu_acts->0;
            let t = bench(m, model, staged).run(s, super::record::bias_stretch(c, ga, l));
            &&& t(ga.q)[0] == m.shifted(s(ga.q)[0], w.attn_q_bias@[l], c.n_heads * c.head_dim)
            &&& t(ga.k)[0] == m.shifted(s(ga.k)[0], w.attn_k_bias@[l], c.n_kv_heads * c.head_dim)
            &&& t(ga.v)[0] == m.shifted(s(ga.v)[0], w.attn_v_bias@[l], c.n_kv_heads * c.head_dim)
            &&& forall|b: ActBuf| b.id <= ga.x.id ==> #[trigger] t(b) == s(b)
        }),
{
    let (w, c) = (model.weights, model.config);
    let ga = model.gpu_acts->0;
    let d = bench(m, model, staged);
    lemma_numbers(m, model, resident, ctx_len, s);
    lemma_bufs(m, model, resident, ctx_len, s, l);
    let none = Seq::<GpuCmd>::empty();
    let (nq, nk) = (c.q_width() as u32, c.kv_width() as u32);
    let p1 = none + super::record::bias_cmd(ga.q_bias@[l], ga.q, nq);
    let p2 = p1 + super::record::bias_cmd(ga.k_bias@[l], ga.k, nk);
    let p3 = p2 + super::record::bias_cmd(ga.v_bias@[l], ga.v, nk);
    let p4 = p3 + super::record::bias_barrier(ga, l);
    assert(super::record::bias_stretch(c, ga, l) =~= p4);
    lemma_then_bias(d, s, none, ga.q_bias@[l], ga.q, nq);
    lemma_then_bias(d, s, p1, ga.k_bias@[l], ga.k, nk);
    lemma_then_bias(d, s, p2, ga.v_bias@[l], ga.v, nk);
    lemma_then(d, s, p3, GpuCmd::Barrier);
    assert(d.run(s, p4) == d.run(s, p3)) by {
        if !(ga.q_bias@[l] is Some || ga.k_bias@[l] is Some || ga.v_bias@[l] is Some) {
            assert(p4 =~= p3);
        }
    }
}

/// The position is turned in, keys and values are stored, and the queries are answered.
proof fn lemma_attend<V>(
    m: Maths<V>,
    model: LlamaModel,
    resident: Seq<bool>,
    ctx_len: usize,
    s: spec_fn(ActBuf) -> Seq<V>,
    staged: Seq<usize>,
    l: int,
    pos: int,
)
    requires
        is_ready(m, model, resident, ctx_len, s),
        0 <= l < model.config.n_layers,
        0 <= pos < u32::MAX,
    ensures
        ({
            let c = model.config;
            let ga = model.gpu_acts->0;
            let t = bench(m, model, staged).run(s, super::record::attend_stretch(c, ga, l, pos));
            let (nh, kv, hd) = (c.n_heads as int, c.n_kv_heads as int, c.head_dim as int);
            let q = (m.turned)(s(ga.q)[0], nh, hd, pos);
            let k = (m.stored)(
                s(ga.k_cache@[l])[0],
                (m.turned)(s(ga.k)[0], kv, hd, pos),
                pos,
                kv,
                hd,
            );
            let v = (m.stored)(s(ga.v_cache@[l])[0], s(ga.v)[0], pos, kv, hd);
            &&& t(ga.k_cache@[l])[0] == k
            &&& t(ga.v_cache@[l])[0] == v
            &&& t(ga.attn_out)[0] == (m.attended)(
                q,
                k,
                v,
                Heads { n_heads: nh, n_kv_heads: kv, head_dim: hd },
                pos + 1,
                ctx_len as int,
            )
            &&& forall|b: ActBuf|
                b.id <= ga.x.id && b != ga.k_cache@[l] && b != ga.v_cache@[l] ==> #[trigger] t(b)
                    == s(b)
        }),
{
    let c = model.config;
    let ga = model.gpu_acts->0;
    let d = bench(m, model, staged);
    lemma_numbers(m, model, resident, ctx_len, s);
    lemma_bufs(m, model, resident, ctx_len, s, l);
    let rope = GpuCmd::Rope {
        q: ga.q,
        k: ga.k,
        n_heads: c.n_heads as u32,
        n_kv_heads: c.n_kv_heads as u32,
        head_dim: c.head_dim as u32,
        pos: pos as u32,
    };
    let write = GpuCmd::KvWrite {
        k: ga.k,
        v: ga.v,
        k_cache: ga.k_cache@[l],
        v_cache: ga.v_cache@[l],
        pos: pos as u32,
        n_kv_heads: c.n_kv_heads as u32,
        head_dim: c.head_dim as u32,
    };
    let attend = GpuCmd::Attention {
        q: ga.q,
        k_cache: ga.k_cache@[l],
        v_cache: ga.v_cache@[l],
        dst: ga.attn_out,
        scores: ga.scores,
        n_heads: c.n_heads as u32,
        n_kv_heads: c.n_kv_heads as u32,
        head_dim: c.head_dim as u32,
        seq_len: (pos + 1) as u32,
        ctx_len: ga.ctx_len as u32,
    };
    let p1 = super::record::fenced(rope);
    let p2 = p1 + super::record::fenced(write);
    lemma_then_fenced(d, s, p1, rope);
    lemma_then_fenced(d, s, p1, write);
    lemma_then_fenced(d, s, p2, attend);
    let s1 = d.step(s, rope);
    let s2 = d.step(s1, write);
    assert(s2(ga.q)[0] == (m.turned)(
        s(ga.q)[0],
        c.n_heads as int,
        c.head_dim as int,
        pos,
    ));
}

/// The answer is projected and added, and so is what the feed-forward block makes of the sum.
proof fn lemma_finish<V>(
    m: Maths<V>,
    model: LlamaModel,
    resident: Seq<bool>,
    ctx_len: usize,
    s: spec_fn(ActBuf) -> Seq<V>,
    staged: Seq<usize>,
    l: int,
)
    requires
        is_ready(m, model, resident, ctx_len, s),
        0 <= l < model.config.n_layers,
    ensures
        ({
            let (w, c) = (model.weights, model.config);
            let (gw, ga) = (model.gpu_w->0, model.gpu_acts->0);
            let t = bench(m, model, staged).run(
                s,
                super::record::project_stretch(c, gw, ga, l) + super::record::feed_stretch(
                    c,
                    gw,
                    ga,
                    l,
                ) + seq![super::record::residual_cmd(c, ga)],
            );
            &&& t(ga.x) == seq![m.finished(w, c, l, s(ga.x)[0], s(ga.attn_out)[0])]
            &&& forall|b: ActBuf| b.id < ga.x.id ==> #[trigger] t(b) == s(b)
        }),
{
    let (w, c) = (model.weights, model.config);
    let (gw, ga) = (model.gpu_w->0, model.gpu_acts->0);
    let d = bench(m, model, staged);
    lemma_numbers(m, model, resident, ctx_len, s);
    lemma_bufs(m, model, resident, ctx_len, s, l);
    lemma_matrices(m, model, resident, ctx_len, s, staged, l);
    let none = Seq::<GpuCmd>::empty();
    let bar = super::record::barrier();
    let add = GpuCmd::Add { dst: ga.x, src: ga.proj, n: c.n_embd as u32 };
    let norm = GpuCmd::RmsNorm {
        src: ga.x,
        weight: ga.ffn_norms@[l],
        dst: ga.xn,
        n: c.n_embd as u32,
    };
    let swiglu = GpuCmd::SwiGlu { gate: ga.gate, up: ga.up, n: c.n_ff as u32 };
    let p1 = none + super::record::gemv_cmd(gw.attn_out@[l], ga.attn_out, ga.proj);
    let p2 = p1 + bar;
    let p3 = p2 + super::record::fenced(add);
    let p4 = p3 + super::record::fenced(norm);
    let p5 = p4 + super::record::gemv_cmd(gw.ffn_gate@[l], ga.xn, ga.gate);
    let p6 = p5 + super::record::gemv_cmd(gw.ffn_up@[l], ga.xn, ga.up);
    let p7 = p6 + bar;
    let p8 = p7 + super::record::fenced(swiglu);
    let p9 = p8 + super::record::gemv_cmd(gw.ffn_down@[l], ga.gate, ga.ff);
    let p10 = p9 + bar;
    let last = super::record::residual_cmd(c, ga);
    assert(super::record::project_stretch(c, gw, ga, l) + super::record::feed_stretch(c, gw, ga, l)
        + seq![last] =~= p10 + seq![last]);
    lemma_then_gemv(d, s, none, gw.attn_out@[l], ga.attn_out, ga.proj);
    lemma_then_fenced(d, s, p1, add);
    lemma_then_fenced(d, s, p2, add);
    lemma_then_fenced(d, s, p3, norm);
    lemma_then_gemv(d, s, p4, gw.ffn_gate@[l], ga.xn, ga.gate);
    lemma_then_gemv(d, s, p5, gw.ffn_up@[l], ga.xn, ga.up);
    lemma_then_fenced(d, s, p6, swiglu);
    lemma_then_fenced(d, s, p7, swiglu);
    lemma_then_gemv(d, s, p8, gw.ffn_down@[l], ga.gate, ga.ff);
    lemma_then_fenced(d, s, p9, swiglu);
    lemma_then(d, s, p10, last);
    let n = c.n_embd as int;
    let s3 = d.run(s, p3);
    let y = (m.sum)(
        s(ga.x)[0],
        (m.product)(
            super::cpu::CpuMatrix::Quant { tensor: w.attn_out@[l] },
            s(ga.attn_out)[0],
        ),
        n,
    );
    assert(s3(ga.x)[0] == y);
    assert(s3(ga.ffn_norms@[l]) == s(ga.ffn_norms@[l]));
    let h = (m.normed)(y, (m.vector)(w.ffn_norm@[l]), n);
    let s4 = d.run(s, p4);
    assert(s4(ga.xn)[0] == h);
    let s8 = d.run(s, p8);
    assert(s8(ga.x)[0] == y);
    assert(s8(ga.gate)[0] == (m.gated)(
        (m.product)(super::cpu::CpuMatrix::Quant { tensor: w.ffn_gate@[l] }, h),
        (m.product)(super::cpu::CpuMatrix::Quant { tensor: w.ffn_up@[l] }, h),
        c.n_ff as int,
    ));
}

/// The stretches of a layer, one after the other.
spec fn layer_end<V>(
    d: Bench<V>,
    s: spec_fn(ActBuf) -> Seq<V>,
    model: LlamaModel,
    l: int,
    pos: int,
) -> spec_fn(ActBuf) -> Seq<V> {
    let (c, gw, ga) = (model.config, model.gpu_w->0, model.gpu_acts->0);
    let s1 = d.run(
        s,
        super::record::norm_stretch(c, ga, l) + super::record::qkv_stretch(gw, ga, l),
    );
    let s2 = d.run(s1, super::record::bias_stretch(c, ga, l));
    let s3 = d.run(s2, super::record::attend_stretch(c, ga, l, pos));
    d.run(
        s3,
        super::record::project_stretch(c, gw, ga, l) + super::record::feed_stretch(c, gw, ga, l)
            + seq![super::record::residual_cmd(c, ga)],
    )
}

proof fn lemma_layer<V>(
    m: Maths<V>,
    model: LlamaModel,
    resident: Seq<bool>,
    ctx_len: usize,
    s: spec_fn(ActBuf) -> Seq<V>,
    staged: Seq<usize>,
    l: int,
    pos: int,
)
    requires
        is_ready(m, model, resident, ctx_len, s),
        0 <= l < model.config.n_layers,
        0 <= pos < u32::MAX,
    ensures
        ({
            let (w, c) = (model.weights, model.config);
            let ga = model.gpu_acts->0;
            let n = c.n_layers as nat;
            let t = layer_end(bench(m, model, staged), s, model, l, pos);
            let f = m.layer(w, c, ctx_len as int, l, pos, flow_on(ga, n, s, s(ga.x)[0]));
            &&& is_ready(m, model, resident, ctx_len, t)
            &&& flow_on(ga, n, t, t(ga.x)[0]) == f
        }),
{
    let (w, c) = (model.weights, model.config);
    let (gw, ga) = (model.gpu_w->0, model.gpu_acts->0);
    let n = c.n_layers as nat;
    let d = bench(m, model, staged);
    let s1 = d.run(
        s,
        super::record::norm_stretch(c, ga, l) + super::record::qkv_stretch(gw, ga, l),
    );
    let s2 = d.run(s1, super::record::bias_stretch(c, ga, l));
    let s3 = d.run(s2, super::record::attend_stretch(c, ga, l, pos));
    let t = layer_end(d, s, model, l, pos);
    lemma_numbers(m, model, resident, ctx_len, s);
    lemma_bufs(m, model, resident, ctx_len, s, l);
    lemma_qkv(m, model, resident, ctx_len, s, staged, l);
    lemma_held(m, model, resident, ctx_len, s, s1);
    lemma_biases(m, model, resident, ctx_len, s1, staged, l);
    lemma_held(m, model, resident, ctx_len, s1, s2);
    lemma_attend(m, model, resident, ctx_len, s2, staged, l, pos);
    lemma_held(m, model, resident, ctx_len, s2, s3);
    lemma_finish(m, model, resident, ctx_len, s3, staged, l);
    lemma_held(m, model, resident, ctx_len, s3, t);
    let f = flow_on(ga, n, s, s(ga.x)[0]);
    let g = m.layer(w, c, ctx_len as int, l, pos, f);
    let h = flow_on(ga, n, t, t(ga.x)[0]);
    assert forall|j: int| 0 <= j < n implies h.k[j] == g.k[j] && h.v[j] == g.v[j] by {
        lemma_bufs(m, model, resident, ctx_len, s, j);
    }
    assert(h.k =~= g.k);
    assert(h.v =~= g.v);
}

/// A layer does what its stretches do, with time stamps or without.
proof fn lemma_layer_runs<V>(
    d: Bench<V>,
    s: spec_fn(ActBuf) -> Seq<V>,
    model: LlamaModel,
    l: int,
    pos: int,
)
    ensures
        ({
            let (c, gw, ga) = (model.config, model.gpu_w->0, model.gpu_acts->0);
            &&& d.run(s, super::record::layer_cmds(c, gw, ga, l, pos)) == layer_end(
                d,
                s,
                model,
                l,
                pos,
            )
            &&& d.run(s, super::llama::timed_layer_cmds(c, gw, ga, l, pos)) == layer_end(
                d,
                s,
                model,
                l,
                pos,
            )
        }),
{
    let (c, gw, ga) = (model.config, model.gpu_w->0, model.gpu_acts->0);
    let norm = super::record::norm_stretch(c, ga, l);
    let qkv = super::record::qkv_stretch(gw, ga, l);
    let bias = super::record::bias_stretch(c, ga, l);
    let attend = super::record::attend_stretch(c, ga, l, pos);
    let project = super::record::project_stretch(c, gw, ga, l);
    let feed = super::record::feed_stretch(c, gw, ga, l);
    let last = super::record::residual_cmd(c, ga);
    let s1 = d.run(s, norm + qkv);
    let s2 = d.run(s1, bias);
    let s3 = d.run(s2, attend);
    let t = layer_end(d, s, model, l, pos);
    // Without stamps.
    let end = project + feed + seq![last];
    let bar = seq![GpuCmd::Barrier];
    assert(super::record::layer_cmds(c, gw, ga, l, pos) =~= norm + qkv + bias + attend + end + bar);
    lemma_run_sum(d, s, norm + qkv, bias);
    lemma_run_sum(d, s, norm + qkv + bias, attend);
    lemma_run_sum(d, s, norm + qkv + bias + attend, end);
    lemma_then(d, s, norm + qkv + bias + attend + end, GpuCmd::Barrier);
    // With stamps.
    let st = super::llama::stamp(l);
    let q1 = norm + st;
    let q2 = q1 + qkv;
    let q3 = q2 + st;
    let q4 = q3 + bias;
    let q5 = q4 + attend;
    let q6 = q5 + st;
    let q7 = q6 + project;
    let q8 = q7 + st;
    let q9 = q8 + feed;
    let q10 = q9 + st;
    let q11 = q10 + seq![last];
    lemma_stamp(d, s, norm, l);
    lemma_run_sum(d, s, q1, qkv);
    lemma_run_sum(d, s, norm, qkv);
    lemma_stamp(d, s, q2, l);
    lemma_run_sum(d, s, q3, bias);
    lemma_run_sum(d, s, q4, attend);
    lemma_stamp(d, s, q5, l);
    lemma_run_sum(d, s, q6, project);
    lemma_stamp(d, s, q7, l);
    lemma_run_sum(d, s, q8, feed);
    lemma_stamp(d, s, q9, l);
    lemma_then(d, s, q10, last);
    lemma_run_sum(d, s3, project, feed);
    lemma_then(d, s3, project + feed, last);
    assert(d.run(s, q11) == t);
    let tail = super::llama::layer_end(c, l);
    if l < c.n_layers - 1 {
        lemma_then(d, s, q11, GpuCmd::Barrier);
    } else {
        assert(q11 + tail =~= q11);
    }
}

proof fn lemma_stamp<V>(d: Bench<V>, s: spec_fn(ActBuf) -> Seq<V>, x: Seq<GpuCmd>, l: int)
    ensures
        d.run(s, x + super::llama::stamp(l)) == d.run(s, x),
{
    if l == 0 {
        lemma_then(d, s, x, GpuCmd::Timestamp);
    } else {
        assert(x + super::llama::stamp(l) =~= x);
    }
}

proof fn lemma_layers<V>(
    m: Maths<V>,
    model: LlamaModel,
    resident: Seq<bool>,
    ctx_len: usize,
    s: spec_fn(ActBuf) -> Seq<V>,
    staged: Seq<usize>,
    pos: int,
    k: nat,
)
    requires
        is_ready(m, model, resident, ctx_len, s),
        k <= model.config.n_layers,
        0 <= pos < u32::MAX,
    ensures
        ({
            let (w, c) = (model.weights, model.config);
            let (gw, ga) = (model.gpu_w->0, model.gpu_acts->0);
            let n = c.n_layers as nat;
            let d = bench(m, model, staged);
            let t = d.run(s, super::llama::layers_cmds(c, gw, ga, pos, k));
            let f = m.layers(w, c, ctx_len as int, pos, k, flow_on(ga, n, s, s(ga.x)[0]));
            &&& t == d.run(s, super::llama::timed_layers_cmds(c, gw, ga, pos, k))
            &&& is_ready(m, model, resident, ctx_len, t)
            &&& flow_on(ga, n, t, t(ga.x)[0]) == f
        }),
    decreases k,
{
    if k > 0 {
        let (c, gw, ga) = (model.config, model.gpu_w->0, model.gpu_acts->0);
        let d = bench(m, model, staged);
        let less = (k - 1) as nat;
        let plain = super::llama::layers_cmds(c, gw, ga, pos, less);
        let timed = super::llama::timed_layers_cmds(c, gw, ga, pos, less);
        lemma_layers(m, model, resident, ctx_len, s, staged, pos, less);
        let t = d.run(s, plain);
        lemma_layer(m, model, resident, ctx_len, t, staged, k - 1, pos);
        lemma_layer_runs(d, t, model, k - 1, pos);
        lemma_run_sum(d, s, plain, super::record::layer_cmds(c, gw, ga, k - 1, pos));
        lemma_run_sum(d, s, timed, super::llama::timed_layer_cmds(c, gw, ga, k - 1, pos));
    }
}

/// The final norm and the projection to the logits, and their way to the host.
proof fn lemma_output<V>(
    m: Maths<V>,
    model: LlamaModel,
    resident: Seq<bool>,
    ctx_len: usize,
    s: spec_fn(ActBuf) -> Seq<V>,
    staged: Seq<usize>,
)
    requires
        is_ready(m, model, resident, ctx_len, s),
    ensures
        ({
            let (w, c) = (model.weights, model.config);
            let (gw, ga) = (model.gpu_w->0, model.gpu_acts->0);
            let d = bench(m, model, staged);
            let t = d.step(
                d.run(s, super::record::output_cmds(c, gw, ga)),
                GpuCmd::SubmitWithReadback { logits: ga.logits, readback: ga.logits_rb },
            );
            &&& t(ga.logits) == seq![m.logits(w, c, s(ga.x)[0])]
            &&& t(ga.logits_rb) == t(ga.logits)
            &&& forall|b: ActBuf| b.id <= ga.x.id ==> #[trigger] t(b) == s(b)
            &&& is_ready(m, model, resident, ctx_len, t)
        }),
{
    let (w, c) = (model.weights, model.config);
    let (gw, ga) = (model.gpu_w->0, model.gpu_acts->0);
    let d = bench(m, model, staged);
    lemma_numbers(m, model, resident, ctx_len, s);
    assert(resident[0]);
    let norm = GpuCmd::RmsNorm { src: ga.x, weight: ga.out_norm, dst: ga.xn, n: c.n_embd as u32 };
    let p1 = super::record::fenced(norm);
    lemma_then_fenced(d, s, p1, norm);
    lemma_then_gemv(d, s, p1, gw.output, ga.xn, ga.logits);
    assert(d.matrix(gw.output->0) == super::cpu::CpuMatrix::Quant { tensor: w.output }) by {
        assert(d.uploads[0] == Upload::Quant { tensor: w.output });
    }
    let t = d.step(
        d.run(s, super::record::output_cmds(c, gw, ga)),
        GpuCmd::SubmitWithReadback { logits: ga.logits, readback: ga.logits_rb },
    );
    lemma_held(m, model, resident, ctx_len, s, t);
}

/// The evaluation of a token on a device leaves the logits of the model, there and with the host,
/// and the keys and values of the model in the caches.
pub proof fn law_device_computes_the_model<V>(
    m: Maths<V>,
    model: LlamaModel,
    resident: Seq<bool>,
    ctx_len: usize,
    s: spec_fn(ActBuf) -> Seq<V>,
    token: usize,
    pos: int,
)
    requires
        is_ready(m, model, resident, ctx_len, s),
        0 <= pos < u32::MAX,
    ensures
        ({
            let (w, c) = (model.weights, model.config);
            let (gw, ga) = (model.gpu_w->0, model.gpu_acts->0);
            let n = c.n_layers as nat;
            let t = bench(m, model, Seq::empty()).run(
                s,
                super::llama::forward_cmds(c, gw, ga, token, pos),
            );
            let f = m.token(w, c, ctx_len as int, token, pos, flow_on(ga, n, s, s(ga.x)[0]));
            &&& t(ga.logits) == seq![m.logits(w, c, f.x)]
            &&& t(ga.logits_rb) == seq![m.logits(w, c, f.x)]
            &&& flow_on(ga, n, t, f.x) == f
            &&& is_ready(m, model, resident, ctx_len, t)
        }),
{
    let (w, c) = (model.weights, model.config);
    let (gw, ga) = (model.gpu_w->0, model.gpu_acts->0);
    let n = c.n_layers as nat;
    let d = bench(m, model, Seq::empty());
    let none = Seq::<GpuCmd>::empty();
    let upload = GpuCmd::UploadEmbedding { dst: ga.x, token };
    let submit = GpuCmd::SubmitWithReadback { logits: ga.logits, readback: ga.logits_rb };
    let read = GpuCmd::ReadLogits { logits: ga.logits, readback: ga.logits_rb };
    let stamp = seq![GpuCmd::Timestamp];
    let p1 = none + seq![GpuCmd::Begin];
    let p2 = p1 + seq![upload];
    let p3 = p2 + stamp;
    let layers = super::llama::timed_layers_cmds(c, gw, ga, pos, n);
    let p4 = p3 + layers;
    let p5 = p4 + stamp;
    let out = super::record::output_cmds(c, gw, ga);
    let p6 = p5 + out;
    let p7 = p6 + stamp;
    let p8 = p7 + seq![submit];
    let p9 = p8 + seq![GpuCmd::PrintTimestamps];
    let p10 = p9 + seq![read];
    assert(super::llama::forward_cmds(c, gw, ga, token, pos) =~= p10);
    lemma_then(d, s, none, GpuCmd::Begin);
    lemma_then(d, s, p1, upload);
    lemma_then(d, s, p2, GpuCmd::Timestamp);
    lemma_run_sum(d, s, p3, layers);
    lemma_then(d, s, p4, GpuCmd::Timestamp);
    lemma_run_sum(d, s, p5, out);
    lemma_then(d, s, p6, GpuCmd::Timestamp);
    lemma_then(d, s, p7, submit);
    lemma_then(d, s, p8, GpuCmd::PrintTimestamps);
    lemma_then(d, s, p9, read);
    let u = d.step(s, upload);
    lemma_begins(m, model, resident, ctx_len, s, u, token);
    lemma_layers(m, model, resident, ctx_len, u, Seq::empty(), pos, n);
    let v = d.run(u, layers);
    lemma_output(m, model, resident, ctx_len, v, Seq::empty());
    lemma_same_caches(m, model, resident, ctx_len, v, d.run(s, p8));
}

/// A token's row is put in place.
pub(crate) proof fn lemma_begins<V>(
    m: Maths<V>,
    model: LlamaModel,
    resident: Seq<bool>,
    ctx_len: usize,
    s: spec_fn(ActBuf) -> Seq<V>,
    u: spec_fn(ActBuf) -> Seq<V>,
    token: usize,
)
    requires
        is_ready(m, model, resident, ctx_len, s),
        u((model.gpu_acts->0).x)[0] == (m.row)(token),
        forall|b: ActBuf| b != (model.gpu_acts->0).x ==> #[trigger] u(b) == s(b),
    ensures
        is_ready(m, model, resident, ctx_len, u),
        ({
            let ga = model.gpu_acts->0;
            let f = flow_on(ga, model.config.n_layers as nat, s, s(ga.x)[0]);
            flow_on(ga, model.config.n_layers as nat, u, u(ga.x)[0]) == Flow {
                x: (m.row)(token),
                k: f.k,
                v: f.v,
            }
        }),
{
    lemma_numbers(m, model, resident, ctx_len, s);
    lemma_held(m, model, resident, ctx_len, s, u);
    lemma_same_caches(m, model, resident, ctx_len, s, u);
}

/// Where nothing writes the caches, they hold what they held.
pub(crate) proof fn lemma_same_caches<V>(
    m: Maths<V>,
    model: LlamaModel,
    resident: Seq<bool>,
    ctx_len: usize,
    s: spec_fn(ActBuf) -> Seq<V>,
    u: spec_fn(ActBuf) -> Seq<V>,
)
    requires
        is_ready(m, model, resident, ctx_len, s),
        forall|b: ActBuf| b.id < (model.gpu_acts->0).x.id ==> #[trigger] u(b) == s(b),
    ensures
        forall|x: V| #[trigger]
            flow_on(model.gpu_acts->0, model.config.n_layers as nat, u, x) == flow_on(
                model.gpu_acts->0,
                model.config.n_layers as nat,
                s,
                x,
            ),
{
    let ga = model.gpu_acts->0;
    let n = model.config.n_layers as nat;
    lemma_numbers(m, model, resident, ctx_len, s);
    assert forall|x: V| #[trigger] flow_on(ga, n, u, x) == flow_on(ga, n, s, x) by {
        let f = flow_on(ga, n, u, x);
        let g = flow_on(ga, n, s, x);
        assert forall|j: int| 0 <= j < n implies f.k[j] == g.k[j] && f.v[j] == g.v[j] by {
            lemma_bufs(m, model, resident, ctx_len, s, j);
        }
        assert(f.k =~= g.k);
        assert(f.v =~= g.v);
    }
}

/// The row at an offset that a whole number of rows comes before.
pub(crate) proof fn lemma_row_at(i: int, width: int, n: int)
    requires
        0 <= i < n,
        width > 0,
        n * width * 4 <= usize::MAX,
    ensures
        row_at((i * width * 4) as u64 as int, width * 4) == i,
        (i * width * 4) as u64 == i * width * 4,
{
    assert(0 <= i * width * 4 <= n * width * 4 && (i * width * 4) / (width * 4) == i) by (
    nonlinear_arith)
        requires
            0 <= i < n,
            width > 0,
    {
        assert(i * width * 4 == i * (width * 4));
    }
}

/// The first `k` tokens of a prompt.
proof fn lemma_tokens<V>(
    m: Maths<V>,
    model: LlamaModel,
    resident: Seq<bool>,
    ctx_len: usize,
    s: spec_fn(ActBuf) -> Seq<V>,
    tokens: Seq<usize>,
    start: int,
    k: int,
)
    requires
        is_ready(m, model, resident, ctx_len, s),
        model.config.n_embd > 0,
        tokens.len() * model.config.n_embd * 4 <= usize::MAX,
        0 <= start,
        0 <= k <= tokens.len(),
        start + tokens.len() <= u32::MAX,
    ensures
        ({
            let (w, c) = (model.weights, model.config);
            let ga = model.gpu_acts->0;
            let n = c.n_layers as nat;
            let t = bench(m, model, tokens).run(s, model.tokens_cmds(start, 0, k));
            &&& is_ready(m, model, resident, ctx_len, t)
            &&& flow_on(ga, n, t, t(ga.x)[0]) == m.tokens(
                w,
                c,
                ctx_len as int,
                tokens.take(k),
                start,
                flow_on(ga, n, s, s(ga.x)[0]),
            )
        }),
    decreases k,
{
    let (w, c) = (model.weights, model.config);
    let (gw, ga) = (model.gpu_w->0, model.gpu_acts->0);
    let n = c.n_layers as nat;
    let d = bench(m, model, tokens);
    if k > 0 {
        let i = k - 1;
        lemma_tokens(m, model, resident, ctx_len, s, tokens, start, i);
        let less = model.tokens_cmds(start, 0, i);
        let copy = GpuCmd::CopyToAct {
            dst: ga.x,
            src: CopySource::Staging,
            offset: (i * c.n_embd * 4) as u64,
        };
        let layers = super::llama::layers_cmds(c, gw, ga, start + i, n);
        let t = d.run(s, less);
        let u = d.step(t, copy);
        lemma_row_at(i, c.n_embd as int, tokens.len() as int);
        assert(u(ga.x)[0] == (m.row)(tokens[i]));
        lemma_begins(m, model, resident, ctx_len, t, u, tokens[i]);
        lemma_layers(m, model, resident, ctx_len, u, tokens, start + i, n);
        assert(model.token_cmds(start, i) == seq![copy] + layers);
        lemma_run_sum(d, s, less, seq![copy] + layers);
        lemma_run_sum(d, t, seq![copy], layers);
        lemma_run_one(d, t, copy);
        assert(tokens.take(k).drop_last() =~= tokens.take(i));
        assert(tokens.take(k).last() == tokens[i]);
    }
}

/// The chunks of a prompt do what its tokens and one close do.
proof fn lemma_chunks<V>(
    d: Bench<V>,
    s: spec_fn(ActBuf) -> Seq<V>,
    model: LlamaModel,
    start: int,
    from: int,
    n: int,
    size: int,
)
    requires
        0 <= from < n,
        size >= 1,
    ensures
        d.run(s, model.chunks_cmds(start, from, n, size)) == d.run(
            d.run(s, model.tokens_cmds(start, from, n)),
            model.close_cmds(true),
        ),
    decreases n - from,
{
    let to = super::prefill::chunk_end(from, size, n);
    let open = GpuCmd::BeginForSets {
        sets: super::prefill::gemv_sets(model.config.n_layers as int, to - from) as u32,
    };
    let tokens = model.tokens_cmds(start, from, to);
    let close = model.close_cmds(to == n);
    let rest = model.chunks_cmds(start, to, n, size);
    let u = d.run(s, tokens);
    lemma_run_sum(d, s, seq![open] + tokens + close, rest);
    lemma_run_sum(d, s, seq![open] + tokens, close);
    lemma_run_sum(d, s, seq![open], tokens);
    lemma_run_one(d, s, open);
    if to < n {
        lemma_run_one(d, u, GpuCmd::SubmitNoReadback);
        lemma_chunks(d, u, model, start, to, n, size);
        super::laws::lemma_tokens_join(model, start, from, to, n);
        lemma_run_sum(d, s, tokens, model.tokens_cmds(start, to, n));
    }
}

/// The evaluation of a prompt on a device, a token at a time, leaves the logits of the model
/// after its last token, there and with the host, and the keys and values of all its tokens in
/// the caches: the token with index `i` stands at position `start + i`.
pub proof fn law_prompt_computes_the_model<V>(
    m: Maths<V>,
    model: LlamaModel,
    resident: Seq<bool>,
    ctx_len: usize,
    s: spec_fn(ActBuf) -> Seq<V>,
    tokens: Seq<usize>,
    start: int,
    size: int,
)
    requires
        is_ready(m, model, resident, ctx_len, s),
        model.config.n_embd > 0,
        tokens.len() > 0,
        size >= 1,
        tokens.len() * model.config.n_embd * 4 <= usize::MAX,
        0 <= start,
        start + tokens.len() <= u32::MAX,
    ensures
        ({
            let (w, c) = (model.weights, model.config);
            let ga = model.gpu_acts->0;
            let n = c.n_layers as nat;
            let t = bench(m, model, tokens).run(
                s,
                model.prefill_cmds(start, tokens.len() as int, size),
            );
            let f = m.tokens(
                w,
                c,
                ctx_len as int,
                tokens,
                start,
                flow_on(ga, n, s, s(ga.x)[0]),
            );
            &&& t(ga.logits) == seq![m.logits(w, c, f.x)]
            &&& t(ga.logits_rb) == seq![m.logits(w, c, f.x)]
            &&& flow_on(ga, n, t, f.x) == f
            &&& is_ready(m, model, resident, ctx_len, t)
        }),
{
    let (c, gw, ga) = (model.config, model.gpu_w->0, model.gpu_acts->0);
    let n = tokens.len() as int;
    let d = bench(m, model, tokens);
    let chunks = model.chunks_cmds(start, 0, n, size);
    let read = GpuCmd::ReadLogits { logits: ga.logits, readback: ga.logits_rb };
    let submit = GpuCmd::SubmitWithReadback { logits: ga.logits, readback: ga.logits_rb };
    let out = super::record::output_cmds(c, gw, ga);
    assert(model.prefill_cmds(start, n, size) =~= chunks + seq![GpuCmd::FreeStaging] + seq![read]);
    lemma_then(d, s, chunks, GpuCmd::FreeStaging);
    lemma_then(d, s, chunks + seq![GpuCmd::FreeStaging], read);
    lemma_chunks(d, s, model, start, 0, n, size);
    lemma_tokens(m, model, resident, ctx_len, s, tokens, start, n);
    assert(tokens.take(n) =~= tokens);
    let t = d.run(s, model.tokens_cmds(start, 0, n));
    lemma_then(d, t, out, submit);
    lemma_output(m, model, resident, ctx_len, t, tokens);
    lemma_same_caches(m, model, resident, ctx_len, t, d.run(s, chunks));
}

} // verus!
