//! What the activation buffers promise.
use vstd::prelude::*;

use super::acts::Alloc;
use super::config::ModelConfig;
use super::gpu::GpuActs;
use super::weights::Weights;

verus! {

/// The allocation that gave a buffer.
pub open spec fn alloc_of(
    w: Weights,
    c: ModelConfig,
    ctx_len: usize,
    act: super::gpu::ActBuf,
) -> Alloc {
    super::acts::all_rooms(w, c, ctx_len)[act.id as int]
}

pub(crate) proof fn lemma_cache_rooms(c: ModelConfig, ctx_len: usize, k: nat)
    ensures
        super::acts::cache_rooms(c, ctx_len, k).len() == 2 * k,
        forall|i: int|
            0 <= i < 2 * k ==> (#[trigger] super::acts::cache_rooms(c, ctx_len, k)[i])
                == super::acts::room((ctx_len * c.kv_width()) as int)[0],
    decreases k,
{
    if k > 0 {
        lemma_cache_rooms(c, ctx_len, (k - 1) as nat);
    }
}

pub(crate) proof fn lemma_norm_rooms(w: Weights, c: ModelConfig, k: nat, l: int)
    requires
        0 <= l < k,
    ensures
        super::acts::norm_rooms(w, c, k).len() == 2 * k,
        super::acts::norm_rooms(w, c, k)[2 * l] == super::acts::filled(
            c.n_embd as int,
            w.attn_norm@[l],
        )[0],
        super::acts::norm_rooms(w, c, k)[2 * l + 1] == super::acts::filled(
            c.n_embd as int,
            w.ffn_norm@[l],
        )[0],
    decreases k,
{
    super::acts::lemma_norm_rooms_len(w, c, (k - 1) as nat);
    if l < k - 1 {
        lemma_norm_rooms(w, c, (k - 1) as nat, l);
    }
}

/// Layer `l` finds its biases among those of the first `k` layers.
pub(crate) proof fn lemma_bias_rooms(w: Weights, k: nat, l: int)
    requires
        0 <= l < k,
    ensures
        ({
            let all = super::acts::bias_rooms(w, k);
            let at = super::acts::bias_rooms(w, l as nat).len() as int;
            let q = super::acts::bias_room(w.attn_q_bias@[l]);
            let kb = super::acts::bias_room(w.attn_k_bias@[l]);
            let v = super::acts::bias_room(w.attn_v_bias@[l]);
            &&& at + q.len() + kb.len() + v.len() <= all.len()
            &&& q.len() == 1 ==> all[at] == q[0]
            &&& kb.len() == 1 ==> all[at + q.len()] == kb[0]
            &&& v.len() == 1 ==> all[at + q.len() + kb.len()] == v[0]
        }),
    decreases k,
{
    if l < k - 1 {
        lemma_bias_rooms(w, (k - 1) as nat, l);
    }
}

/// A cache holds the keys or values of a whole context, and the scores those of all heads over
/// a whole context.
pub proof fn law_caches_hold_a_context(
    acts: GpuActs,
    w: Weights,
    c: ModelConfig,
    ctx_len: usize,
    l: int,
)
    requires
        acts.is_allocated(w, c, ctx_len),
        super::acts::rooms_fit(w, c, ctx_len),
        super::acts::all_rooms(w, c, ctx_len).len() <= usize::MAX,
        0 <= l < c.n_layers,
    ensures
        alloc_of(w, c, ctx_len, acts.k_cache@[l]).bytes == ctx_len * c.kv_width() * 4,
        alloc_of(w, c, ctx_len, acts.v_cache@[l]).bytes == ctx_len * c.kv_width() * 4,
        alloc_of(w, c, ctx_len, acts.scores).bytes == c.n_heads * ctx_len * 4,
{
    lemma_cache_rooms(c, ctx_len, c.n_layers as nat);
    super::acts::lemma_norm_rooms_len(w, c, c.n_layers as nat);
    assert(acts.layer_allocated(w, c, l));
    let caches = super::acts::cache_rooms(c, ctx_len, c.n_layers as nat);
    assert(caches[2 * l] == super::acts::room((ctx_len * c.kv_width()) as int)[0]);
    assert(caches[2 * l + 1] == super::acts::room((ctx_len * c.kv_width()) as int)[0]);
}

/// The norms and the biases are on the device from the start, each in the buffer that is named
/// for it.
pub proof fn law_vectors_are_written(
    acts: GpuActs,
    w: Weights,
    c: ModelConfig,
    ctx_len: usize,
    l: int,
)
    requires
        acts.is_allocated(w, c, ctx_len),
        super::acts::all_rooms(w, c, ctx_len).len() <= usize::MAX,
        0 <= l < c.n_layers,
    ensures
        alloc_of(w, c, ctx_len, acts.attn_norms@[l]).init == Some(w.attn_norm@[l]),
        alloc_of(w, c, ctx_len, acts.ffn_norms@[l]).init == Some(w.ffn_norm@[l]),
        alloc_of(w, c, ctx_len, acts.out_norm).init == Some(w.output_norm),
        acts.q_bias@[l] is Some <==> w.attn_q_bias@[l] is Some,
        acts.k_bias@[l] is Some <==> w.attn_k_bias@[l] is Some,
        acts.v_bias@[l] is Some <==> w.attn_v_bias@[l] is Some,
        acts.q_bias@[l] matches Some(b) ==> alloc_of(w, c, ctx_len, b).init
            == w.attn_q_bias@[l],
        acts.k_bias@[l] matches Some(b) ==> alloc_of(w, c, ctx_len, b).init
            == w.attn_k_bias@[l],
        acts.v_bias@[l] matches Some(b) ==> alloc_of(w, c, ctx_len, b).init
            == w.attn_v_bias@[l],
{
    let n = c.n_layers as nat;
    lemma_cache_rooms(c, ctx_len, n);
    lemma_norm_rooms(w, c, n, l);
    lemma_bias_rooms(w, n, l);
    assert(acts.layer_allocated(w, c, l));
    let all = super::acts::all_rooms(w, c, ctx_len);
    let biases = super::acts::bias_rooms(w, n);
    assert forall|i: int| 0 <= i < biases.len() implies all[4 * n + 2 + i]
        == #[trigger] biases[i] by {}
}

/// No two of the caches share a buffer.
pub proof fn law_caches_are_apart(
    acts: GpuActs,
    w: Weights,
    c: ModelConfig,
    ctx_len: usize,
    l: int,
    m: int,
)
    requires
        acts.is_allocated(w, c, ctx_len),
        super::acts::all_rooms(w, c, ctx_len).len() <= usize::MAX,
        0 <= l < c.n_layers,
        0 <= m < c.n_layers,
    ensures
        acts.k_cache@[l] != acts.v_cache@[m],
        l != m ==> acts.k_cache@[l] != acts.k_cache@[m],
        l != m ==> acts.v_cache@[l] != acts.v_cache@[m],
{
    lemma_cache_rooms(c, ctx_len, c.n_layers as nat);
    assert(acts.layer_allocated(w, c, l));
    assert(acts.layer_allocated(w, c, m));
}

/// The rows of every token of a batch lie within the batch buffers.
pub proof fn law_batch_rows_fit(
    acts: GpuActs,
    w: Weights,
    c: ModelConfig,
    ctx_len: usize,
    i: int,
)
    requires
        acts.is_allocated(w, c, ctx_len),
        super::acts::rooms_fit(w, c, ctx_len),
        super::acts::all_rooms(w, c, ctx_len).len() <= usize::MAX,
        0 <= i < acts.max_batch,
    ensures
        (i + 1) * c.n_embd * 4 <= alloc_of(w, c, ctx_len, acts.x_batch).bytes,
        (i + 1) * c.n_embd * 4 <= alloc_of(w, c, ctx_len, acts.xn_batch).bytes,
        (i + 1) * c.q_width() * 4 <= alloc_of(w, c, ctx_len, acts.q_batch).bytes,
        (i + 1) * c.kv_width() * 4 <= alloc_of(w, c, ctx_len, acts.k_batch).bytes,
        (i + 1) * c.kv_width() * 4 <= alloc_of(w, c, ctx_len, acts.v_batch).bytes,
        (i + 1) * c.n_embd * 4 <= alloc_of(w, c, ctx_len, acts.ao_batch).bytes,
        (i + 1) * c.n_embd * 4 <= alloc_of(w, c, ctx_len, acts.proj_batch).bytes,
        (i + 1) * c.n_ff * 4 <= alloc_of(w, c, ctx_len, acts.gate_batch).bytes,
        (i + 1) * c.n_ff * 4 <= alloc_of(w, c, ctx_len, acts.up_batch).bytes,
        (i + 1) * c.n_embd * 4 <= alloc_of(w, c, ctx_len, acts.ff_batch).bytes,
{
    let b = acts.max_batch as int;
    let at = super::acts::model_rooms(w, c, ctx_len).len() as int;
    let all = super::acts::all_rooms(w, c, ctx_len);
    let rows = super::acts::batch_rooms(c, super::acts::batch_rows(ctx_len));
    assert(all.len() == at + 22);
    assert forall|j: int| 0 <= j < 10 implies all[at + 12 + j] == #[trigger] rows[j] by {}
    lemma_rows(i + 1, b, c.n_embd as int);
    lemma_rows(i + 1, b, c.n_ff as int);
    lemma_rows(i + 1, b, c.q_width() as int);
    lemma_rows(i + 1, b, c.kv_width() as int);
    lemma_batch_rooms(c, super::acts::batch_rows(ctx_len));
}

/// The sizes of the batch buffers.
proof fn lemma_batch_rooms(c: ModelConfig, b: usize)
    ensures
        ({
            let rows = super::acts::batch_rooms(c, b);
            &&& rows.len() == 10
            &&& rows[0].bytes == (b * c.n_embd * 4) as u64
            &&& rows[1].bytes == (b * c.n_embd * 4) as u64
            &&& rows[2].bytes == (b * c.q_width() * 4) as u64
            &&& rows[3].bytes == (b * c.kv_width() * 4) as u64
            &&& rows[4].bytes == (b * c.kv_width() * 4) as u64
            &&& rows[5].bytes == (b * c.n_embd * 4) as u64
            &&& rows[6].bytes == (b * c.n_embd * 4) as u64
            &&& rows[7].bytes == (b * c.n_ff * 4) as u64
            &&& rows[8].bytes == (b * c.n_ff * 4) as u64
            &&& rows[9].bytes == (b * c.n_embd * 4) as u64
        }),
{
}

proof fn lemma_rows(i: int, b: int, width: int)
    requires
        0 <= i <= b,
        0 <= width,
    ensures
        i * width * 4 <= b * width * 4,
{
    assert(i * width <= b * width) by (nonlinear_arith)
        requires
            0 <= i <= b,
            0 <= width,
    ;
}

} // verus!
