//! However a prompt is evaluated, the keys and values of each of its positions are written to
//! the cache once, in order.
use vstd::prelude::*;

use super::gpu::{ActBuf, GpuActs, GpuCmd};
use super::llama::LlamaModel;

verus! {

/// `n` positions from `from` on.
pub open spec fn positions(from: int, n: nat) -> Seq<int> {
    Seq::new(n, |i: int| from + i)
}

/// The positions that a command writes to this cache of keys.
pub open spec fn cmd_writes(cmd: GpuCmd, cache: ActBuf) -> Seq<int> {
    match cmd {
        GpuCmd::KvWrite { k_cache, pos, .. } => if k_cache == cache {
            positions(pos as int, 1)
        } else {
            Seq::empty()
        },
        GpuCmd::BatchKvWrite { k_cache, pos, batch, .. } => if k_cache == cache {
            positions(pos as int, batch as nat)
        } else {
            Seq::empty()
        },
        _ => Seq::empty(),
    }
}

/// The positions that commands write to this cache of keys, in order. The values go to the cache
/// of values of the same layer.
pub open spec fn writes(cmds: Seq<GpuCmd>, cache: ActBuf) -> Seq<int>
    decreases cmds.len(),
{
    if cmds.len() == 0 {
        Seq::empty()
    } else {
        writes(cmds.drop_last(), cache) + cmd_writes(cmds.last(), cache)
    }
}

/// No two layers share a cache of keys.
pub open spec fn caches_apart(ga: GpuActs, n_layers: int) -> bool {
    forall|l: int, m: int|
        0 <= l < n_layers && 0 <= m < n_layers && l != m ==> #[trigger] ga.k_cache@[l]
            != #[trigger] ga.k_cache@[m]
}

/// None of the commands writes to a cache.
pub open spec fn writes_nothing(cmds: Seq<GpuCmd>) -> bool {
    forall|i: int|
        0 <= i < cmds.len() ==> !((#[trigger] cmds[i]) is KvWrite) && !(cmds[i] is BatchKvWrite)
}

proof fn lemma_sum(a: Seq<GpuCmd>, b: Seq<GpuCmd>, cache: ActBuf)
    ensures
        writes(a + b, cache) == writes(a, cache) + writes(b, cache),
    decreases b.len(),
{
    if b.len() == 0 {
        assert(a + b =~= a);
        assert(writes(a, cache) + writes(b, cache) =~= writes(a, cache));
    } else {
        assert((a + b).drop_last() =~= a + b.drop_last());
        lemma_sum(a, b.drop_last(), cache);
        assert(writes(a + b, cache) =~= writes(a, cache) + writes(b, cache));
    }
}

proof fn lemma_one(cmd: GpuCmd, cache: ActBuf)
    ensures
        writes(seq![cmd], cache) == cmd_writes(cmd, cache),
{
    let s = seq![cmd];
    assert(s.drop_last() =~= Seq::empty());
    assert(writes(s.drop_last(), cache) =~= Seq::empty());
    assert(writes(s, cache) =~= cmd_writes(cmd, cache));
}

proof fn lemma_nothing(cmds: Seq<GpuCmd>, cache: ActBuf)
    requires
        writes_nothing(cmds),
    ensures
        writes(cmds, cache) == Seq::<int>::empty(),
    decreases cmds.len(),
{
    if cmds.len() > 0 {
        let rest = cmds.drop_last();
        assert forall|i: int| 0 <= i < rest.len() implies !((#[trigger] rest[i]) is KvWrite) && !(
        rest[i] is BatchKvWrite) by {
            assert(rest[i] == cmds[i]);
        }
        lemma_nothing(rest, cache);
        assert(!(cmds[cmds.len() - 1] is KvWrite));
        assert(writes(cmds, cache) =~= Seq::empty());
    }
}

/// Commands around others that write nothing do not count.
proof fn lemma_around(a: Seq<GpuCmd>, b: Seq<GpuCmd>, c: Seq<GpuCmd>, cache: ActBuf)
    requires
        writes_nothing(a),
        writes_nothing(c),
    ensures
        writes(a + b + c, cache) == writes(b, cache),
{
    lemma_nothing(a, cache);
    lemma_nothing(c, cache);
    lemma_sum(a, b, cache);
    lemma_sum(a + b, c, cache);
    assert(writes(a + b + c, cache) =~= writes(b, cache));
}

/// What layer `m` writes to the cache of layer `l`.
pub open spec fn layer_writes(m: int, l: int, pos: int, b: nat) -> Seq<int> {
    if m == l {
        positions(pos, b)
    } else {
        Seq::empty()
    }
}

/// What the first `k` layers write to the cache of layer `l`.
pub open spec fn layers_writes(k: int, l: int, pos: int, b: nat) -> Seq<int> {
    if l < k {
        positions(pos, b)
    } else {
        Seq::empty()
    }
}

proof fn lemma_layer(model: LlamaModel, m: int, l: int, pos: int)
    requires
        model.gpu_acts is Some,
        caches_apart(model.gpu_acts->0, model.config.n_layers as int),
        0 <= m < model.config.n_layers,
        0 <= l < model.config.n_layers,
        0 <= pos <= u32::MAX,
    ensures
        writes(
            super::record::layer_cmds(
                model.config,
                model.gpu_w->0,
                model.gpu_acts->0,
                m,
                pos,
            ),
            (model.gpu_acts->0).k_cache@[l],
        ) == layer_writes(m, l, pos, 1),
{
    let (c, gw, ga) = (model.config, model.gpu_w->0, model.gpu_acts->0);
    let cache = ga.k_cache@[l];
    let rope = GpuCmd::Rope {
        q: ga.q,
        k: ga.k,
        n_heads: c.n_heads as u32,
        n_kv_heads: c.n_kv_heads as u32,
        head_dim: c.head_dim as u32,
        pos: pos as u32,
    };
    let write = GpuCmd::KvWrite {
        k: ga.k,
        v: ga.v,
        k_cache: ga.k_cache@[m],
        v_cache: ga.v_cache@[m],
        pos: pos as u32,
        n_kv_heads: c.n_kv_heads as u32,
        head_dim: c.head_dim as u32,
    };
    let attend = super::record::attend_stretch(c, ga, m, pos);
    let attention = super::record::fenced(
        GpuCmd::Attention {
            q: ga.q,
            k_cache: ga.k_cache@[m],
            v_cache: ga.v_cache@[m],
            dst: ga.attn_out,
            scores: ga.scores,
            n_heads: c.n_heads as u32,
            n_kv_heads: c.n_kv_heads as u32,
            head_dim: c.head_dim as u32,
            seq_len: (pos + 1) as u32,
            ctx_len: ga.ctx_len as u32,
        },
    );
    lemma_around(super::record::fenced(rope), super::record::fenced(write), attention, cache);
    lemma_one(write, cache);
    lemma_nothing(seq![GpuCmd::Barrier], cache);
    lemma_sum(seq![write], seq![GpuCmd::Barrier], cache);
    assert(writes(attend, cache) =~= layer_writes(m, l, pos, 1));
    let s1 = super::record::norm_stretch(c, ga, m);
    let s2 = s1 + super::record::qkv_stretch(gw, ga, m);
    let before = s2 + super::record::bias_stretch(c, ga, m);
    let p = super::record::project_stretch(c, gw, ga, m);
    let f = super::record::feed_stretch(c, gw, ga, m);
    let r = super::record::fenced(super::record::residual_cmd(c, ga));
    assert(writes_nothing(super::record::bias_stretch(c, ga, m)));
    assert(writes_nothing(super::record::qkv_stretch(gw, ga, m)));
    assert(writes_nothing(s2));
    assert(writes_nothing(before));
    assert(writes_nothing(p));
    assert(writes_nothing(f));
    lemma_around(before, attend, p, cache);
    lemma_nothing(f, cache);
    lemma_nothing(r, cache);
    lemma_sum(before + attend + p, f, cache);
    lemma_sum(before + attend + p + f, r, cache);
    assert(writes(before + attend + p + f + r, cache) =~= layer_writes(m, l, pos, 1));
}

proof fn lemma_layers(model: LlamaModel, l: int, pos: int, k: nat)
    requires
        model.gpu_acts is Some,
        caches_apart(model.gpu_acts->0, model.config.n_layers as int),
        0 <= l < model.config.n_layers,
        k <= model.config.n_layers,
        0 <= pos <= u32::MAX,
    ensures
        writes(
            super::llama::layers_cmds(
                model.config,
                model.gpu_w->0,
                model.gpu_acts->0,
                pos,
                k,
            ),
            (model.gpu_acts->0).k_cache@[l],
        ) == layers_writes(k as int, l, pos, 1),
    decreases k,
{
    if k > 0 {
        let (c, gw, ga) = (model.config, model.gpu_w->0, model.gpu_acts->0);
        lemma_layers(model, l, pos, (k - 1) as nat);
        lemma_layer(model, k - 1, l, pos);
        lemma_sum(
            super::llama::layers_cmds(c, gw, ga, pos, (k - 1) as nat),
            super::record::layer_cmds(c, gw, ga, k - 1, pos),
            ga.k_cache@[l],
        );
        assert(layers_writes(k - 1, l, pos, 1) + layer_writes(k - 1, l, pos, 1)
            =~= layers_writes(k as int, l, pos, 1));
    }
}

proof fn lemma_positions_sum(from: int, a: nat, b: nat)
    ensures
        positions(from, a) + positions(from + a, b) == positions(from, a + b),
{
    assert(positions(from, a) + positions(from + a, b) =~= positions(from, a + b));
}

proof fn lemma_tokens(model: LlamaModel, l: int, start: int, from: int, to: int)
    requires
        model.gpu_acts is Some,
        caches_apart(model.gpu_acts->0, model.config.n_layers as int),
        0 <= l < model.config.n_layers,
        0 <= start,
        0 <= from <= to,
        start + to <= u32::MAX,
    ensures
        writes(model.tokens_cmds(start, from, to), (model.gpu_acts->0).k_cache@[l]) == positions(
            start + from,
            (to - from) as nat,
        ),
    decreases to - from,
{
    let cache = (model.gpu_acts->0).k_cache@[l];
    if from < to {
        let (c, gw, ga) = (model.config, model.gpu_w->0, model.gpu_acts->0);
        let copy = GpuCmd::CopyToAct {
            dst: ga.x,
            src: super::gpu::CopySource::Staging,
            offset: ((to - 1) * c.n_embd * 4) as u64,
        };
        let pos = start + (to - 1);
        let layers = super::llama::layers_cmds(c, gw, ga, pos, c.n_layers as nat);
        lemma_tokens(model, l, start, from, to - 1);
        lemma_layers(model, l, pos, c.n_layers as nat);
        lemma_nothing(seq![copy], cache);
        lemma_sum(seq![copy], layers, cache);
        lemma_sum(
            model.tokens_cmds(start, from, to - 1),
            model.token_cmds(start, to - 1),
            cache,
        );
        assert(writes(model.token_cmds(start, to - 1), cache) =~= positions(pos, 1));
        lemma_positions_sum(start + from, (to - 1 - from) as nat, 1);
        assert(start + from + (to - 1 - from) as nat == pos);
        assert((to - 1 - from) as nat + 1 == (to - from) as nat);
    } else {
        assert(positions(start + from, 0) =~= Seq::empty());
    }
}

proof fn lemma_chunks(model: LlamaModel, l: int, start: int, from: int, n: int, size: int)
    requires
        model.gpu_acts is Some,
        caches_apart(model.gpu_acts->0, model.config.n_layers as int),
        0 <= l < model.config.n_layers,
        0 <= start,
        0 <= from <= n,
        size >= 1,
        start + n <= u32::MAX,
    ensures
        writes(model.chunks_cmds(start, from, n, size), (model.gpu_acts->0).k_cache@[l])
            == positions(start + from, (n - from) as nat),
    decreases n - from,
{
    let cache = (model.gpu_acts->0).k_cache@[l];
    if from < n {
        let to = super::prefill::chunk_end(from, size, n);
        let begin = GpuCmd::BeginForSets {
            sets: super::prefill::gemv_sets(model.config.n_layers as int, to - from) as u32,
        };
        let chunk = model.chunk_cmds(start, from, to, n);
        lemma_tokens(model, l, start, from, to);
        assert(writes_nothing(model.close_cmds(to == n)));
        lemma_around(
            seq![begin],
            model.tokens_cmds(start, from, to),
            model.close_cmds(to == n),
            cache,
        );
        lemma_chunks(model, l, start, to, n, size);
        lemma_sum(chunk, model.chunks_cmds(start, to, n, size), cache);
        lemma_positions_sum(start + from, (to - from) as nat, (n - to) as nat);
    } else {
        assert(positions(start + from, 0) =~= Seq::empty());
    }
}

/// Evaluating a prompt a token at a time writes each of its positions to the cache of each
/// layer once, in order.
pub proof fn law_prompt_fills_cache(model: LlamaModel, l: int, start: int, n: int, size: int)
    requires
        model.gpu_acts is Some,
        caches_apart(model.gpu_acts->0, model.config.n_layers as int),
        0 <= l < model.config.n_layers,
        0 <= start,
        0 <= n,
        size >= 1,
        start + n <= u32::MAX,
    ensures
        writes(model.prefill_cmds(start, n, size), (model.gpu_acts->0).k_cache@[l]) == positions(
            start,
            n as nat,
        ),
{
    let ga = model.gpu_acts->0;
    let end = seq![
        GpuCmd::FreeStaging,
        GpuCmd::ReadLogits { logits: ga.logits, readback: ga.logits_rb },
    ];
    lemma_chunks(model, l, start, 0, n, size);
    assert(writes_nothing(end));
    lemma_nothing(end, ga.k_cache@[l]);
    lemma_sum(model.chunks_cmds(start, 0, n, size), end, ga.k_cache@[l]);
    assert(positions(start, n as nat) + Seq::<int>::empty() =~= positions(start, n as nat));
}

pub(crate) proof fn lemma_batch_items(model: LlamaModel, l: int, pos: int, b: int, k: int)
    ensures
        writes_nothing(model.batch_items(l, pos, b, k)),
    decreases k,
{
    if k > 0 {
        lemma_batch_items(model, l, pos, b, k - 1);
        let less = model.batch_items(l, pos, b, k - 1);
        let all = model.batch_items(l, pos, b, k);
        assert forall|i: int| 0 <= i < all.len() implies !((#[trigger] all[i]) is KvWrite) && !(
        all[i] is BatchKvWrite) by {
            if i < less.len() {
                assert(all[i] == less[i]);
            } else if i == less.len() {
                assert(all[i] == model.batch_item_cmd(l, pos, k - 1));
            } else {
                assert(all[i] == GpuCmd::Barrier);
            }
        }
    }
}

proof fn lemma_batch_layer(model: LlamaModel, m: int, l: int, pos: int, b: int)
    requires
        model.gpu_acts is Some,
        caches_apart(model.gpu_acts->0, model.config.n_layers as int),
        0 <= m < model.config.n_layers,
        0 <= l < model.config.n_layers,
        0 <= pos <= u32::MAX,
        0 <= b <= u32::MAX,
    ensures
        writes(model.batch_layer_cmds(m, pos, b), (model.gpu_acts->0).k_cache@[l])
            == layer_writes(m, l, pos, b as nat),
{
    let (c, ga) = (model.config, model.gpu_acts->0);
    let cache = ga.k_cache@[l];
    let rope = GpuCmd::BatchRope {
        q: ga.q_batch,
        k: ga.k_batch,
        n_heads: c.n_heads as u32,
        n_kv_heads: c.n_kv_heads as u32,
        head_dim: c.head_dim as u32,
        pos: pos as u32,
        batch: b as u32,
    };
    let write = GpuCmd::BatchKvWrite {
        k: ga.k_batch,
        v: ga.v_batch,
        k_cache: ga.k_cache@[m],
        v_cache: ga.v_cache@[m],
        pos: pos as u32,
        n_kv_heads: c.n_kv_heads as u32,
        head_dim: c.head_dim as u32,
        batch: b as u32,
    };
    let stretch = model.batch_write_stretch(m, pos, b);
    lemma_nothing(super::record::fenced(rope), cache);
    lemma_sum(super::record::fenced(rope), super::record::fenced(write), cache);
    lemma_one(write, cache);
    lemma_nothing(seq![GpuCmd::Barrier], cache);
    lemma_sum(seq![write], seq![GpuCmd::Barrier], cache);
    assert(writes(stretch, cache) =~= layer_writes(m, l, pos, b as nat));
    let qkv = model.batch_qkv_stretch(m, b);
    let before = qkv + model.batch_bias_stretch(m, b);
    let items = model.batch_items(m, pos, b, b);
    let out = model.batch_out_stretch(m, b);
    let feed = model.batch_feed_stretch(m, b);
    assert(writes_nothing(qkv));
    assert(writes_nothing(model.batch_bias_stretch(m, b)));
    assert(writes_nothing(before));
    lemma_batch_items(model, m, pos, b, b);
    assert(writes_nothing(out));
    assert(writes_nothing(feed));
    lemma_around(before, stretch, items, cache);
    lemma_nothing(out, cache);
    lemma_nothing(feed, cache);
    lemma_sum(before + stretch + items, out, cache);
    lemma_sum(before + stretch + items + out, feed, cache);
    assert(writes(before + stretch + items + out + feed, cache) =~= layer_writes(
        m,
        l,
        pos,
        b as nat,
    ));
}

proof fn lemma_batch_layers(model: LlamaModel, l: int, pos: int, b: int, k: nat)
    requires
        model.gpu_acts is Some,
        caches_apart(model.gpu_acts->0, model.config.n_layers as int),
        0 <= l < model.config.n_layers,
        k <= model.config.n_layers,
        0 <= pos <= u32::MAX,
        0 <= b <= u32::MAX,
    ensures
        writes(model.batch_layers_cmds(pos, b, k), (model.gpu_acts->0).k_cache@[l])
            == layers_writes(k as int, l, pos, b as nat),
    decreases k,
{
    if k > 0 {
        lemma_batch_layers(model, l, pos, b, (k - 1) as nat);
        lemma_batch_layer(model, k - 1, l, pos, b);
        lemma_sum(
            model.batch_layers_cmds(pos, b, (k - 1) as nat),
            model.batch_layer_cmds(k - 1, pos, b),
            (model.gpu_acts->0).k_cache@[l],
        );
        assert(layers_writes(k - 1, l, pos, b as nat) + layer_writes(k - 1, l, pos, b as nat)
            =~= layers_writes(k as int, l, pos, b as nat));
    }
}

proof fn lemma_batches(model: LlamaModel, l: int, start: int, from: int, n: int, size: int)
    requires
        model.gpu_acts is Some,
        caches_apart(model.gpu_acts->0, model.config.n_layers as int),
        0 <= l < model.config.n_layers,
        0 <= start,
        0 <= from <= n,
        size >= 1,
        start + n <= u32::MAX,
    ensures
        writes(model.batches_cmds(start, from, n, size), (model.gpu_acts->0).k_cache@[l])
            == positions(start + from, (n - from) as nat),
    decreases n - from,
{
    let cache = (model.gpu_acts->0).k_cache@[l];
    if from < n {
        let to = super::prefill::chunk_end(from, size, n);
        let b = to - from;
        let open = model.batch_open_cmds(from, b);
        let layers = model.batch_layers_cmds(start + from, b, model.config.n_layers as nat);
        let close = model.batch_close_cmds(b, to == n);
        lemma_batch_layers(model, l, start + from, b, model.config.n_layers as nat);
        assert(writes_nothing(open));
        assert(writes_nothing(close));
        lemma_around(open, layers, close, cache);
        lemma_batches(model, l, start, to, n, size);
        lemma_sum(
            model.batch_cmds(start, from, to, n),
            model.batches_cmds(start, to, n, size),
            cache,
        );
        lemma_positions_sum(start + from, (to - from) as nat, (n - to) as nat);
    } else {
        assert(positions(start + from, 0) =~= Seq::empty());
    }
}

/// Evaluating a prompt in batches writes each of its positions to the cache of each layer once,
/// in order, as evaluating it a token at a time does.
pub proof fn law_batches_fill_cache(model: LlamaModel, l: int, start: int, n: int, size: int)
    requires
        model.gpu_acts is Some,
        caches_apart(model.gpu_acts->0, model.config.n_layers as int),
        0 <= l < model.config.n_layers,
        0 <= start,
        0 <= n,
        size >= 1,
        start + n <= u32::MAX,
    ensures
        writes(model.prefill_gemm_cmds(start, n, size), (model.gpu_acts->0).k_cache@[l])
            == positions(start, n as nat),
{
    let ga = model.gpu_acts->0;
    let read = seq![GpuCmd::ReadLogits { logits: ga.logits, readback: ga.logits_rb }];
    lemma_batches(model, l, start, 0, n, size);
    assert(writes_nothing(read));
    lemma_nothing(read, ga.k_cache@[l]);
    lemma_sum(model.batches_cmds(start, 0, n, size), read, ga.k_cache@[l]);
    assert(positions(start, n as nat) + Seq::<int>::empty() =~= positions(start, n as nat));
}

/// The caches of a loaded model are apart, as the laws above ask.
pub proof fn law_allocated_caches_are_apart(
    acts: GpuActs,
    w: super::weights::Weights,
    c: super::config::ModelConfig,
    ctx_len: usize,
)
    requires
        acts.is_allocated(w, c, ctx_len),
        super::acts::all_rooms(w, c, ctx_len).len() <= usize::MAX,
    ensures
        caches_apart(acts, c.n_layers as int),
{
    assert forall|l: int, m: int|
        0 <= l < c.n_layers && 0 <= m < c.n_layers && l != m implies #[trigger] acts.k_cache@[l]
        != #[trigger] acts.k_cache@[m] by {
        super::laws_acts::law_caches_are_apart(acts, w, c, ctx_len, l, m);
    }
}

} // verus!
