//! However a prompt is evaluated, each key is turned by the position at which it is written.
use vstd::prelude::*;

use super::gpu::{ActBuf, GpuCmd};
use super::llama::LlamaModel;

verus! {

/// The positions that the last turn of the keys in `k` turned them by.
pub open spec fn last_turn(cmds: Seq<GpuCmd>, k: ActBuf) -> Seq<int>
    decreases cmds.len(),
{
    if cmds.len() == 0 {
        Seq::empty()
    } else {
        match cmds.last() {
            GpuCmd::Rope { k: turned, pos, .. } => if turned == k {
                super::laws_cache::positions(pos as int, 1)
            } else {
                last_turn(cmds.drop_last(), k)
            },
            GpuCmd::BatchRope { k: turned, pos, batch, .. } => if turned == k {
                super::laws_cache::positions(pos as int, batch as nat)
            } else {
                last_turn(cmds.drop_last(), k)
            },
            _ => last_turn(cmds.drop_last(), k),
        }
    }
}

/// The positions that the keys had been turned by which are written to this cache, in order.
pub open spec fn turns(cmds: Seq<GpuCmd>, cache: ActBuf) -> Seq<int>
    decreases cmds.len(),
{
    if cmds.len() == 0 {
        Seq::empty()
    } else {
        let before = cmds.drop_last();
        match cmds.last() {
            GpuCmd::KvWrite { k, k_cache, .. } => if k_cache == cache {
                turns(before, cache) + last_turn(before, k)
            } else {
                turns(before, cache)
            },
            GpuCmd::BatchKvWrite { k, k_cache, .. } => if k_cache == cache {
                turns(before, cache) + last_turn(before, k)
            } else {
                turns(before, cache)
            },
            _ => turns(before, cache),
        }
    }
}

/// Commands that write nothing add nothing.
proof fn lemma_then_nothing(x: Seq<GpuCmd>, y: Seq<GpuCmd>, cache: ActBuf)
    requires
        super::laws_cache::writes_nothing(y),
    ensures
        turns(x + y, cache) == turns(x, cache),
    decreases y.len(),
{
    if y.len() == 0 {
        assert(x + y =~= x);
    } else {
        let rest = y.drop_last();
        assert((x + y).drop_last() =~= x + rest);
        assert(forall|i: int| 0 <= i < rest.len() ==> #[trigger] rest[i] == y[i]);
        lemma_then_nothing(x, rest, cache);
        assert(!(y[y.len() - 1] is KvWrite) && !(y[y.len() - 1] is BatchKvWrite));
        assert((x + y).last() == y.last());
    }
}

/// One command more.
proof fn lemma_then(x: Seq<GpuCmd>, cmd: GpuCmd)
    ensures
        (x + seq![cmd]).drop_last() == x,
        (x + seq![cmd]).last() == cmd,
{
    assert((x + seq![cmd]).drop_last() =~= x);
}

/// A turn and the write after it.
proof fn lemma_turned_write(
    x: Seq<GpuCmd>,
    rope: GpuCmd,
    write: GpuCmd,
    k: ActBuf,
    own: ActBuf,
    cache: ActBuf,
    turned: Seq<int>,
)
    requires
        match rope {
            GpuCmd::Rope { k: a, pos, .. } => a == k && turned == super::laws_cache::positions(
                pos as int,
                1,
            ),
            GpuCmd::BatchRope { k: a, pos, batch, .. } => a == k && turned
                == super::laws_cache::positions(pos as int, batch as nat),
            _ => false,
        },
        match write {
            GpuCmd::KvWrite { k: a, k_cache, .. } => a == k && k_cache == own,
            GpuCmd::BatchKvWrite { k: a, k_cache, .. } => a == k && k_cache == own,
            _ => false,
        },
    ensures
        turns(x + (super::record::fenced(rope) + super::record::fenced(write)), cache) == turns(
            x,
            cache,
        ) + if own == cache {
            turned
        } else {
            Seq::empty()
        },
{
    let x1 = x + seq![rope];
    let x2 = x1 + seq![GpuCmd::Barrier];
    let x3 = x2 + seq![write];
    let x4 = x3 + seq![GpuCmd::Barrier];
    lemma_then(x, rope);
    lemma_then(x1, GpuCmd::Barrier);
    lemma_then(x2, write);
    lemma_then(x3, GpuCmd::Barrier);
    assert(last_turn(x1, k) == turned);
    assert(last_turn(x2, k) == turned);
    assert(turns(x1, cache) == turns(x, cache));
    assert(turns(x2, cache) == turns(x1, cache));
    assert(turns(x4, cache) == turns(x3, cache));
    assert(turns(x3, cache) =~= turns(x, cache) + if own == cache {
        turned
    } else {
        Seq::empty()
    });
    assert(x + (super::record::fenced(rope) + super::record::fenced(write)) =~= x4);
}

proof fn lemma_layer(x: Seq<GpuCmd>, model: LlamaModel, m: int, l: int, pos: int)
    requires
        model.gpu_acts is Some,
        super::laws_cache::caches_apart(model.gpu_acts->0, model.config.n_layers as int),
        0 <= m < model.config.n_layers,
        0 <= l < model.config.n_layers,
        0 <= pos <= u32::MAX,
    ensures
        turns(
            x + super::record::layer_cmds(
                model.config,
                model.gpu_w->0,
                model.gpu_acts->0,
                m,
                pos,
            ),
            (model.gpu_acts->0).k_cache@[l],
        ) == turns(x, (model.gpu_acts->0).k_cache@[l]) + super::laws_cache::layer_writes(
            m,
            l,
            pos,
            1,
        ),
{
    let (c, gw, ga) = (model.config, model.gpu_w->0, model.gpu_acts->0);
    let cache = ga.k_cache@[l];
    let attend = super::record::attend_stretch(c, ga, m, pos);
    let n = super::record::norm_stretch(c, ga, m);
    let q = super::record::qkv_stretch(gw, ga, m);
    let b = super::record::bias_stretch(c, ga, m);
    let first = super::record::fenced(attend[0]) + super::record::fenced(attend[2]);
    let attention = super::record::fenced(attend[4]);
    let p = super::record::project_stretch(c, gw, ga, m);
    let f = super::record::feed_stretch(c, gw, ga, m);
    let r = super::record::fenced(super::record::residual_cmd(c, ga));
    assert(attend =~= first + attention);
    assert(super::laws_cache::writes_nothing(q));
    assert(super::laws_cache::writes_nothing(b));
    assert(super::laws_cache::writes_nothing(p));
    assert(super::laws_cache::writes_nothing(f));
    lemma_then_nothing(x, n, cache);
    lemma_then_nothing(x + n, q, cache);
    lemma_then_nothing(x + n + q, b, cache);
    let y = x + n + q + b;
    let turned = super::laws_cache::positions(pos, 1);
    lemma_turned_write(y, attend[0], attend[2], ga.k, ga.k_cache@[m], cache, turned);
    lemma_then_nothing(y + first, attention, cache);
    lemma_then_nothing(y + first + attention, p, cache);
    lemma_then_nothing(y + first + attention + p, f, cache);
    lemma_then_nothing(y + first + attention + p + f, r, cache);
    assert(y + first + attention =~= y + attend);
    assert(y + attend + p + f + r =~= x + super::record::layer_cmds(c, gw, ga, m, pos));
}

proof fn lemma_layers(x: Seq<GpuCmd>, model: LlamaModel, l: int, pos: int, k: nat)
    requires
        model.gpu_acts is Some,
        super::laws_cache::caches_apart(model.gpu_acts->0, model.config.n_layers as int),
        0 <= l < model.config.n_layers,
        k <= model.config.n_layers,
        0 <= pos <= u32::MAX,
    ensures
        turns(
            x + super::llama::layers_cmds(
                model.config,
                model.gpu_w->0,
                model.gpu_acts->0,
                pos,
                k,
            ),
            (model.gpu_acts->0).k_cache@[l],
        ) == turns(x, (model.gpu_acts->0).k_cache@[l]) + super::laws_cache::layers_writes(
            k as int,
            l,
            pos,
            1,
        ),
    decreases k,
{
    let (c, gw, ga) = (model.config, model.gpu_w->0, model.gpu_acts->0);
    let cache = ga.k_cache@[l];
    let all = super::llama::layers_cmds(c, gw, ga, pos, k);
    if k > 0 {
        let less = super::llama::layers_cmds(c, gw, ga, pos, (k - 1) as nat);
        lemma_layers(x, model, l, pos, (k - 1) as nat);
        lemma_layer(x + less, model, k - 1, l, pos);
        assert(x + less + super::record::layer_cmds(c, gw, ga, k - 1, pos) =~= x + all);
    } else {
        assert(x + all =~= x);
    }
    assert(turns(x + all, cache) =~= turns(x, cache) + super::laws_cache::layers_writes(
        k as int,
        l,
        pos,
        1,
    ));
}

proof fn lemma_tokens(x: Seq<GpuCmd>, model: LlamaModel, l: int, start: int, from: int, to: int)
    requires
        model.gpu_acts is Some,
        super::laws_cache::caches_apart(model.gpu_acts->0, model.config.n_layers as int),
        0 <= l < model.config.n_layers,
        0 <= start,
        0 <= from <= to,
        start + to <= u32::MAX,
    ensures
        turns(x + model.tokens_cmds(start, from, to), (model.gpu_acts->0).k_cache@[l]) == turns(
            x,
            (model.gpu_acts->0).k_cache@[l],
        ) + super::laws_cache::positions(start + from, (to - from) as nat),
    decreases to - from,
{
    let (c, gw, ga) = (model.config, model.gpu_w->0, model.gpu_acts->0);
    let cache = ga.k_cache@[l];
    let all = model.tokens_cmds(start, from, to);
    if from < to {
        let pos = start + (to - 1);
        let less = model.tokens_cmds(start, from, to - 1);
        let token = model.token_cmds(start, to - 1);
        let layers = super::llama::layers_cmds(c, gw, ga, pos, c.n_layers as nat);
        lemma_tokens(x, model, l, start, from, to - 1);
        let copy = seq![token[0]];
        assert(token =~= copy + layers);
        lemma_then_nothing(x + less, copy, cache);
        lemma_layers(x + less + copy, model, l, pos, c.n_layers as nat);
        assert(x + less + copy + layers =~= x + all);
    } else {
        assert(x + all =~= x);
    }
    assert(turns(x + all, cache) =~= turns(x, cache) + super::laws_cache::positions(
        start + from,
        (to - from) as nat,
    ));
}

proof fn lemma_chunks(
    x: Seq<GpuCmd>,
    model: LlamaModel,
    l: int,
    start: int,
    from: int,
    n: int,
    size: int,
)
    requires
        model.gpu_acts is Some,
        super::laws_cache::caches_apart(model.gpu_acts->0, model.config.n_layers as int),
        0 <= l < model.config.n_layers,
        0 <= start,
        0 <= from <= n,
        size >= 1,
        start + n <= u32::MAX,
    ensures
        turns(x + model.chunks_cmds(start, from, n, size), (model.gpu_acts->0).k_cache@[l])
            == turns(x, (model.gpu_acts->0).k_cache@[l]) + super::laws_cache::positions(
            start + from,
            (n - from) as nat,
        ),
    decreases n - from,
{
    let cache = (model.gpu_acts->0).k_cache@[l];
    let all = model.chunks_cmds(start, from, n, size);
    if from < n {
        let to = super::prefill::chunk_end(from, size, n);
        let chunk = model.chunk_cmds(start, from, to, n);
        let begin = seq![chunk[0]];
        let tokens = model.tokens_cmds(start, from, to);
        let close = model.close_cmds(to == n);
        lemma_then_nothing(x, begin, cache);
        lemma_tokens(x + begin, model, l, start, from, to);
        assert(super::laws_cache::writes_nothing(close));
        lemma_then_nothing(x + begin + tokens, close, cache);
        assert(x + begin + tokens + close =~= x + chunk);
        lemma_chunks(x + chunk, model, l, start, to, n, size);
        assert(x + chunk + model.chunks_cmds(start, to, n, size) =~= x + all);
    } else {
        assert(x + all =~= x);
    }
    assert(turns(x + all, cache) =~= turns(x, cache) + super::laws_cache::positions(
        start + from,
        (n - from) as nat,
    ));
}

/// Evaluating a prompt a token at a time turns the keys of each layer by the positions of the
/// prompt, in order: by those at which they are written.
pub proof fn law_prompt_turns_by_position(
    model: LlamaModel,
    l: int,
    start: int,
    n: int,
    size: int,
)
    requires
        model.gpu_acts is Some,
        super::laws_cache::caches_apart(model.gpu_acts->0, model.config.n_layers as int),
        0 <= l < model.config.n_layers,
        0 <= start,
        0 <= n,
        size >= 1,
        start + n <= u32::MAX,
    ensures
        turns(model.prefill_cmds(start, n, size), (model.gpu_acts->0).k_cache@[l]) == Seq::new(
            n as nat,
            |i: int| start + i,
        ),
        turns(model.prefill_cmds(start, n, size), (model.gpu_acts->0).k_cache@[l])
            == super::laws_cache::writes(
            model.prefill_cmds(start, n, size),
            (model.gpu_acts->0).k_cache@[l],
        ),
{
    let ga = model.gpu_acts->0;
    let cache = ga.k_cache@[l];
    let none = Seq::<GpuCmd>::empty();
    let chunks = model.chunks_cmds(start, 0, n, size);
    let end = seq![
        GpuCmd::FreeStaging,
        GpuCmd::ReadLogits { logits: ga.logits, readback: ga.logits_rb },
    ];
    lemma_chunks(none, model, l, start, 0, n, size);
    assert(none + chunks =~= chunks);
    assert(super::laws_cache::writes_nothing(end));
    lemma_then_nothing(chunks, end, cache);
    super::laws_cache::law_prompt_fills_cache(model, l, start, n, size);
    assert(turns(none, cache) + super::laws_cache::positions(start, n as nat) =~= Seq::new(
        n as nat,
        |i: int| start + i,
    ));
}

proof fn lemma_batch_layer(x: Seq<GpuCmd>, model: LlamaModel, m: int, l: int, pos: int, b: int)
    requires
        model.gpu_acts is Some,
        super::laws_cache::caches_apart(model.gpu_acts->0, model.config.n_layers as int),
        0 <= m < model.config.n_layers,
        0 <= l < model.config.n_layers,
        0 <= pos <= u32::MAX,
        0 <= b <= u32::MAX,
    ensures
        turns(x + model.batch_layer_cmds(m, pos, b), (model.gpu_acts->0).k_cache@[l]) == turns(
            x,
            (model.gpu_acts->0).k_cache@[l],
        ) + super::laws_cache::layer_writes(m, l, pos, b as nat),
{
    let ga = model.gpu_acts->0;
    let cache = ga.k_cache@[l];
    let stretch = model.batch_write_stretch(m, pos, b);
    let q = model.batch_qkv_stretch(m, b);
    let bias = model.batch_bias_stretch(m, b);
    let items = model.batch_items(m, pos, b, b);
    let out = model.batch_out_stretch(m, b);
    let feed = model.batch_feed_stretch(m, b);
    assert(super::laws_cache::writes_nothing(q));
    assert(super::laws_cache::writes_nothing(bias));
    assert(super::laws_cache::writes_nothing(out));
    assert(super::laws_cache::writes_nothing(feed));
    super::laws_cache::lemma_batch_items(model, m, pos, b, b);
    lemma_then_nothing(x, q, cache);
    lemma_then_nothing(x + q, bias, cache);
    let y = x + q + bias;
    let turned = super::laws_cache::positions(pos, b as nat);
    assert(stretch =~= super::record::fenced(stretch[0]) + super::record::fenced(stretch[2]));
    lemma_turned_write(y, stretch[0], stretch[2], ga.k_batch, ga.k_cache@[m], cache, turned);
    lemma_then_nothing(y + stretch, items, cache);
    lemma_then_nothing(y + stretch + items, out, cache);
    lemma_then_nothing(y + stretch + items + out, feed, cache);
    assert(y + stretch + items + out + feed =~= x + model.batch_layer_cmds(m, pos, b));
}

proof fn lemma_batch_layers(x: Seq<GpuCmd>, model: LlamaModel, l: int, pos: int, b: int, k: nat)
    requires
        model.gpu_acts is Some,
        super::laws_cache::caches_apart(model.gpu_acts->0, model.config.n_layers as int),
        0 <= l < model.config.n_layers,
        k <= model.config.n_layers,
        0 <= pos <= u32::MAX,
        0 <= b <= u32::MAX,
    ensures
        turns(x + model.batch_layers_cmds(pos, b, k), (model.gpu_acts->0).k_cache@[l]) == turns(
            x,
            (model.gpu_acts->0).k_cache@[l],
        ) + super::laws_cache::layers_writes(k as int, l, pos, b as nat),
    decreases k,
{
    let cache = (model.gpu_acts->0).k_cache@[l];
    let all = model.batch_layers_cmds(pos, b, k);
    if k > 0 {
        let less = model.batch_layers_cmds(pos, b, (k - 1) as nat);
        lemma_batch_layers(x, model, l, pos, b, (k - 1) as nat);
        lemma_batch_layer(x + less, model, k - 1, l, pos, b);
        assert(x + less + model.batch_layer_cmds(k - 1, pos, b) =~= x + all);
    } else {
        assert(x + all =~= x);
    }
    assert(turns(x + all, cache) =~= turns(x, cache) + super::laws_cache::layers_writes(
        k as int,
        l,
        pos,
        b as nat,
    ));
}

proof fn lemma_batches(
    x: Seq<GpuCmd>,
    model: LlamaModel,
    l: int,
    start: int,
    from: int,
    n: int,
    size: int,
)
    requires
        model.gpu_acts is Some,
        super::laws_cache::caches_apart(model.gpu_acts->0, model.config.n_layers as int),
        0 <= l < model.config.n_layers,
        0 <= start,
        0 <= from <= n,
        size >= 1,
        start + n <= u32::MAX,
    ensures
        turns(x + model.batches_cmds(start, from, n, size), (model.gpu_acts->0).k_cache@[l])
            == turns(x, (model.gpu_acts->0).k_cache@[l]) + super::laws_cache::positions(
            start + from,
            (n - from) as nat,
        ),
    decreases n - from,
{
    let cache = (model.gpu_acts->0).k_cache@[l];
    let all = model.batches_cmds(start, from, n, size);
    if from < n {
        let to = super::prefill::chunk_end(from, size, n);
        let b = to - from;
        let batch = model.batch_cmds(start, from, to, n);
        let open = model.batch_open_cmds(from, b);
        let layers = model.batch_layers_cmds(start + from, b, model.config.n_layers as nat);
        let close = model.batch_close_cmds(b, to == n);
        assert(super::laws_cache::writes_nothing(open));
        assert(super::laws_cache::writes_nothing(close));
        lemma_then_nothing(x, open, cache);
        lemma_batch_layers(x + open, model, l, start + from, b, model.config.n_layers as nat);
        lemma_then_nothing(x + open + layers, close, cache);
        assert(x + open + layers + close =~= x + batch);
        lemma_batches(x + batch, model, l, start, to, n, size);
        assert(x + batch + model.batches_cmds(start, to, n, size) =~= x + all);
    } else {
        assert(x + all =~= x);
    }
    assert(turns(x + all, cache) =~= turns(x, cache) + super::laws_cache::positions(
        start + from,
        (n - from) as nat,
    ));
}

/// Evaluating a prompt in batches turns the keys of each layer by the positions of the prompt,
/// in order: by those at which they are written, and by the same as an evaluation a token at a
/// time.
pub proof fn law_batches_turn_by_position(
    model: LlamaModel,
    l: int,
    start: int,
    n: int,
    size: int,
    other: int,
)
    requires
        model.gpu_acts is Some,
        super::laws_cache::caches_apart(model.gpu_acts->0, model.config.n_layers as int),
        0 <= l < model.config.n_layers,
        0 <= start,
        0 <= n,
        size >= 1,
        other >= 1,
        start + n <= u32::MAX,
    ensures
        turns(model.prefill_gemm_cmds(start, n, size), (model.gpu_acts->0).k_cache@[l])
            == Seq::new(n as nat, |i: int| start + i),
        turns(model.prefill_gemm_cmds(start, n, size), (model.gpu_acts->0).k_cache@[l])
            == super::laws_cache::writes(
            model.prefill_gemm_cmds(start, n, size),
            (model.gpu_acts->0).k_cache@[l],
        ),
        turns(model.prefill_gemm_cmds(start, n, size), (model.gpu_acts->0).k_cache@[l]) == turns(
            model.prefill_cmds(start, n, other),
            (model.gpu_acts->0).k_cache@[l],
        ),
{
    let ga = model.gpu_acts->0;
    let cache = ga.k_cache@[l];
    let none = Seq::<GpuCmd>::empty();
    let batches = model.batches_cmds(start, 0, n, size);
    let read = seq![GpuCmd::ReadLogits { logits: ga.logits, readback: ga.logits_rb }];
    lemma_batches(none, model, l, start, 0, n, size);
    assert(none + batches =~= batches);
    lemma_then_nothing(batches, read, cache);
    super::laws_cache::law_batches_fill_cache(model, l, start, n, size);
    law_prompt_turns_by_position(model, l, start, n, other);
    assert(turns(none, cache) + super::laws_cache::positions(start, n as nat) =~= Seq::new(
        n as nat,
        |i: int| start + i,
    ));
}

/// However the evaluation of a prompt is planned, its token with index `i` stands at position
/// `start + i`: by that its keys are turned, and there they are written.
pub proof fn law_plans_keep_positions(
    model: LlamaModel,
    plan: super::prefill::PrefillPlan,
    tokens: Seq<usize>,
    start: int,
    chunk: usize,
    l: int,
)
    requires
        model.plans_prefill_gemm(plan, tokens, start, chunk) || model.plans_prefill(
            plan,
            tokens,
            start,
            super::prefill::at_least_one(chunk),
        ),
        model.gpu_acts is Some,
        (model.gpu_acts->0).max_batch >= 1,
        super::laws_cache::caches_apart(model.gpu_acts->0, model.config.n_layers as int),
        0 <= l < model.config.n_layers,
        0 <= start,
        start + tokens.len() <= u32::MAX,
    ensures
        plan matches super::prefill::PrefillPlan::Gemv { cmds, .. } ==> turns(
            cmds@,
            (model.gpu_acts->0).k_cache@[l],
        ) == Seq::new(tokens.len(), |i: int| start + i) && super::laws_cache::writes(
            cmds@,
            (model.gpu_acts->0).k_cache@[l],
        ) == Seq::new(tokens.len(), |i: int| start + i),
        plan matches super::prefill::PrefillPlan::Gemm { cmds, .. } ==> turns(
            cmds@,
            (model.gpu_acts->0).k_cache@[l],
        ) == Seq::new(tokens.len(), |i: int| start + i) && super::laws_cache::writes(
            cmds@,
            (model.gpu_acts->0).k_cache@[l],
        ) == Seq::new(tokens.len(), |i: int| start + i),
        plan is Zeros ==> tokens.len() == 0,
{
    let n = tokens.len() as int;
    let one = super::prefill::at_least_one(chunk);
    let size = super::prefill_gemm::batch_size(chunk, (model.gpu_acts->0).max_batch);
    law_prompt_turns_by_position(model, l, start, n, one);
    law_batches_turn_by_position(model, l, start, n, size, one);
}

} // verus!
