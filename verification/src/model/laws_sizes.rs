//! Buffers, uploads and chunks have the sizes that the work asks for.
use vstd::prelude::*;

use super::config::ModelConfig;
use super::gpu::{ActBuf, GpuActs, GpuCmd};
use super::llama::LlamaModel;
use super::load::{LoadError, LoadPlan};
use super::uploads::Upload;
use super::weights::Weights;

verus! {

/// The buffers for one token hold four bytes for each number of the vectors they are for, and
/// only the copy of the logits is read by the host.
pub proof fn law_token_buffers_fit(ga: GpuActs, w: Weights, c: ModelConfig, ctx_len: usize)
    requires
        ga.is_allocated(w, c, ctx_len),
        super::acts::rooms_fit(w, c, ctx_len),
        super::acts::all_rooms(w, c, ctx_len).len() <= usize::MAX,
    ensures
        ({
            let all = super::acts::all_rooms(w, c, ctx_len);
            &&& all[ga.x.id as int].bytes == c.n_embd * 4
            &&& all[ga.xn.id as int].bytes == c.n_embd * 4
            &&& all[ga.q.id as int].bytes == c.n_heads * c.head_dim * 4
            &&& all[ga.k.id as int].bytes == c.n_kv_heads * c.head_dim * 4
            &&& all[ga.v.id as int].bytes == c.n_kv_heads * c.head_dim * 4
            &&& all[ga.attn_out.id as int].bytes == c.n_embd * 4
            &&& all[ga.proj.id as int].bytes == c.n_embd * 4
            &&& all[ga.gate.id as int].bytes == c.n_ff * 4
            &&& all[ga.up.id as int].bytes == c.n_ff * 4
            &&& all[ga.ff.id as int].bytes == c.n_embd * 4
            &&& all[ga.logits.id as int].bytes == c.n_vocab * 4
            &&& all[ga.logits_rb.id as int].bytes == c.n_vocab * 4
            &&& forall|i: int|
                0 <= i < all.len() ==> (#[trigger] all[i].readback <==> i == ga.logits_rb.id)
            &&& ga.max_batch == if ctx_len < 512 {
                ctx_len
            } else {
                512
            }
            &&& ga.ctx_len == ctx_len
        }),
{
    let n = c.n_layers as nat;
    super::laws_acts::lemma_cache_rooms(c, ctx_len, n);
    super::acts::lemma_norm_rooms_len(w, c, n);
    let model = super::acts::model_rooms(w, c, ctx_len);
    let token = super::acts::token_rooms(c);
    let batch = super::acts::batch_rooms(c, super::acts::batch_rows(ctx_len));
    let all = super::acts::all_rooms(w, c, ctx_len);
    let at = model.len() as int;
    assert(token.len() == 12 && batch.len() == 10);
    assert forall|j: int| 0 <= j < 12 implies all[at + j] == #[trigger] token[j] by {}
    lemma_no_readback(w, c, ctx_len);
    assert forall|i: int| 0 <= i < all.len() implies (#[trigger] all[i].readback <==> i
        == ga.logits_rb.id) by {
        if i < at {
            assert(all[i] == model[i]);
        } else if i < at + 12 {
            assert(all[i] == token[i - at]);
        } else {
            assert(all[i] == batch[i - at - 12]);
        }
    }
}

/// None of the buffers that stay is read by the host.
proof fn lemma_no_readback(w: Weights, c: ModelConfig, ctx_len: usize)
    ensures
        forall|i: int|
            0 <= i < super::acts::model_rooms(w, c, ctx_len).len() ==> !(
            #[trigger] super::acts::model_rooms(w, c, ctx_len)[i]).readback,
{
    let n = c.n_layers as nat;
    let caches = super::acts::cache_rooms(c, ctx_len, n);
    let scores = super::acts::room(c.n_heads * ctx_len);
    let norms = super::acts::norm_rooms(w, c, n);
    let last = super::acts::filled(c.n_embd as int, w.output_norm);
    let biases = super::acts::bias_rooms(w, n);
    lemma_quiet_rooms(w, c, ctx_len, n);
    let all = super::acts::model_rooms(w, c, ctx_len);
    let a = caches.len() as int;
    let b = a + 1 + norms.len();
    assert forall|i: int| 0 <= i < all.len() implies !(#[trigger] all[i]).readback by {
        if i < a {
            assert(all[i] == caches[i]);
        } else if i == a {
            assert(all[i] == scores[0]);
        } else if i < b {
            assert(all[i] == norms[i - a - 1]);
        } else if i == b {
            assert(all[i] == last[0]);
        } else {
            assert(all[i] == biases[i - b - 1]);
        }
    }
}

proof fn lemma_quiet_rooms(w: Weights, c: ModelConfig, ctx_len: usize, k: nat)
    ensures
        forall|i: int|
            0 <= i < super::acts::cache_rooms(c, ctx_len, k).len() ==> !(
            #[trigger] super::acts::cache_rooms(c, ctx_len, k)[i]).readback,
        forall|i: int|
            0 <= i < super::acts::norm_rooms(w, c, k).len() ==> !(
            #[trigger] super::acts::norm_rooms(w, c, k)[i]).readback,
        forall|i: int|
            0 <= i < super::acts::bias_rooms(w, k).len() ==> !(
            #[trigger] super::acts::bias_rooms(w, k)[i]).readback,
    decreases k,
{
    if k > 0 {
        lemma_quiet_rooms(w, c, ctx_len, (k - 1) as nat);
    }
}

/// The buffers of the norms and the biases hold four bytes for each number.
pub proof fn law_vector_buffers_fit(
    ga: GpuActs,
    w: Weights,
    c: ModelConfig,
    ctx_len: usize,
    l: int,
)
    requires
        ga.is_allocated(w, c, ctx_len),
        super::acts::rooms_fit(w, c, ctx_len),
        super::acts::all_rooms(w, c, ctx_len).len() <= usize::MAX,
        0 <= l < c.n_layers,
    ensures
        ({
            let all = super::acts::all_rooms(w, c, ctx_len);
            &&& all[ga.attn_norms@[l].id as int].bytes == c.n_embd * 4
            &&& all[ga.ffn_norms@[l].id as int].bytes == c.n_embd * 4
            &&& all[ga.out_norm.id as int].bytes == c.n_embd * 4
            &&& ga.q_bias@[l] matches Some(b) ==> all[b.id as int].bytes == (
            w.attn_q_bias@[l]->0).len * 4
            &&& ga.k_bias@[l] matches Some(b) ==> all[b.id as int].bytes == (
            w.attn_k_bias@[l]->0).len * 4
            &&& ga.v_bias@[l] matches Some(b) ==> all[b.id as int].bytes == (
            w.attn_v_bias@[l]->0).len * 4
        }),
{
    let n = c.n_layers as nat;
    super::laws_acts::lemma_cache_rooms(c, ctx_len, n);
    super::laws_acts::lemma_norm_rooms(w, c, n, l);
    super::laws_acts::lemma_bias_rooms(w, n, l);
    assert(ga.layer_allocated(w, c, l));
    assert(super::acts::bias_fits(w.attn_q_bias@[l]));
    let all = super::acts::all_rooms(w, c, ctx_len);
    let biases = super::acts::bias_rooms(w, n);
    assert forall|i: int| 0 <= i < biases.len() implies all[4 * n + 2 + i]
        == #[trigger] biases[i] by {}
}

/// Every attention among the commands keeps its scores in this buffer.
pub open spec fn scores_in(cmds: Seq<GpuCmd>, b: ActBuf) -> bool {
    forall|i: int|
        0 <= i < cmds.len() ==> match #[trigger] cmds[i] {
            GpuCmd::Attention { scores, .. } => scores == b,
            GpuCmd::BatchAttnItem { scores, .. } => scores == b,
            _ => true,
        }
}

proof fn lemma_scores_sum(x: Seq<GpuCmd>, y: Seq<GpuCmd>, b: ActBuf)
    requires
        scores_in(x, b),
        scores_in(y, b),
    ensures
        scores_in(x + y, b),
{
    assert forall|i: int| 0 <= i < (x + y).len() implies match #[trigger] (x + y)[i] {
        GpuCmd::Attention { scores, .. } => scores == b,
        GpuCmd::BatchAttnItem { scores, .. } => scores == b,
        _ => true,
    } by {
        if i < x.len() {
            assert((x + y)[i] == x[i]);
        } else {
            assert((x + y)[i] == y[i - x.len()]);
        }
    }
}

proof fn lemma_item_scores(model: LlamaModel, l: int, pos: int, b: int, k: int)
    ensures
        scores_in(model.batch_items(l, pos, b, k), (model.gpu_acts->0).scores),
    decreases k,
{
    if k > 0 {
        lemma_item_scores(model, l, pos, b, k - 1);
    }
}

proof fn lemma_token_scores(model: LlamaModel, l: int, pos: int)
    ensures
        ({
            let (c, gw, ga) = (model.config, model.gpu_w->0, model.gpu_acts->0);
            let b = ga.scores;
            &&& scores_in(super::record::norm_stretch(c, ga, l), b)
            &&& scores_in(super::record::qkv_stretch(gw, ga, l), b)
            &&& scores_in(super::record::bias_stretch(c, ga, l), b)
            &&& scores_in(super::record::attend_stretch(c, ga, l, pos), b)
            &&& scores_in(super::record::project_stretch(c, gw, ga, l), b)
            &&& scores_in(super::record::feed_stretch(c, gw, ga, l), b)
        }),
{
}

proof fn lemma_batch_scores(model: LlamaModel, l: int, pos: int, n: int)
    ensures
        ({
            let b = (model.gpu_acts->0).scores;
            &&& scores_in(model.batch_qkv_stretch(l, n), b)
            &&& scores_in(model.batch_bias_stretch(l, n), b)
            &&& scores_in(model.batch_write_stretch(l, pos, n), b)
            &&& scores_in(model.batch_out_stretch(l, n), b)
            &&& scores_in(model.batch_feed_stretch(l, n), b)
        }),
{
}

proof fn lemma_six(
    s1: Seq<GpuCmd>,
    s2: Seq<GpuCmd>,
    s3: Seq<GpuCmd>,
    s4: Seq<GpuCmd>,
    s5: Seq<GpuCmd>,
    s6: Seq<GpuCmd>,
    b: ActBuf,
)
    requires
        scores_in(s1, b),
        scores_in(s2, b),
        scores_in(s3, b),
        scores_in(s4, b),
        scores_in(s5, b),
        scores_in(s6, b),
    ensures
        scores_in(s1 + s2 + s3 + s4 + s5 + s6, b),
{
    lemma_scores_sum(s1, s2, b);
    lemma_scores_sum(s1 + s2, s3, b);
    lemma_scores_sum(s1 + s2 + s3, s4, b);
    lemma_scores_sum(s1 + s2 + s3 + s4, s5, b);
    lemma_scores_sum(s1 + s2 + s3 + s4 + s5, s6, b);
}

proof fn lemma_timed_scores(model: LlamaModel, l: int, pos: int)
    ensures
        scores_in(
            super::llama::timed_layer_cmds(
                model.config,
                model.gpu_w->0,
                model.gpu_acts->0,
                l,
                pos,
            ),
            (model.gpu_acts->0).scores,
        ),
{
    let (c, gw, ga) = (model.config, model.gpu_w->0, model.gpu_acts->0);
    let b = ga.scores;
    let t = super::llama::stamp(l);
    let s2 = super::record::qkv_stretch(gw, ga, l);
    let s3 = super::record::bias_stretch(c, ga, l);
    let s4 = super::record::attend_stretch(c, ga, l, pos);
    let s5 = super::record::project_stretch(c, gw, ga, l);
    let s6 = super::record::feed_stretch(c, gw, ga, l);
    let r = seq![super::record::residual_cmd(c, ga)];
    lemma_token_scores(model, l, pos);
    lemma_six(super::record::norm_stretch(c, ga, l), t, s2, t, s3, s4, b);
    let half = super::record::norm_stretch(c, ga, l) + t + s2 + t + s3 + s4;
    lemma_six(half, t, s5, t, s6, t, b);
    let most = half + t + s5 + t + s6 + t;
    lemma_scores_sum(most, r, b);
    lemma_scores_sum(most + r, super::llama::layer_end(c, l), b);
}

/// Attention keeps its scores in a buffer with room for those of all heads over a whole context,
/// whether for one token or for a batch.
pub proof fn law_scores_have_room(
    model: LlamaModel,
    ctx_len: usize,
    l: int,
    pos: int,
    n: int,
)
    requires
        model.on_gpu(),
        (model.gpu_acts->0).is_allocated(model.weights, model.config, ctx_len),
        super::acts::rooms_fit(model.weights, model.config, ctx_len),
        super::acts::all_rooms(model.weights, model.config, ctx_len).len() <= usize::MAX,
        0 <= l < model.config.n_layers,
    ensures
        exists|b: ActBuf|
            #![trigger scores_in(model.batch_layer_cmds(l, pos, n), b)]
            {
                let (c, gw, ga) = (model.config, model.gpu_w->0, model.gpu_acts->0);
                &&& scores_in(super::record::layer_cmds(c, gw, ga, l, pos), b)
                &&& scores_in(super::llama::timed_layer_cmds(c, gw, ga, l, pos), b)
                &&& scores_in(model.batch_layer_cmds(l, pos, n), b)
                &&& super::acts::all_rooms(model.weights, c, ctx_len)[b.id as int].bytes
                    == c.n_heads * ctx_len * 4
            },
{
    let (c, gw, ga) = (model.config, model.gpu_w->0, model.gpu_acts->0);
    let b = ga.scores;
    super::laws_acts::law_caches_hold_a_context(ga, model.weights, c, ctx_len, l);
    lemma_token_scores(model, l, pos);
    lemma_timed_scores(model, l, pos);
    lemma_batch_scores(model, l, pos, n);
    lemma_item_scores(model, l, pos, n, n);
    let s1 = super::record::norm_stretch(c, ga, l);
    let s2 = super::record::qkv_stretch(gw, ga, l);
    let s3 = super::record::bias_stretch(c, ga, l);
    let s4 = super::record::attend_stretch(c, ga, l, pos);
    let s5 = super::record::project_stretch(c, gw, ga, l);
    let s6 = super::record::feed_stretch(c, gw, ga, l);
    lemma_six(s1, s2, s3, s4, s5, s6, b);
    lemma_scores_sum(
        s1 + s2 + s3 + s4 + s5 + s6,
        super::record::fenced(super::record::residual_cmd(c, ga)),
        b,
    );
    lemma_six(
        model.batch_qkv_stretch(l, n),
        model.batch_bias_stretch(l, n),
        model.batch_write_stretch(l, pos, n),
        model.batch_items(l, pos, n, n),
        model.batch_out_stretch(l, n),
        model.batch_feed_stretch(l, n),
        b,
    );
    assert(scores_in(super::record::layer_cmds(c, gw, ga, l, pos), b));
    assert(scores_in(model.batch_layer_cmds(l, pos, n), b));
}

/// Float rows of a loaded model are sent as a matrix with as many rows as were cut out, each as
/// wide as an embedding.
pub proof fn law_float_rows_are_sent_whole(
    names: Seq<Seq<char>>,
    c: ModelConfig,
    plan: LoadPlan,
    decoded: Seq<Result<usize, String>>,
    result: Result<Weights, LoadError>,
    i: int,
)
    requires
        super::load::is_load_plan(plan, names, c),
        super::settle::settles(result, plan, decoded),
        result is Ok,
        super::load::splits_fit(names, c),
        c.n_heads * c.head_dim <= u32::MAX,
        c.n_kv_heads * c.head_dim <= u32::MAX,
        c.n_embd <= u32::MAX,
        0 <= i < super::uploads::uploads_of(result->Ok_0, c).len(),
    ensures
        super::uploads::uploads_of(result->Ok_0, c)[i] matches Upload::Floats {
            span,
            rows,
            cols,
        } ==> rows == span.end - span.start && cols == c.n_embd,
{
    let w = result->Ok_0;
    let n = c.n_layers as int;
    if 1 <= i < 1 + 3 * n {
        if i < 1 + n {
            super::loading::law_fused_rows_partition(names, c, plan, decoded, result, i - 1);
        } else if i < 1 + 2 * n {
            super::loading::law_fused_rows_partition(names, c, plan, decoded, result, i - 1 - n);
        } else {
            super::loading::law_fused_rows_partition(
                names,
                c,
                plan,
                decoded,
                result,
                i - 1 - 2 * n,
            );
        }
    }
}

/// A prompt is cut into as many chunks as are needed and no more: all but the last are full.
pub proof fn law_chunks_are_full(n: int, size: int, from: int)
    requires
        n > 0,
        size >= 1,
        0 <= from < n,
    ensures
        (super::prefill::chunk_count(n, size) - 1) * size < n <= super::prefill::chunk_count(
            n,
            size,
        ) * size,
        from < super::prefill::chunk_end(from, size, n) <= n,
        super::prefill::chunk_end(from, size, n) - from <= size,
        super::prefill::chunk_end(from, size, n) < n ==> super::prefill::chunk_end(from, size, n)
            - from == size,
{
    let k = super::prefill::chunk_count(n, size);
    assert((k - 1) * size < n <= k * size) by (nonlinear_arith)
        requires
            k == (n + size - 1) / size,
            size >= 1,
            n > 0,
    ;
}

/// A chunk has as many tokens as were asked for, but one at least and no more than the batch
/// buffers hold.
pub proof fn law_chunk_size_is_bounded(chunk: usize, max_batch: usize)
    requires
        max_batch >= 1,
    ensures
        1 <= super::prefill::at_least_one(chunk),
        chunk >= 1 ==> super::prefill::at_least_one(chunk) == chunk,
        chunk == 0 ==> super::prefill::at_least_one(chunk) == 1,
        1 <= super::prefill_gemm::batch_size(chunk, max_batch) <= max_batch,
        1 <= chunk <= max_batch ==> super::prefill_gemm::batch_size(chunk, max_batch) == chunk,
        chunk == 0 ==> super::prefill_gemm::batch_size(chunk, max_batch) == 1,
        chunk > max_batch ==> super::prefill_gemm::batch_size(chunk, max_batch) == max_batch,
{
}

/// The descriptor sets that are asked for grow evenly with the tokens and the layers.
pub proof fn law_sets_grow_evenly(n_layers: int, tokens: int, more: int)
    ensures
        super::prefill::gemv_sets(n_layers, 0) == 0,
        super::prefill::gemv_sets(n_layers, tokens + more) == super::prefill::gemv_sets(
            n_layers,
            tokens,
        ) + super::prefill::gemv_sets(n_layers, more),
        super::prefill::gemv_sets(n_layers, 1) == 44 * n_layers + 8,
        super::prefill_gemm::gemm_sets(n_layers, 0) == 64,
        super::prefill_gemm::gemm_sets(n_layers, tokens + more)
            == super::prefill_gemm::gemm_sets(n_layers, tokens) + super::prefill_gemm::gemm_sets(
            n_layers,
            more,
        ) - 64,
        super::prefill_gemm::gemm_sets(n_layers, 1) == 45 * n_layers + 64,
{
    assert((tokens + more) * (n_layers * 22 + 4) * 2 == tokens * (n_layers * 22 + 4) * 2 + more * (
    n_layers * 22 + 4) * 2) by (nonlinear_arith);
    assert((tokens + more) * n_layers * 22 * 2 + (tokens + more) * n_layers == tokens * n_layers
        * 22 * 2 + tokens * n_layers + (more * n_layers * 22 * 2 + more * n_layers))
        by (nonlinear_arith);
    assert(0 * (n_layers * 22 + 4) * 2 == 0 && 0 * n_layers * 22 * 2 + 0 * n_layers == 0)
        by (nonlinear_arith);
    assert(1 * (n_layers * 22 + 4) * 2 == 44 * n_layers + 8 && 1 * n_layers * 22 * 2 + 1
        * n_layers == 45 * n_layers) by (nonlinear_arith);
}

/// A prompt without tokens gives zeros, one for each entry of the vocabulary. Any other is
/// staged as it is, and goes to the device in batches where all weights of all layers are there,
/// and a token at a time where one is missing.
pub proof fn law_plan_fits_the_device(
    model: LlamaModel,
    plan: super::prefill::PrefillPlan,
    tokens: Seq<usize>,
    start: int,
    chunk: usize,
)
    requires
        model.plans_prefill_gemm(plan, tokens, start, chunk),
    ensures
        tokens.len() == 0 <==> plan is Zeros,
        plan matches super::prefill::PrefillPlan::Zeros { len } ==> len == model.config.n_vocab,
        plan matches super::prefill::PrefillPlan::Gemv { staged, .. } ==> staged@ == tokens,
        plan matches super::prefill::PrefillPlan::Gemm { staged, .. } ==> staged@ == tokens,
        tokens.len() > 0 ==> (plan is Gemm <==> forall|l: int|
            0 <= l < model.config.n_layers ==> {
                &&& #[trigger] (model.gpu_w->0).attn_q@[l] is Some
                &&& (model.gpu_w->0).attn_k@[l] is Some
                &&& (model.gpu_w->0).attn_v@[l] is Some
                &&& (model.gpu_w->0).attn_out@[l] is Some
                &&& (model.gpu_w->0).ffn_gate@[l] is Some
                &&& (model.gpu_w->0).ffn_up@[l] is Some
                &&& (model.gpu_w->0).ffn_down@[l] is Some
            }),
{
    let gw = model.gpu_w->0;
    if model.all_resident() {
        assert forall|l: int| 0 <= l < model.config.n_layers implies {
            &&& #[trigger] gw.attn_q@[l] is Some
            &&& gw.attn_k@[l] is Some
            &&& gw.attn_v@[l] is Some
            &&& gw.attn_out@[l] is Some
            &&& gw.ffn_gate@[l] is Some
            &&& gw.ffn_up@[l] is Some
            &&& gw.ffn_down@[l] is Some
        } by {
            assert(gw.layer_resident(l));
        }
    } else {
        let l = choose|l: int|
            0 <= l < model.config.n_layers && !(#[trigger] gw.layer_resident(l));
        assert(!(gw.attn_q@[l] is Some && gw.attn_k@[l] is Some && gw.attn_v@[l] is Some
            && gw.attn_out@[l] is Some && gw.ffn_gate@[l] is Some && gw.ffn_up@[l] is Some
            && gw.ffn_down@[l] is Some));
    }
}

/// The last command of every evaluation on a device reads the logits, from the copy that the
/// host can read. That of a token begins with its embedding, and submits before it prints times.
pub proof fn law_logits_are_read_last(
    model: LlamaModel,
    token: usize,
    pos: int,
    start: int,
    n: int,
    size: int,
)
    ensures
        ({
            let (c, gw, ga) = (model.config, model.gpu_w->0, model.gpu_acts->0);
            let read = GpuCmd::ReadLogits { logits: ga.logits, readback: ga.logits_rb };
            let one = super::llama::forward_cmds(c, gw, ga, token, pos);
            &&& one[0] == GpuCmd::Begin
            &&& one[1] == GpuCmd::UploadEmbedding { dst: ga.x, token }
            &&& one[one.len() - 3] == GpuCmd::SubmitWithReadback {
                logits: ga.logits,
                readback: ga.logits_rb,
            }
            &&& one[one.len() - 2] == GpuCmd::PrintTimestamps
            &&& one.last() == read
            &&& model.prefill_cmds(start, n, size)[model.prefill_cmds(start, n, size).len() - 2]
                == GpuCmd::FreeStaging
            &&& model.prefill_cmds(start, n, size).last() == read
            &&& model.prefill_gemm_cmds(start, n, size).last() == read
        }),
{
}

/// How many time stamps the commands take.
pub open spec fn stamps(cmds: Seq<GpuCmd>) -> nat
    decreases cmds.len(),
{
    if cmds.len() == 0 {
        0
    } else {
        stamps(cmds.drop_last()) + if cmds.last() == GpuCmd::Timestamp {
            1nat
        } else {
            0
        }
    }
}

proof fn lemma_stamps_sum(x: Seq<GpuCmd>, y: Seq<GpuCmd>)
    ensures
        stamps(x + y) == stamps(x) + stamps(y),
    decreases y.len(),
{
    if y.len() == 0 {
        assert(x + y =~= x);
    } else {
        assert((x + y).drop_last() =~= x + y.drop_last());
        lemma_stamps_sum(x, y.drop_last());
    }
}

proof fn lemma_no_stamps(x: Seq<GpuCmd>)
    requires
        forall|i: int| 0 <= i < x.len() ==> #[trigger] x[i] != GpuCmd::Timestamp,
    ensures
        stamps(x) == 0,
    decreases x.len(),
{
    if x.len() > 0 {
        assert(forall|i: int|
            0 <= i < x.len() - 1 ==> #[trigger] x.drop_last()[i] == x[i]);
        lemma_no_stamps(x.drop_last());
        assert(x[x.len() - 1] != GpuCmd::Timestamp);
    }
}

proof fn lemma_stretch_stamps(model: LlamaModel, l: int, pos: int)
    ensures
        ({
            let (c, gw, ga) = (model.config, model.gpu_w->0, model.gpu_acts->0);
            &&& stamps(super::record::norm_stretch(c, ga, l)) == 0
            &&& stamps(super::record::qkv_stretch(gw, ga, l)) == 0
            &&& stamps(super::record::bias_stretch(c, ga, l)) == 0
            &&& stamps(super::record::attend_stretch(c, ga, l, pos)) == 0
            &&& stamps(super::record::project_stretch(c, gw, ga, l)) == 0
            &&& stamps(super::record::feed_stretch(c, gw, ga, l)) == 0
            &&& stamps(seq![super::record::residual_cmd(c, ga)]) == 0
            &&& stamps(super::llama::layer_end(c, l)) == 0
            &&& stamps(super::record::output_cmds(c, gw, ga)) == 0
        }),
{
    let (c, gw, ga) = (model.config, model.gpu_w->0, model.gpu_acts->0);
    lemma_no_stamps(super::record::norm_stretch(c, ga, l));
    lemma_no_stamps(super::record::qkv_stretch(gw, ga, l));
    lemma_no_stamps(super::record::bias_stretch(c, ga, l));
    lemma_no_stamps(super::record::attend_stretch(c, ga, l, pos));
    lemma_no_stamps(super::record::project_stretch(c, gw, ga, l));
    lemma_no_stamps(super::record::feed_stretch(c, gw, ga, l));
    lemma_no_stamps(seq![super::record::residual_cmd(c, ga)]);
    lemma_no_stamps(super::llama::layer_end(c, l));
    lemma_no_stamps(super::record::output_cmds(c, gw, ga));
}

proof fn lemma_stamps_six(
    s1: Seq<GpuCmd>,
    s2: Seq<GpuCmd>,
    s3: Seq<GpuCmd>,
    s4: Seq<GpuCmd>,
    s5: Seq<GpuCmd>,
    s6: Seq<GpuCmd>,
)
    ensures
        stamps(s1 + s2 + s3 + s4 + s5 + s6) == stamps(s1) + stamps(s2) + stamps(s3) + stamps(s4)
            + stamps(s5) + stamps(s6),
{
    lemma_stamps_sum(s1, s2);
    lemma_stamps_sum(s1 + s2, s3);
    lemma_stamps_sum(s1 + s2 + s3, s4);
    lemma_stamps_sum(s1 + s2 + s3 + s4, s5);
    lemma_stamps_sum(s1 + s2 + s3 + s4 + s5, s6);
}

proof fn lemma_layer_stamps(model: LlamaModel, pos: int, k: nat)
    ensures
        stamps(
            super::llama::timed_layers_cmds(
                model.config,
                model.gpu_w->0,
                model.gpu_acts->0,
                pos,
                k,
            ),
        ) == if k == 0 {
            0nat
        } else {
            5
        },
    decreases k,
{
    let (c, gw, ga) = (model.config, model.gpu_w->0, model.gpu_acts->0);
    if k > 0 {
        let l = k - 1;
        lemma_layer_stamps(model, pos, l as nat);
        lemma_stretch_stamps(model, l, pos);
        let t = super::llama::stamp(l);
        if l == 0 {
            lemma_one_stamp();
        }
        let n = super::record::norm_stretch(c, ga, l);
        let q = super::record::qkv_stretch(gw, ga, l);
        let b = super::record::bias_stretch(c, ga, l);
        let a = super::record::attend_stretch(c, ga, l, pos);
        let p = super::record::project_stretch(c, gw, ga, l);
        let f = super::record::feed_stretch(c, gw, ga, l);
        let r = seq![super::record::residual_cmd(c, ga)];
        let e = super::llama::layer_end(c, l);
        lemma_stamps_six(n, t, q, t, b, a);
        let half = n + t + q + t + b + a;
        lemma_stamps_six(half, t, p, t, f, t);
        let most = half + t + p + t + f + t;
        lemma_stamps_sum(most, r);
        lemma_stamps_sum(most + r, e);
        lemma_stamps_sum(
            super::llama::timed_layers_cmds(c, gw, ga, pos, l as nat),
            super::llama::timed_layer_cmds(c, gw, ga, l, pos),
        );
    }
}

proof fn lemma_one_stamp()
    ensures
        stamps(seq![GpuCmd::Timestamp]) == 1,
{
    let x = seq![GpuCmd::Timestamp];
    assert(x.drop_last() =~= Seq::<GpuCmd>::empty());
    assert(stamps(x.drop_last()) == 0);
}

/// The evaluation of a token takes eight time stamps, whatever the number of layers: five in the
/// first layer, and one behind the embedding, the layers and the logits each.
pub proof fn law_eight_time_stamps(model: LlamaModel, token: usize, pos: int)
    requires
        model.config.n_layers > 0,
    ensures
        stamps(
            super::llama::forward_cmds(
                model.config,
                model.gpu_w->0,
                model.gpu_acts->0,
                token,
                pos,
            ),
        ) == 8,
{
    let (c, gw, ga) = (model.config, model.gpu_w->0, model.gpu_acts->0);
    let n = c.n_layers as nat;
    let begin = seq![GpuCmd::Begin, GpuCmd::UploadEmbedding { dst: ga.x, token }];
    let t = seq![GpuCmd::Timestamp];
    let layers = super::llama::timed_layers_cmds(c, gw, ga, pos, n);
    let out = super::record::output_cmds(c, gw, ga);
    let end = seq![
        GpuCmd::SubmitWithReadback { logits: ga.logits, readback: ga.logits_rb },
        GpuCmd::PrintTimestamps,
        GpuCmd::ReadLogits { logits: ga.logits, readback: ga.logits_rb },
    ];
    lemma_no_stamps(begin);
    lemma_no_stamps(end);
    lemma_one_stamp();
    lemma_layer_stamps(model, pos, n);
    lemma_stretch_stamps(model, 0, pos);
    lemma_stamps_six(begin, t, layers, t, out, t);
    lemma_stamps_sum(begin + t + layers + t + out + t, end);
    assert(super::llama::forward_cmds(c, gw, ga, token, pos) =~= begin + t + layers + t + out + t
        + end);
}

/// The dimensions of a model are of the usual order.
pub open spec fn is_usual(c: ModelConfig, ctx_len: usize) -> bool {
    &&& 1 <= c.n_layers <= 200
    &&& c.n_embd <= 16_384
    &&& 1 <= c.n_kv_heads <= c.n_heads <= 256
    &&& c.head_dim <= 256
    &&& c.n_heads * c.head_dim <= c.n_embd
    &&& c.n_ff <= 65_536
    &&& c.n_vocab <= 1_000_000
    &&& ctx_len <= 8_192
}

/// Models and prompts of the usual size are not turned away: what has to be computed for them
/// fits, on machines with 32 bits too.
pub proof fn law_usual_sizes_fit(
    model: LlamaModel,
    ctx_len: usize,
    n: int,
    start: int,
    size: int,
)
    requires
        is_usual(model.config, ctx_len),
        forall|l: int|
            0 <= l < model.config.n_layers ==> {
                &&& (#[trigger] model.weights.attn_q_bias@[l] matches Some(b) ==> b.len
                    <= 1_000_000)
                &&& (model.weights.attn_k_bias@[l] matches Some(b) ==> b.len <= 1_000_000)
                &&& (model.weights.attn_v_bias@[l] matches Some(b) ==> b.len <= 1_000_000)
            },
        0 <= start,
        0 <= n,
        start + n <= 8_192,
        size >= 1,
    ensures
        model.config.widths_fit(),
        model.config.fused_rows_fit(),
        super::cpu::forward_cpu_fits(model.config, start),
        super::acts::rooms_fit(model.weights, model.config, ctx_len),
        model.prefill_fits(n, start, size),
        model.gemm_fits(n, start, size),
        super::laws_device::dims_fit(model.config, ctx_len),
{
    let c = model.config;
    let (e, h, g, d, f, v) = (
        c.n_embd as int,
        c.n_heads as int,
        c.n_kv_heads as int,
        c.head_dim as int,
        c.n_ff as int,
        c.n_vocab as int,
    );
    let (k, x, b) = (
        c.n_layers as int,
        ctx_len as int,
        super::acts::batch_rows(ctx_len) as int,
    );
    let most = if size <= n {
        size
    } else {
        n
    };
    assert(0 <= h * d <= 65_536 && 0 <= g * d <= 65_536) by (nonlinear_arith)
        requires
            0 <= g <= h <= 256,
            0 <= d <= 256,
    ;
    let (q, w) = (h * d, g * d);
    assert(x * w * 4 <= 0x8000_0000 && h * x <= 0x20_0000 && h * x * 4 <= 0x80_0000) by (
    nonlinear_arith)
        requires
            0 <= x <= 8_192,
            0 <= w <= 65_536,
            0 <= h <= 256,
    ;
    assert(b * e * 4 <= 0x8000_0000 && b * f * 4 <= 0x8000_0000 && b * q * 4 <= 0x8000_0000 && b
        * w * 4 <= 0x8000_0000) by (nonlinear_arith)
        requires
            0 <= b <= 512,
            0 <= e <= 16_384,
            0 <= f <= 65_536,
            0 <= q <= 65_536,
            0 <= w <= 65_536,
    ;
    assert((start + 1) * w <= 0x8000_0000 && h * (start + 1) <= 0x8000_0000) by (nonlinear_arith)
        requires
            0 <= start <= 8_192,
            0 <= w <= 65_536,
            0 <= h <= 256,
    ;
    assert(n * e * 4 <= 0x8000_0000 && most * h <= 0x20_0000 && most * h * d <= 0x8000_0000) by (
    nonlinear_arith)
        requires
            0 <= n <= 8_192,
            0 <= most <= 8_192,
            0 <= e <= 16_384,
            0 <= h <= 256,
            0 <= d <= 256,
    {
        assert(most * h <= 8_192 * 256);
    }
    assert(most * (k * 22 + 4) * 2 <= 0x8000_0000 && most * k * 22 * 2 + most * k + 64
        <= 0x8000_0000) by (nonlinear_arith)
        requires
            0 <= most <= 8_192,
            1 <= k <= 200,
    {
        assert(most * k <= 8_192 * 200);
        assert(most * (k * 22 + 4) <= 8_192 * 4_404);
    }
    assert forall|l: int| 0 <= l < c.n_layers implies {
        &&& super::acts::bias_fits(#[trigger] model.weights.attn_q_bias@[l])
        &&& super::acts::bias_fits(model.weights.attn_k_bias@[l])
        &&& super::acts::bias_fits(model.weights.attn_v_bias@[l])
    } by {}
}

/// A prompt of the usual size can be evaluated on a device, whatever chunk size is asked for.
pub proof fn law_usual_prompts_are_ready(
    model: LlamaModel,
    ctx_len: usize,
    n: int,
    start: int,
    chunk: usize,
)
    requires
        is_usual(model.config, ctx_len),
        forall|l: int|
            0 <= l < model.config.n_layers ==> {
                &&& (#[trigger] model.weights.attn_q_bias@[l] matches Some(b) ==> b.len
                    <= 1_000_000)
                &&& (model.weights.attn_k_bias@[l] matches Some(b) ==> b.len <= 1_000_000)
                &&& (model.weights.attn_v_bias@[l] matches Some(b) ==> b.len <= 1_000_000)
            },
        (model.gpu_acts->0).max_batch >= 1,
        0 <= start,
        0 <= n,
        start + n <= 8_192,
    ensures
        model.gemm_prefill_ready(n, start, chunk),
{
    let max_batch = (model.gpu_acts->0).max_batch;
    law_chunk_size_is_bounded(chunk, max_batch);
    law_usual_sizes_fit(
        model,
        ctx_len,
        n,
        start,
        super::prefill_gemm::batch_size(chunk, max_batch),
    );
    law_usual_sizes_fit(model, ctx_len, n, start, super::prefill::at_least_one(chunk));
}

/// Each chunk of a prompt begins by asking for descriptor sets, and for as many as its dispatches
/// take at least.
pub proof fn law_chunks_ask_for_enough_sets(
    model: LlamaModel,
    start: int,
    from: int,
    to: int,
    n: int,
)
    requires
        0 <= from < to <= n,
        (to - from) * (44 * model.config.n_layers + 8) <= u32::MAX,
        (to - from) * (45 * model.config.n_layers) + 64 <= u32::MAX,
    ensures
        model.chunk_cmds(start, from, to, n)[0] matches GpuCmd::BeginForSets { sets } && sets == (
        to - from) * (44 * model.config.n_layers + 8) && super::laws::dispatches(
            model.chunk_cmds(start, from, to, n),
        ).len() <= sets,
        model.batch_cmds(start, from, to, n)[0] matches GpuCmd::BeginForSets { sets } && sets == (
        to - from) * (45 * model.config.n_layers) + 64 && super::laws::dispatches(
            model.batch_cmds(start, from, to, n),
        ).len() <= sets,
{
    let (t, k) = (to - from, model.config.n_layers as int);
    super::laws::law_prefill_sets_suffice(model, start, from, to, n);
    super::laws_gemm::law_gemm_sets_suffice(model, start, from, to, n);
    assert(t * (k * 22 + 4) * 2 == t * (44 * k + 8) && t * k * 22 * 2 + t * k == t * (45 * k)
        && 0 <= t * (44 * k + 8) && 0 <= t * (45 * k)) by (nonlinear_arith)
        requires
            t >= 1,
            k >= 0,
    ;
}

} // verus!
