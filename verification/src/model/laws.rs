//! What holds of the recorded work as a whole.
use vstd::prelude::*;

use super::gpu::GpuCmd;
use super::llama::LlamaModel;

verus! {

/// The submissions among a sequence of commands.
pub open spec fn submissions(cmds: Seq<GpuCmd>) -> Seq<GpuCmd> {
    cmds.filter(|cmd: GpuCmd| cmd.submits())
}

/// The compute dispatches among a sequence of commands.
pub open spec fn dispatches(cmds: Seq<GpuCmd>) -> Seq<GpuCmd> {
    cmds.filter(|cmd: GpuCmd| cmd.dispatches())
}

/// The commands that do not merely open or close a recording.
pub open spec fn work(cmds: Seq<GpuCmd>) -> Seq<GpuCmd> {
    cmds.filter(|cmd: GpuCmd| !cmd.frames())
}

/// The matrix-matrix products among a sequence of commands.
pub open spec fn matrix_products(cmds: Seq<GpuCmd>) -> Seq<GpuCmd> {
    cmds.filter(|cmd: GpuCmd| cmd is Gemm)
}

/// The matrix-vector products among a sequence of commands.
pub open spec fn vector_products(cmds: Seq<GpuCmd>) -> Seq<GpuCmd> {
    cmds.filter(|cmd: GpuCmd| cmd is Gemv)
}

pub broadcast proof fn lemma_filter_empty(keep: spec_fn(GpuCmd) -> bool)
    ensures
        #[trigger] Seq::<GpuCmd>::empty().filter(keep) == Seq::<GpuCmd>::empty(),
{
    reveal(Seq::filter);
}

pub broadcast proof fn lemma_filter_push(
    cmds: Seq<GpuCmd>,
    cmd: GpuCmd,
    keep: spec_fn(GpuCmd) -> bool,
)
    ensures
        #[trigger] cmds.push(cmd).filter(keep) == (if keep(cmd) {
            cmds.filter(keep).push(cmd)
        } else {
            cmds.filter(keep)
        }),
{
    reveal(Seq::filter);
    assert(cmds.push(cmd).drop_last() =~= cmds);
}

pub broadcast group filtering {
    lemma_filter_empty,
    lemma_filter_push,
    Seq::filter_distributes_over_add,
}

pub(crate) proof fn lemma_filter_all(cmds: Seq<GpuCmd>, keep: spec_fn(GpuCmd) -> bool)
    requires
        forall|i: int| 0 <= i < cmds.len() ==> keep(#[trigger] cmds[i]),
    ensures
        cmds.filter(keep) == cmds,
    decreases cmds.len(),
{
    reveal(Seq::filter);
    if cmds.len() > 0 {
        lemma_filter_all(cmds.drop_last(), keep);
        assert(cmds.drop_last().push(cmds.last()) =~= cmds);
    }
}

pub(crate) proof fn lemma_filter_none(cmds: Seq<GpuCmd>, keep: spec_fn(GpuCmd) -> bool)
    requires
        forall|i: int| 0 <= i < cmds.len() ==> !keep(#[trigger] cmds[i]),
    ensures
        cmds.filter(keep) == Seq::<GpuCmd>::empty(),
    decreases cmds.len(),
{
    reveal(Seq::filter);
    if cmds.len() > 0 {
        lemma_filter_none(cmds.drop_last(), keep);
    }
}

/// No command of the sequence is of the kind that `keep` picks.
pub open spec fn lacks(cmds: Seq<GpuCmd>, keep: spec_fn(GpuCmd) -> bool) -> bool {
    forall|i: int| 0 <= i < cmds.len() ==> !keep(#[trigger] cmds[i])
}

pub(crate) proof fn lemma_lacks_add(a: Seq<GpuCmd>, b: Seq<GpuCmd>, keep: spec_fn(GpuCmd) -> bool)
    requires
        lacks(a, keep),
        lacks(b, keep),
    ensures
        lacks(a + b, keep),
{
    assert forall|i: int| 0 <= i < (a + b).len() implies !keep(#[trigger] (a + b)[i]) by {
        if i < a.len() {
            assert((a + b)[i] == a[i]);
        } else {
            assert((a + b)[i] == b[i - a.len()]);
        }
    }
}

/// A command that submits, or that opens or closes a recording.
pub open spec fn boundary(cmd: GpuCmd) -> bool {
    cmd.submits() || cmd.frames()
}

/// A layer neither submits nor opens or closes a recording, and it is short.
proof fn lemma_layer(model: LlamaModel, l: int, pos: int)
    ensures
        lacks(
            super::record::layer_cmds(model.config, model.gpu_w->0, model.gpu_acts->0, l, pos),
            |cmd: GpuCmd| boundary(cmd),
        ),
        super::record::layer_cmds(
            model.config,
            model.gpu_w->0,
            model.gpu_acts->0,
            l,
            pos,
        ).len() <= 31,
{
    let (c, gw, ga) = (model.config, model.gpu_w->0, model.gpu_acts->0);
    let keep = |cmd: GpuCmd| boundary(cmd);
    let s1 = super::record::norm_stretch(c, ga, l);
    let s2 = super::record::qkv_stretch(gw, ga, l);
    let s3 = super::record::bias_stretch(c, ga, l);
    let s4 = super::record::attend_stretch(c, ga, l, pos);
    let s5 = super::record::project_stretch(c, gw, ga, l);
    let s6 = super::record::feed_stretch(c, gw, ga, l);
    let s7 = super::record::fenced(super::record::residual_cmd(c, ga));
    assert(lacks(s1, keep));
    assert(lacks(s2, keep));
    assert(lacks(s3, keep));
    assert(lacks(s4, keep));
    assert(lacks(s5, keep));
    assert(lacks(s6, keep));
    assert(lacks(s7, keep));
    lemma_lacks_add(s1, s2, keep);
    lemma_lacks_add(s1 + s2, s3, keep);
    lemma_lacks_add(s1 + s2 + s3, s4, keep);
    lemma_lacks_add(s1 + s2 + s3 + s4, s5, keep);
    lemma_lacks_add(s1 + s2 + s3 + s4 + s5, s6, keep);
    lemma_lacks_add(s1 + s2 + s3 + s4 + s5 + s6, s7, keep);
}

/// Neither do all layers.
proof fn lemma_layers(model: LlamaModel, pos: int, k: nat)
    ensures
        lacks(
            super::llama::layers_cmds(model.config, model.gpu_w->0, model.gpu_acts->0, pos, k),
            |cmd: GpuCmd| boundary(cmd),
        ),
        super::llama::layers_cmds(
            model.config,
            model.gpu_w->0,
            model.gpu_acts->0,
            pos,
            k,
        ).len() <= 31 * k,
    decreases k,
{
    if k > 0 {
        let (c, gw, ga) = (model.config, model.gpu_w->0, model.gpu_acts->0);
        let less = (k - 1) as nat;
        lemma_layers(model, pos, less);
        lemma_layer(model, k - 1, pos);
        lemma_lacks_add(
            super::llama::layers_cmds(c, gw, ga, pos, less),
            super::record::layer_cmds(c, gw, ga, k - 1, pos),
            |cmd: GpuCmd| boundary(cmd),
        );
    }
}

/// Neither do the tokens `from..to`.
proof fn lemma_tokens(model: LlamaModel, start: int, from: int, to: int)
    requires
        from <= to,
    ensures
        lacks(model.tokens_cmds(start, from, to), |cmd: GpuCmd| boundary(cmd)),
        model.tokens_cmds(start, from, to).len() <= (to - from) * (31 * model.config.n_layers + 1),
    decreases to - from,
{
    let keep = |cmd: GpuCmd| boundary(cmd);
    let per_token = 31 * model.config.n_layers + 1;
    if from < to {
        let n_layers = model.config.n_layers as nat;
        lemma_tokens(model, start, from, to - 1);
        lemma_layers(model, start + (to - 1), n_layers);
        let copy = model.token_cmds(start, to - 1)[0];
        let layers = super::llama::layers_cmds(
            model.config,
            model.gpu_w->0,
            model.gpu_acts->0,
            start + (to - 1),
            n_layers,
        );
        assert(model.token_cmds(start, to - 1) =~= seq![copy] + layers);
        lemma_lacks_add(seq![copy], layers, keep);
        lemma_lacks_add(
            model.tokens_cmds(start, from, to - 1),
            model.token_cmds(start, to - 1),
            keep,
        );
        assert((to - 1 - from) * per_token + per_token == (to - from) * per_token) by (
        nonlinear_arith);
    } else {
        assert((to - from) * per_token == 0) by (nonlinear_arith)
            requires
                to == from,
        ;
    }
}

/// `k` submissions, of which only the last one reads the logits back.
pub open spec fn one_readback(model: LlamaModel, k: nat) -> Seq<GpuCmd> {
    Seq::new(
        k,
        |i: int|
            if i == k - 1 {
                GpuCmd::SubmitWithReadback {
                    logits: (model.gpu_acts->0).logits,
                    readback: (model.gpu_acts->0).logits_rb,
                }
            } else {
                GpuCmd::SubmitNoReadback
            },
    )
}

/// A prompt that is longer than a chunk has one chunk more than what is left after the first.
pub(crate) proof fn lemma_chunk_count(n: int, size: int)
    requires
        n > 0,
        size >= 1,
    ensures
        n <= size ==> super::prefill::chunk_count(n, size) == 1,
        n > size ==> super::prefill::chunk_count(n, size) == 1 + super::prefill::chunk_count(
            n - size,
            size,
        ),
        super::prefill::chunk_count(n, size) >= 1,
{
    assert(n <= size ==> (n + size - 1) / size == 1) by (nonlinear_arith)
        requires
            n > 0,
            size >= 1,
    ;
    assert((n + size - 1) / size == 1 + (n - 1) / size) by (nonlinear_arith)
        requires
            size >= 1,
    ;
    assert((n - 1) / size >= 0) by (nonlinear_arith)
        requires
            n > 0,
            size >= 1,
    ;
}

/// Of an opening command, a body and a close, only the close is kept where `keep` picks
/// nothing of the first two.
proof fn lemma_keeps_close(
    open: GpuCmd,
    body: Seq<GpuCmd>,
    close: Seq<GpuCmd>,
    keep: spec_fn(GpuCmd) -> bool,
)
    requires
        !keep(open),
        lacks(body, keep),
    ensures
        (seq![open] + body + close).filter(keep) == close.filter(keep),
{
    broadcast use filtering;

    lemma_filter_none(body, keep);
    assert((seq![open] + body + close).filter(keep) =~= close.filter(keep));
}

/// Of a body and a last command, only the last command is kept where `keep` picks nothing of
/// the body.
pub(crate) proof fn lemma_keeps_last(body: Seq<GpuCmd>, last: GpuCmd, keep: spec_fn(GpuCmd) -> bool)
    requires
        lacks(body, keep),
        keep(last),
    ensures
        (body + seq![last]).filter(keep) == seq![last],
{
    broadcast use filtering;

    lemma_filter_none(body, keep);
    assert((body + seq![last]).filter(keep) =~= seq![last]);
}

/// The submission that ends a chunk.
pub open spec fn final_submission(model: LlamaModel, last: bool) -> GpuCmd {
    if last {
        GpuCmd::SubmitWithReadback {
            logits: (model.gpu_acts->0).logits,
            readback: (model.gpu_acts->0).logits_rb,
        }
    } else {
        GpuCmd::SubmitNoReadback
    }
}

proof fn lemma_chunk_submissions(model: LlamaModel, start: int, from: int, to: int, n: int)
    requires
        from <= to,
    ensures
        submissions(model.chunk_cmds(start, from, to, n)) == seq![
            final_submission(model, to == n),
        ],
{
    let keep = |cmd: GpuCmd| cmd.submits();
    let body = model.tokens_cmds(start, from, to);
    lemma_tokens(model, start, from, to);
    assert(lacks(body, keep)) by {
        assert forall|i: int| 0 <= i < body.len() implies !keep(#[trigger] body[i]) by {
            let b = |cmd: GpuCmd| boundary(cmd);
            assert(!b(body[i]));
        }
    }
    lemma_keeps_close(
        model.chunk_cmds(start, from, to, n)[0],
        body,
        model.close_cmds(to == n),
        keep,
    );
    let output = super::record::output_cmds(model.config, model.gpu_w->0, model.gpu_acts->0);
    assert(lacks(output, keep));
    lemma_keeps_last(output, final_submission(model, true), keep);
    lemma_keeps_last(Seq::empty(), final_submission(model, false), keep);
    assert(Seq::<GpuCmd>::empty() + seq![final_submission(model, false)] =~= seq![
        final_submission(model, false),
    ]);
}

/// One submission in front of `k` of them.
pub(crate) proof fn lemma_one_more(model: LlamaModel, k: nat)
    ensures
        one_readback(model, 1) == seq![final_submission(model, true)],
        k >= 1 ==> seq![final_submission(model, false)] + one_readback(model, k) == one_readback(
            model,
            k + 1,
        ),
{
    assert(one_readback(model, 1) =~= seq![final_submission(model, true)]);
    if k >= 1 {
        assert(seq![final_submission(model, false)] + one_readback(model, k) =~= one_readback(
            model,
            k + 1,
        ));
    }
}

/// A chunk with one submission in front of `k` submissions, or of nothing.
pub(crate) proof fn lemma_chunk_in_front(
    model: LlamaModel,
    chunk: Seq<GpuCmd>,
    rest: Seq<GpuCmd>,
    last: bool,
    k: nat,
)
    requires
        submissions(chunk) == seq![final_submission(model, last)],
        last ==> rest == Seq::<GpuCmd>::empty() && k == 0,
        !last ==> submissions(rest) == one_readback(model, k) && k >= 1,
    ensures
        submissions(chunk + rest) == one_readback(model, k + 1),
{
    let keep = |cmd: GpuCmd| cmd.submits();
    Seq::filter_distributes_over_add(chunk, rest, keep);
    lemma_one_more(model, k);
    if last {
        lemma_filter_empty(keep);
        lemma_add_empty(submissions(chunk));
    }
}

proof fn lemma_chunks_submissions(model: LlamaModel, start: int, from: int, n: int, size: int)
    requires
        from < n,
        size >= 1,
    ensures
        submissions(model.chunks_cmds(start, from, n, size)) == one_readback(
            model,
            super::prefill::chunk_count(n - from, size) as nat,
        ),
    decreases n - from,
{
    let to = super::prefill::chunk_end(from, size, n);
    let rest = model.chunks_cmds(start, to, n, size);
    lemma_chunk_submissions(model, start, from, to, n);
    lemma_chunk_count(n - from, size);
    let mut k: nat = 0;
    if to < n {
        lemma_chunks_submissions(model, start, to, n, size);
        lemma_chunk_count(n - to, size);
        k = super::prefill::chunk_count(n - to, size) as nat;
    }
    lemma_chunk_in_front(model, model.chunk_cmds(start, from, to, n), rest, to == n, k);
}

/// A prompt takes one submission for each chunk, and the logits are read back once, with the
/// last of them.
pub proof fn law_prefill_submissions(model: LlamaModel, start: int, n: int, size: int)
    requires
        n > 0,
        size >= 1,
    ensures
        submissions(model.prefill_cmds(start, n, size)) == one_readback(
            model,
            super::prefill::chunk_count(n, size) as nat,
        ),
{
    let keep = |cmd: GpuCmd| cmd.submits();
    let chunks = model.chunks_cmds(start, 0, n, size);
    let tail = seq![
        GpuCmd::FreeStaging,
        GpuCmd::ReadLogits {
            logits: (model.gpu_acts->0).logits,
            readback: (model.gpu_acts->0).logits_rb,
        },
    ];
    lemma_chunks_submissions(model, start, 0, n, size);
    Seq::filter_distributes_over_add(chunks, tail, keep);
    lemma_filter_none(tail, keep);
    assert(submissions(chunks) + Seq::<GpuCmd>::empty() =~= submissions(chunks));
}

/// Tokens that follow each other are one run of tokens.
pub(crate) proof fn lemma_tokens_join(model: LlamaModel, start: int, from: int, mid: int, to: int)
    requires
        from <= mid <= to,
    ensures
        model.tokens_cmds(start, from, mid) + model.tokens_cmds(start, mid, to)
            == model.tokens_cmds(start, from, to),
    decreases to - mid,
{
    let front = model.tokens_cmds(start, from, mid);
    if mid == to {
        assert(front + Seq::<GpuCmd>::empty() =~= front);
    } else {
        lemma_tokens_join(model, start, from, mid, to - 1);
        super::llama::lemma_grow(
            front,
            model.tokens_cmds(start, mid, to - 1),
            model.token_cmds(start, to - 1),
        );
    }
}

/// Of an opening command, a body and a close, the opening command is dropped where `keep`
/// picks all of the body and not the opening command.
proof fn lemma_drops_open(
    open: GpuCmd,
    body: Seq<GpuCmd>,
    close: Seq<GpuCmd>,
    keep: spec_fn(GpuCmd) -> bool,
)
    requires
        !keep(open),
        forall|i: int| 0 <= i < body.len() ==> keep(#[trigger] body[i]),
    ensures
        (seq![open] + body + close).filter(keep) == body + close.filter(keep),
{
    broadcast use filtering;

    lemma_filter_all(body, keep);
    assert((seq![open] + body + close).filter(keep) =~= body + close.filter(keep));
}

proof fn lemma_close_work(model: LlamaModel)
    ensures
        work(model.close_cmds(true)) == model.close_cmds(true),
        work(model.close_cmds(false)) == Seq::<GpuCmd>::empty(),
{
    let keep = |cmd: GpuCmd| !cmd.frames();
    let close = model.close_cmds(true);
    assert forall|i: int| 0 <= i < close.len() implies keep(#[trigger] close[i]) by {}
    lemma_filter_all(close, keep);
    lemma_filter_none(model.close_cmds(false), keep);
}

proof fn lemma_chunk_work(model: LlamaModel, start: int, from: int, to: int, n: int)
    requires
        from <= to,
    ensures
        work(model.chunk_cmds(start, from, to, n)) == model.tokens_cmds(start, from, to) + work(
            model.close_cmds(to == n),
        ),
{
    let keep = |cmd: GpuCmd| !cmd.frames();
    let body = model.tokens_cmds(start, from, to);
    lemma_tokens(model, start, from, to);
    assert forall|i: int| 0 <= i < body.len() implies keep(#[trigger] body[i]) by {
        let b = |cmd: GpuCmd| boundary(cmd);
        assert(!b(body[i]));
    }
    lemma_drops_open(
        model.chunk_cmds(start, from, to, n)[0],
        body,
        model.close_cmds(to == n),
        keep,
    );
}

/// The work of a last chunk, and of a chunk in front of others.
proof fn lemma_joined_work(
    chunk: Seq<GpuCmd>,
    rest: Seq<GpuCmd>,
    body: Seq<GpuCmd>,
    later: Seq<GpuCmd>,
    close: Seq<GpuCmd>,
)
    requires
        work(chunk) == body + Seq::<GpuCmd>::empty(),
        work(rest) == later + close,
    ensures
        work(chunk + rest) == (body + later) + close,
{
    Seq::filter_distributes_over_add(chunk, rest, |cmd: GpuCmd| !cmd.frames());
    lemma_add_empty(body);
    super::llama::lemma_grow(body, later, close);
}

proof fn lemma_chunks_work(model: LlamaModel, start: int, from: int, n: int, size: int)
    requires
        from < n,
        size >= 1,
    ensures
        work(model.chunks_cmds(start, from, n, size)) == model.tokens_cmds(start, from, n)
            + model.close_cmds(true),
    decreases n - from,
{
    let to = super::prefill::chunk_end(from, size, n);
    let chunk = model.chunk_cmds(start, from, to, n);
    let rest = model.chunks_cmds(start, to, n, size);
    lemma_chunk_work(model, start, from, to, n);
    lemma_close_work(model);
    if to == n {
        assert(rest == Seq::<GpuCmd>::empty());
        lemma_add_empty(chunk);
    } else {
        lemma_chunks_work(model, start, to, n, size);
        lemma_joined_work(
            chunk,
            rest,
            model.tokens_cmds(start, from, to),
            model.tokens_cmds(start, to, n),
            model.close_cmds(true),
        );
        lemma_tokens_join(model, start, from, to, n);
    }
}

pub(crate) proof fn lemma_add_empty(cmds: Seq<GpuCmd>)
    ensures
        cmds + Seq::<GpuCmd>::empty() == cmds,
{
    assert(cmds + Seq::<GpuCmd>::empty() =~= cmds);
}

/// How a prompt is cut into chunks decides when the device is started, and nothing else: with
/// any two chunk sizes the same work is done in the same order.
pub proof fn law_chunking_keeps_work(
    model: LlamaModel,
    start: int,
    n: int,
    size: int,
    other: int,
)
    requires
        n > 0,
        size >= 1,
        other >= 1,
    ensures
        work(model.prefill_cmds(start, n, size)) == work(model.prefill_cmds(start, n, other)),
{
    let keep = |cmd: GpuCmd| !cmd.frames();
    let tail = seq![
        GpuCmd::FreeStaging,
        GpuCmd::ReadLogits {
            logits: (model.gpu_acts->0).logits,
            readback: (model.gpu_acts->0).logits_rb,
        },
    ];
    lemma_chunks_work(model, start, 0, n, size);
    lemma_chunks_work(model, start, 0, n, other);
    Seq::filter_distributes_over_add(model.chunks_cmds(start, 0, n, size), tail, keep);
    Seq::filter_distributes_over_add(model.chunks_cmds(start, 0, n, other), tail, keep);
}

/// The descriptor sets that a chunk asks for are enough for its dispatches, whatever the model.
pub proof fn law_prefill_sets_suffice(model: LlamaModel, start: int, from: int, to: int, n: int)
    requires
        from < to <= n,
    ensures
        dispatches(model.chunk_cmds(start, from, to, n)).len() <= super::prefill::gemv_sets(
            model.config.n_layers as int,
            to - from,
        ),
{
    lemma_tokens(model, start, from, to);
    model.chunk_cmds(start, from, to, n).lemma_filter_len(|cmd: GpuCmd| cmd.dispatches());
    let (t, k) = (to - from, model.config.n_layers as int);
    assert(model.close_cmds(to == n).len() <= 4);
    assert(t * (31 * k + 1) + 5 <= t * (k * 22 + 4) * 2) by (nonlinear_arith)
        requires
            t >= 1,
            k >= 0,
    ;
}

/// A time stamp is no dispatch, nor is the barrier between two layers.
proof fn lemma_timed_layer_dispatches(model: LlamaModel, l: int, pos: int)
    ensures
        dispatches(
            super::llama::timed_layer_cmds(
                model.config,
                model.gpu_w->0,
                model.gpu_acts->0,
                l,
                pos,
            ),
        ) == dispatches(
            super::record::layer_cmds(model.config, model.gpu_w->0, model.gpu_acts->0, l, pos),
        ),
{
    let keep = |cmd: GpuCmd| cmd.dispatches();
    let (c, gw, ga) = (model.config, model.gpu_w->0, model.gpu_acts->0);
    let st = super::llama::stamp(l);
    lemma_filter_none(st, keep);
    lemma_filter_none(super::llama::layer_end(c, l), keep);
    lemma_filter_none(seq![GpuCmd::Barrier], keep);
    let residual = seq![super::record::residual_cmd(c, ga)];
    lemma_stamped_filter(
        super::record::norm_stretch(c, ga, l),
        super::record::qkv_stretch(gw, ga, l),
        super::record::bias_stretch(c, ga, l),
        super::record::attend_stretch(c, ga, l, pos),
        super::record::project_stretch(c, gw, ga, l),
        super::record::feed_stretch(c, gw, ga, l),
        residual,
        st,
        super::llama::layer_end(c, l),
        keep,
    );
}

proof fn lemma_stamped_filter(
    s1: Seq<GpuCmd>,
    s2: Seq<GpuCmd>,
    s3: Seq<GpuCmd>,
    s4: Seq<GpuCmd>,
    s5: Seq<GpuCmd>,
    s6: Seq<GpuCmd>,
    s7: Seq<GpuCmd>,
    st: Seq<GpuCmd>,
    end: Seq<GpuCmd>,
    keep: spec_fn(GpuCmd) -> bool,
)
    requires
        st.filter(keep) == Seq::<GpuCmd>::empty(),
        end.filter(keep) == Seq::<GpuCmd>::empty(),
        seq![GpuCmd::Barrier].filter(keep) == Seq::<GpuCmd>::empty(),
    ensures
        (s1 + st + s2 + st + s3 + s4 + st + s5 + st + s6 + st + s7 + end).filter(keep) == (s1 + s2
            + s3 + s4 + s5 + s6 + (s7 + seq![GpuCmd::Barrier])).filter(keep),
{
    broadcast use Seq::filter_distributes_over_add;

    assert((s1 + st + s2 + st + s3 + s4 + st + s5 + st + s6 + st + s7 + end).filter(keep) =~= (s1
        + s2 + s3 + s4 + s5 + s6 + (s7 + seq![GpuCmd::Barrier])).filter(keep));
}

proof fn lemma_timed_layers_dispatches(model: LlamaModel, pos: int, k: nat)
    ensures
        dispatches(
            super::llama::timed_layers_cmds(
                model.config,
                model.gpu_w->0,
                model.gpu_acts->0,
                pos,
                k,
            ),
        ) == dispatches(
            super::llama::layers_cmds(model.config, model.gpu_w->0, model.gpu_acts->0, pos, k),
        ),
    decreases k,
{
    if k > 0 {
        let keep = |cmd: GpuCmd| cmd.dispatches();
        let (c, gw, ga) = (model.config, model.gpu_w->0, model.gpu_acts->0);
        let less = (k - 1) as nat;
        lemma_timed_layers_dispatches(model, pos, less);
        lemma_timed_layer_dispatches(model, k - 1, pos);
        Seq::filter_distributes_over_add(
            super::llama::timed_layers_cmds(c, gw, ga, pos, less),
            super::llama::timed_layer_cmds(c, gw, ga, k - 1, pos),
            keep,
        );
        Seq::filter_distributes_over_add(
            super::llama::layers_cmds(c, gw, ga, pos, less),
            super::record::layer_cmds(c, gw, ga, k - 1, pos),
            keep,
        );
    }
}

proof fn lemma_one_token_filter(
    head: Seq<GpuCmd>,
    timed: Seq<GpuCmd>,
    stamp: Seq<GpuCmd>,
    output: Seq<GpuCmd>,
    tail: Seq<GpuCmd>,
    open: Seq<GpuCmd>,
    copy: Seq<GpuCmd>,
    layers: Seq<GpuCmd>,
    submit: Seq<GpuCmd>,
    end: Seq<GpuCmd>,
    keep: spec_fn(GpuCmd) -> bool,
)
    requires
        lacks(head, keep),
        lacks(stamp, keep),
        lacks(tail, keep),
        lacks(open, keep),
        lacks(copy, keep),
        lacks(submit, keep),
        lacks(end, keep),
        timed.filter(keep) == layers.filter(keep),
    ensures
        (head + timed + stamp + output + tail).filter(keep) == (open + (copy + layers) + (output
            + submit) + end).filter(keep),
{
    broadcast use Seq::filter_distributes_over_add;

    lemma_filter_none(head, keep);
    lemma_filter_none(stamp, keep);
    lemma_filter_none(tail, keep);
    lemma_filter_none(open, keep);
    lemma_filter_none(copy, keep);
    lemma_filter_none(submit, keep);
    lemma_filter_none(end, keep);
    assert((head + timed + stamp + output + tail).filter(keep) =~= (open + (copy + layers) + (
    output + submit) + end).filter(keep));
}

/// Evaluating one token and evaluating a prompt of that one token dispatch the same
/// computations in the same order.
pub proof fn law_prefill_of_one_token(model: LlamaModel, token: usize, pos: int, size: int)
    requires
        size >= 1,
    ensures
        dispatches(
            super::llama::forward_cmds(
                model.config,
                model.gpu_w->0,
                model.gpu_acts->0,
                token,
                pos,
            ),
        ) == dispatches(model.prefill_cmds(pos, 1, size)),
{
    let keep = |cmd: GpuCmd| cmd.dispatches();
    let (c, gw, ga) = (model.config, model.gpu_w->0, model.gpu_acts->0);
    let k = c.n_layers as nat;
    lemma_timed_layers_dispatches(model, pos, k);
    let layers = super::llama::layers_cmds(c, gw, ga, pos, k);
    let copy = seq![model.token_cmds(pos, 0)[0]];
    let open = seq![model.chunk_cmds(pos, 0, 1, 1)[0]];
    let submit = seq![final_submission(model, true)];
    let end = seq![
        GpuCmd::FreeStaging,
        GpuCmd::ReadLogits { logits: ga.logits, readback: ga.logits_rb },
    ];
    let output = super::record::output_cmds(c, gw, ga);
    assert(model.tokens_cmds(pos, 0, 0) =~= Seq::<GpuCmd>::empty());
    assert(Seq::<GpuCmd>::empty() + model.token_cmds(pos, 0) =~= model.token_cmds(pos, 0));
    assert(model.tokens_cmds(pos, 0, 1) == copy + layers);
    assert(model.chunks_cmds(pos, 1, 1, size) =~= Seq::<GpuCmd>::empty());
    assert(super::prefill::chunk_end(0, size, 1) == 1);
    let chunk = model.chunk_cmds(pos, 0, 1, 1);
    assert(chunk == open + (copy + layers) + (output + submit));
    assert(chunk + Seq::<GpuCmd>::empty() =~= chunk);
    assert(model.chunks_cmds(pos, 0, 1, size) == chunk);
    let head = seq![
        GpuCmd::Begin,
        GpuCmd::UploadEmbedding { dst: ga.x, token },
        GpuCmd::Timestamp,
    ];
    let tail = seq![
        GpuCmd::Timestamp,
        GpuCmd::SubmitWithReadback { logits: ga.logits, readback: ga.logits_rb },
        GpuCmd::PrintTimestamps,
        GpuCmd::ReadLogits { logits: ga.logits, readback: ga.logits_rb },
    ];
    lemma_one_token_filter(
        head,
        super::llama::timed_layers_cmds(c, gw, ga, pos, k),
        seq![GpuCmd::Timestamp],
        output,
        tail,
        open,
        copy,
        layers,
        submit,
        end,
        keep,
    );
}

} // verus!
