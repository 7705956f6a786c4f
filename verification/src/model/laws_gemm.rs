//! What holds of a prompt that is evaluated a chunk of tokens at a time.
use vstd::prelude::*;

use super::gpu::GpuCmd;
use super::llama::LlamaModel;

verus! {

/// The attention of a chunk neither submits nor opens or closes a recording, and holds no
/// matrix product.
pub(crate) proof fn lemma_items(model: LlamaModel, l: int, pos: int, b: int, k: int)
    ensures
        super::laws::lacks(
            model.batch_items(l, pos, b, k),
            |cmd: GpuCmd| super::laws::boundary(cmd),
        ),
        super::laws::lacks(model.batch_items(l, pos, b, k), |cmd: GpuCmd| cmd is Gemm),
        super::laws::lacks(model.batch_items(l, pos, b, k), |cmd: GpuCmd| cmd is Gemv),
        model.batch_items(l, pos, b, k).len() <= (if k <= 0 {
            0
        } else {
            2 * k
        }),
    decreases k,
{
    if k > 0 {
        lemma_items(model, l, pos, b, k - 1);
        let less = model.batch_items(l, pos, b, k - 1);
        let all = model.batch_items(l, pos, b, k);
        let edge = |cmd: GpuCmd| super::laws::boundary(cmd);
        let gemm = |cmd: GpuCmd| cmd is Gemm;
        let gemv = |cmd: GpuCmd| cmd is Gemv;
        assert forall|i: int| 0 <= i < all.len() implies !edge(#[trigger] all[i]) && !gemm(
            all[i],
        ) && !gemv(all[i]) by {
            if i < less.len() {
                assert(all[i] == less[i]);
                assert(!edge(less[i]) && !gemm(less[i]) && !gemv(less[i]));
            } else if i == less.len() {
                assert(all[i] == model.batch_item_cmd(l, pos, k - 1));
            } else {
                assert(all[i] == GpuCmd::Barrier);
            }
        }
    }
}

/// A layer neither submits nor opens or closes a recording, and it is short.
proof fn lemma_batch_layer(model: LlamaModel, l: int, pos: int, b: int)
    requires
        b >= 0,
    ensures
        super::laws::lacks(
            model.batch_layer_cmds(l, pos, b),
            |cmd: GpuCmd| super::laws::boundary(cmd),
        ),
        model.batch_layer_cmds(l, pos, b).len() <= 30 + 2 * b,
{
    let keep = |cmd: GpuCmd| super::laws::boundary(cmd);
    let s1 = model.batch_qkv_stretch(l, b);
    let s2 = model.batch_bias_stretch(l, b);
    let s3 = model.batch_write_stretch(l, pos, b);
    let s4 = model.batch_items(l, pos, b, b);
    let s5 = model.batch_out_stretch(l, b);
    let s6 = model.batch_feed_stretch(l, b);
    lemma_items(model, l, pos, b, b);
    assert(super::laws::lacks(s1, keep));
    assert(super::laws::lacks(s2, keep));
    assert(super::laws::lacks(s3, keep));
    assert(super::laws::lacks(s5, keep));
    assert(super::laws::lacks(s6, keep));
    super::laws::lemma_lacks_add(s1, s2, keep);
    super::laws::lemma_lacks_add(s1 + s2, s3, keep);
    super::laws::lemma_lacks_add(s1 + s2 + s3, s4, keep);
    super::laws::lemma_lacks_add(s1 + s2 + s3 + s4, s5, keep);
    super::laws::lemma_lacks_add(s1 + s2 + s3 + s4 + s5, s6, keep);
}

proof fn lemma_batch_layers(model: LlamaModel, pos: int, b: int, k: nat)
    requires
        b >= 0,
    ensures
        super::laws::lacks(
            model.batch_layers_cmds(pos, b, k),
            |cmd: GpuCmd| super::laws::boundary(cmd),
        ),
        model.batch_layers_cmds(pos, b, k).len() <= k * (30 + 2 * b),
    decreases k,
{
    if k > 0 {
        let less = (k - 1) as nat;
        lemma_batch_layers(model, pos, b, less);
        lemma_batch_layer(model, k - 1, pos, b);
        super::laws::lemma_lacks_add(
            model.batch_layers_cmds(pos, b, less),
            model.batch_layer_cmds(k - 1, pos, b),
            |cmd: GpuCmd| super::laws::boundary(cmd),
        );
        assert(less * (30 + 2 * b) + (30 + 2 * b) == k * (30 + 2 * b)) by (nonlinear_arith)
            requires
                less == k - 1,
        ;
    }
}

proof fn lemma_batch_submissions(model: LlamaModel, start: int, from: int, to: int, n: int)
    requires
        from <= to,
    ensures
        super::laws::submissions(model.batch_cmds(start, from, to, n)) == seq![
            super::laws::final_submission(model, to == n),
        ],
{
    let keep = |cmd: GpuCmd| cmd.submits();
    let edge = |cmd: GpuCmd| super::laws::boundary(cmd);
    let b = to - from;
    let open = model.batch_open_cmds(from, b);
    let layers = model.batch_layers_cmds(start + from, b, model.config.n_layers as nat);
    let close = model.batch_close_cmds(b, to == n);
    let last = super::laws::final_submission(model, to == n);
    lemma_batch_layers(model, start + from, b, model.config.n_layers as nat);
    assert forall|i: int| 0 <= i < layers.len() implies !keep(#[trigger] layers[i]) by {
        assert(!edge(layers[i]));
    }
    assert(super::laws::lacks(open, keep));
    super::laws::lemma_lacks_add(open, layers, keep);
    let before = close.drop_last();
    assert(super::laws::lacks(before, keep));
    super::laws::lemma_lacks_add(open + layers, before, keep);
    assert(close =~= before + seq![last]);
    super::llama::lemma_grow(open + layers, before, seq![last]);
    super::laws::lemma_keeps_last(open + layers + before, last, keep);
}

proof fn lemma_batches_submissions(model: LlamaModel, start: int, from: int, n: int, size: int)
    requires
        from < n,
        size >= 1,
    ensures
        super::laws::submissions(model.batches_cmds(start, from, n, size))
            == super::laws::one_readback(
            model,
            super::prefill::chunk_count(n - from, size) as nat,
        ),
    decreases n - from,
{
    let to = super::prefill::chunk_end(from, size, n);
    let rest = model.batches_cmds(start, to, n, size);
    lemma_batch_submissions(model, start, from, to, n);
    super::laws::lemma_chunk_count(n - from, size);
    let mut k: nat = 0;
    if to < n {
        lemma_batches_submissions(model, start, to, n, size);
        super::laws::lemma_chunk_count(n - to, size);
        k = super::prefill::chunk_count(n - to, size) as nat;
    }
    super::laws::lemma_chunk_in_front(
        model,
        model.batch_cmds(start, from, to, n),
        rest,
        to == n,
        k,
    );
}

/// A prompt takes one submission for each chunk, and the logits are read back once, with the
/// last of them.
pub proof fn law_prefill_gemm_submissions(model: LlamaModel, start: int, n: int, size: int)
    requires
        n > 0,
        size >= 1,
    ensures
        super::laws::submissions(model.prefill_gemm_cmds(start, n, size))
            == super::laws::one_readback(model, super::prefill::chunk_count(n, size) as nat),
{
    let keep = |cmd: GpuCmd| cmd.submits();
    let batches = model.batches_cmds(start, 0, n, size);
    let tail = seq![
        GpuCmd::ReadLogits {
            logits: (model.gpu_acts->0).logits,
            readback: (model.gpu_acts->0).logits_rb,
        },
    ];
    lemma_batches_submissions(model, start, 0, n, size);
    Seq::filter_distributes_over_add(batches, tail, keep);
    super::laws::lemma_filter_none(tail, keep);
    super::laws::lemma_add_empty(super::laws::submissions(batches));
}

/// The descriptor sets that a chunk asks for are enough for its dispatches, whatever the model.
pub proof fn law_gemm_sets_suffice(model: LlamaModel, start: int, from: int, to: int, n: int)
    requires
        from < to <= n,
    ensures
        super::laws::dispatches(model.batch_cmds(start, from, to, n)).len()
            <= super::prefill_gemm::gemm_sets(model.config.n_layers as int, to - from),
{
    let (b, k) = (to - from, model.config.n_layers as int);
    lemma_batch_layers(model, start + from, b, k as nat);
    model.batch_cmds(start, from, to, n).lemma_filter_len(|cmd: GpuCmd| cmd.dispatches());
    assert(model.batch_close_cmds(b, to == n).len() <= 6);
    assert(k * (30 + 2 * b) <= b * k * 22 * 2 + b * k) by (nonlinear_arith)
        requires
            b >= 1,
            k >= 0,
    ;
}

} // verus!
