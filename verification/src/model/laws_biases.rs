//! A bias joins the projection of its own name, once, before the positions are turned in.
use vstd::prelude::*;

use super::config::ModelConfig;
use super::gpu::{ActBuf, GpuActs, GpuCmd, GpuTensor};
use super::llama::LlamaModel;
use super::weights::Weights;

verus! {

/// The command adds what is in `b` to something.
pub open spec fn adds(cmd: GpuCmd, b: ActBuf) -> bool {
    match cmd {
        GpuCmd::Add { src, .. } => src == b,
        GpuCmd::BatchAdd { src, .. } => src == b,
        GpuCmd::BatchBiasAdd { bias, .. } => bias == b,
        _ => false,
    }
}

/// The command turns positions in, stores keys and values, or attends.
pub open spec fn uses_projections(cmd: GpuCmd) -> bool {
    match cmd {
        GpuCmd::Rope { .. } => true,
        GpuCmd::BatchRope { .. } => true,
        GpuCmd::KvWrite { .. } => true,
        GpuCmd::BatchKvWrite { .. } => true,
        GpuCmd::Attention { .. } => true,
        GpuCmd::BatchAttnItem { .. } => true,
        _ => false,
    }
}

/// What is in `b` is added once, by the command `sum`, after the command `product` and before
/// the projections are used.
pub open spec fn joins(cmds: Seq<GpuCmd>, product: GpuCmd, sum: GpuCmd, b: ActBuf) -> bool {
    exists|p: int, i: int|
        #![trigger cmds[p], cmds[i]]
        0 <= p < i < cmds.len() && cmds[p] == product && cmds[i] == sum && (forall|j: int|
            0 <= j < cmds.len() && j != i ==> !adds(#[trigger] cmds[j], b)) && (forall|j: int|
            0 <= j < i ==> !uses_projections(#[trigger] cmds[j]))
}

/// None of the commands adds what is in `b`.
pub open spec fn never_adds(cmds: Seq<GpuCmd>, b: ActBuf) -> bool {
    forall|j: int| 0 <= j < cmds.len() ==> !adds(#[trigger] cmds[j], b)
}

/// None of the commands uses the projections.
pub open spec fn only_projects(cmds: Seq<GpuCmd>) -> bool {
    forall|j: int| 0 <= j < cmds.len() ==> !uses_projections(#[trigger] cmds[j])
}

proof fn lemma_joins(
    x: Seq<GpuCmd>,
    product: GpuCmd,
    y: Seq<GpuCmd>,
    sum: GpuCmd,
    z: Seq<GpuCmd>,
    b: ActBuf,
)
    requires
        never_adds(x, b),
        never_adds(y, b),
        never_adds(z, b),
        !adds(product, b),
        only_projects(x),
        only_projects(y),
        !uses_projections(product),
    ensures
        joins(x + seq![product] + y + seq![sum] + z, product, sum, b),
{
    let cmds = x + seq![product] + y + seq![sum] + z;
    let p = x.len() as int;
    let i = p + 1 + y.len();
    assert(cmds[p] == product);
    assert(cmds[i] == sum);
    assert forall|j: int| 0 <= j < cmds.len() && j != i implies !adds(#[trigger] cmds[j], b) by {
        if j < p {
            assert(cmds[j] == x[j]);
        } else if j > p && j < i {
            assert(cmds[j] == y[j - p - 1]);
        } else if j > i {
            assert(cmds[j] == z[j - i - 1]);
        }
    }
    assert forall|j: int| 0 <= j < i implies !uses_projections(#[trigger] cmds[j]) by {
        if j < p {
            assert(cmds[j] == x[j]);
        } else if j > p {
            assert(cmds[j] == y[j - p - 1]);
        }
    }
}

proof fn lemma_never_adds(x: Seq<GpuCmd>, y: Seq<GpuCmd>, b: ActBuf)
    requires
        never_adds(x, b),
        never_adds(y, b),
    ensures
        never_adds(x + y, b),
{
    assert forall|j: int| 0 <= j < (x + y).len() implies !adds(#[trigger] (x + y)[j], b) by {
        if j < x.len() {
            assert((x + y)[j] == x[j]);
        } else {
            assert((x + y)[j] == y[j - x.len()]);
        }
    }
}

/// The buffers of the biases of a layer are apart from each other and from those that are added
/// to the residual.
proof fn lemma_apart(ga: GpuActs, w: Weights, c: ModelConfig, ctx_len: usize, l: int)
    requires
        ga.is_allocated(w, c, ctx_len),
        super::acts::all_rooms(w, c, ctx_len).len() <= usize::MAX,
        0 <= l < c.n_layers,
    ensures
        ga.q_bias@[l] matches Some(b) ==> ga.k_bias@[l] != Some(b) && ga.v_bias@[l] != Some(b)
            && b != ga.proj && b != ga.ff && b != ga.proj_batch && b != ga.ff_batch,
        ga.k_bias@[l] matches Some(b) ==> ga.v_bias@[l] != Some(b) && b != ga.proj && b != ga.ff
            && b != ga.proj_batch && b != ga.ff_batch,
        ga.v_bias@[l] matches Some(b) ==> b != ga.proj && b != ga.ff && b != ga.proj_batch && b
            != ga.ff_batch,
{
    let n = c.n_layers as nat;
    super::laws_acts::lemma_cache_rooms(c, ctx_len, n);
    super::acts::lemma_norm_rooms_len(w, c, n);
    super::laws_acts::lemma_bias_rooms(w, n, l);
    assert(ga.layer_allocated(w, c, l));
}

/// A layer: its norm, three products, three biases of which some are there, and the rest.
pub open spec fn layout(
    norm: Seq<GpuCmd>,
    products: (GpuCmd, GpuCmd, GpuCmd),
    sums: (Seq<GpuCmd>, Seq<GpuCmd>, Seq<GpuCmd>),
    fence: Seq<GpuCmd>,
    rest: Seq<GpuCmd>,
) -> Seq<GpuCmd> {
    norm + (seq![products.0] + seq![products.1] + seq![products.2] + seq![GpuCmd::Barrier]) + (
    sums.0 + sums.1 + sums.2 + fence) + rest
}

/// The parts of a layer around its biases neither add what is in `b` nor, before the rest, use
/// the projections.
pub open spec fn is_plain(
    norm: Seq<GpuCmd>,
    products: (GpuCmd, GpuCmd, GpuCmd),
    fence: Seq<GpuCmd>,
    rest: Seq<GpuCmd>,
    b: ActBuf,
) -> bool {
    &&& never_adds(norm, b) && only_projects(norm)
    &&& !adds(products.0, b) && !uses_projections(products.0)
    &&& !adds(products.1, b) && !uses_projections(products.1)
    &&& !adds(products.2, b) && !uses_projections(products.2)
    &&& never_adds(fence, b) && only_projects(fence)
    &&& never_adds(rest, b)
}

proof fn lemma_queries(
    norm: Seq<GpuCmd>,
    products: (GpuCmd, GpuCmd, GpuCmd),
    sums: (Seq<GpuCmd>, Seq<GpuCmd>, Seq<GpuCmd>),
    fence: Seq<GpuCmd>,
    rest: Seq<GpuCmd>,
    b: ActBuf,
)
    requires
        is_plain(norm, products, fence, rest, b),
        sums.0.len() == 1,
        never_adds(sums.1, b),
        never_adds(sums.2, b),
    ensures
        joins(layout(norm, products, sums, fence, rest), products.0, sums.0[0], b),
{
    let y = seq![products.1] + seq![products.2] + seq![GpuCmd::Barrier];
    let z = sums.1 + sums.2 + fence + rest;
    lemma_never_adds(sums.1, sums.2, b);
    lemma_never_adds(sums.1 + sums.2, fence, b);
    lemma_never_adds(sums.1 + sums.2 + fence, rest, b);
    lemma_joins(norm, products.0, y, sums.0[0], z, b);
    assert(layout(norm, products, sums, fence, rest) =~= norm + seq![products.0] + y + seq![
        sums.0[0],
    ] + z);
}

proof fn lemma_keys(
    norm: Seq<GpuCmd>,
    products: (GpuCmd, GpuCmd, GpuCmd),
    sums: (Seq<GpuCmd>, Seq<GpuCmd>, Seq<GpuCmd>),
    fence: Seq<GpuCmd>,
    rest: Seq<GpuCmd>,
    b: ActBuf,
)
    requires
        is_plain(norm, products, fence, rest, b),
        sums.1.len() == 1,
        never_adds(sums.0, b),
        never_adds(sums.2, b),
        only_projects(sums.0),
    ensures
        joins(layout(norm, products, sums, fence, rest), products.1, sums.1[0], b),
{
    let x = norm + seq![products.0];
    let y = seq![products.2] + seq![GpuCmd::Barrier] + sums.0;
    let z = sums.2 + fence + rest;
    lemma_never_adds(norm, seq![products.0], b);
    lemma_never_adds(seq![products.2] + seq![GpuCmd::Barrier], sums.0, b);
    lemma_never_adds(sums.2, fence, b);
    lemma_never_adds(sums.2 + fence, rest, b);
    lemma_joins(x, products.1, y, sums.1[0], z, b);
    assert(layout(norm, products, sums, fence, rest) =~= x + seq![products.1] + y + seq![
        sums.1[0],
    ] + z);
}

proof fn lemma_values(
    norm: Seq<GpuCmd>,
    products: (GpuCmd, GpuCmd, GpuCmd),
    sums: (Seq<GpuCmd>, Seq<GpuCmd>, Seq<GpuCmd>),
    fence: Seq<GpuCmd>,
    rest: Seq<GpuCmd>,
    b: ActBuf,
)
    requires
        is_plain(norm, products, fence, rest, b),
        sums.2.len() == 1,
        never_adds(sums.0, b),
        never_adds(sums.1, b),
        only_projects(sums.0),
        only_projects(sums.1),
    ensures
        joins(layout(norm, products, sums, fence, rest), products.2, sums.2[0], b),
{
    let x = norm + seq![products.0] + seq![products.1];
    let y = seq![GpuCmd::Barrier] + sums.0 + sums.1;
    let z = fence + rest;
    lemma_never_adds(norm, seq![products.0], b);
    lemma_never_adds(norm + seq![products.0], seq![products.1], b);
    lemma_never_adds(seq![GpuCmd::Barrier], sums.0, b);
    lemma_never_adds(seq![GpuCmd::Barrier] + sums.0, sums.1, b);
    lemma_never_adds(fence, rest, b);
    lemma_joins(x, products.2, y, sums.2[0], z, b);
    assert(layout(norm, products, sums, fence, rest) =~= x + seq![products.2] + y + seq![
        sums.2[0],
    ] + z);
}

/// What follows the biases of a layer does not add a bias.
proof fn lemma_token_rest(model: LlamaModel, l: int, pos: int, b: ActBuf)
    requires
        b != (model.gpu_acts->0).proj,
        b != (model.gpu_acts->0).ff,
    ensures
        ({
            let (c, gw, ga) = (model.config, model.gpu_w->0, model.gpu_acts->0);
            &&& never_adds(super::record::attend_stretch(c, ga, l, pos), b)
            &&& never_adds(super::record::project_stretch(c, gw, ga, l), b)
            &&& never_adds(super::record::feed_stretch(c, gw, ga, l), b)
            &&& never_adds(super::record::fenced(super::record::residual_cmd(c, ga)), b)
        }),
{
}

/// What follows the biases of a batch does not add a bias.
proof fn lemma_batch_rest(model: LlamaModel, l: int, pos: int, n: int, b: ActBuf)
    requires
        b != (model.gpu_acts->0).proj_batch,
        b != (model.gpu_acts->0).ff_batch,
    ensures
        never_adds(model.batch_write_stretch(l, pos, n), b),
        never_adds(model.batch_items(l, pos, n, n), b),
        never_adds(model.batch_out_stretch(l, n), b),
        never_adds(model.batch_feed_stretch(l, n), b),
{
    lemma_items(model, l, pos, n, n, b);
}

/// Parts one after the other, grouped in another way.
proof fn lemma_regroup(
    x: Seq<GpuCmd>,
    s: Seq<GpuCmd>,
    t: Seq<GpuCmd>,
    u: Seq<GpuCmd>,
    v: Seq<GpuCmd>,
)
    ensures
        x + s + t + u + v == x + (s + t + u + v),
{
    assert(x + s + t + u + v =~= x + (s + t + u + v));
}

/// In the commands of a layer for one token each bias that the layer has is added once: the bias
/// of the queries to the product of the query matrix, that of the keys to the product of the key
/// matrix, that of the values to the product of the value matrix, each after that product and
/// before the positions are turned in and the cache is written.
pub proof fn law_biases_join_their_projections(
    model: LlamaModel,
    ctx_len: usize,
    l: int,
    pos: int,
    q: GpuTensor,
    k: GpuTensor,
    v: GpuTensor,
)
    requires
        model.on_gpu(),
        (model.gpu_acts->0).is_allocated(model.weights, model.config, ctx_len),
        super::acts::all_rooms(model.weights, model.config, ctx_len).len() <= usize::MAX,
        super::laws_device::dims_fit(model.config, ctx_len),
        0 <= l < model.config.n_layers,
        (model.gpu_w->0).attn_q@[l] == Some(q),
        (model.gpu_w->0).attn_k@[l] == Some(k),
        (model.gpu_w->0).attn_v@[l] == Some(v),
    ensures
        ({
            let (c, gw, ga) = (model.config, model.gpu_w->0, model.gpu_acts->0);
            let cmds = super::record::layer_cmds(c, gw, ga, l, pos);
            &&& ga.q_bias@[l] matches Some(b) ==> exists|n: u32|
                n == c.n_heads * c.head_dim && #[trigger] joins(
                    cmds,
                    GpuCmd::Gemv { weight: q, src: ga.xn, dst: ga.q },
                    GpuCmd::Add { dst: ga.q, src: b, n },
                    b,
                )
            &&& ga.k_bias@[l] matches Some(b) ==> exists|n: u32|
                n == c.n_kv_heads * c.head_dim && #[trigger] joins(
                    cmds,
                    GpuCmd::Gemv { weight: k, src: ga.xn, dst: ga.k },
                    GpuCmd::Add { dst: ga.k, src: b, n },
                    b,
                )
            &&& ga.v_bias@[l] matches Some(b) ==> exists|n: u32|
                n == c.n_kv_heads * c.head_dim && #[trigger] joins(
                    cmds,
                    GpuCmd::Gemv { weight: v, src: ga.xn, dst: ga.v },
                    GpuCmd::Add { dst: ga.v, src: b, n },
                    b,
                )
        }),
{
    let (c, gw, ga) = (model.config, model.gpu_w->0, model.gpu_acts->0);
    lemma_apart(ga, model.weights, c, ctx_len, l);
    let norm = super::record::norm_stretch(c, ga, l);
    let products = (
        GpuCmd::Gemv { weight: q, src: ga.xn, dst: ga.q },
        GpuCmd::Gemv { weight: k, src: ga.xn, dst: ga.k },
        GpuCmd::Gemv { weight: v, src: ga.xn, dst: ga.v },
    );
    let nq = (c.n_heads * c.head_dim) as u32;
    let nk = (c.n_kv_heads * c.head_dim) as u32;
    let sums = (
        super::record::bias_cmd(ga.q_bias@[l], ga.q, nq),
        super::record::bias_cmd(ga.k_bias@[l], ga.k, nk),
        super::record::bias_cmd(ga.v_bias@[l], ga.v, nk),
    );
    let fence = super::record::bias_barrier(ga, l);
    let attend = super::record::attend_stretch(c, ga, l, pos);
    let project = super::record::project_stretch(c, gw, ga, l);
    let feed = super::record::feed_stretch(c, gw, ga, l);
    let last = super::record::fenced(super::record::residual_cmd(c, ga));
    let rest = attend + project + feed + last;
    let cmds = super::record::layer_cmds(c, gw, ga, l, pos);
    assert(cmds == layout(norm, products, sums, fence, rest)) by {
        let front = norm + super::record::qkv_stretch(gw, ga, l) + super::record::bias_stretch(
            c,
            ga,
            l,
        );
        lemma_regroup(front, attend, project, feed, last);
    }
    if let Some(b) = ga.q_bias@[l] {
        assert(is_plain(norm, products, fence, rest, b)) by {
            lemma_token_rest(model, l, pos, b);
            lemma_rest(attend, project, feed, last, b);
        }
        lemma_queries(norm, products, sums, fence, rest, b);
    }
    if let Some(b) = ga.k_bias@[l] {
        assert(is_plain(norm, products, fence, rest, b)) by {
            lemma_token_rest(model, l, pos, b);
            lemma_rest(attend, project, feed, last, b);
        }
        lemma_keys(norm, products, sums, fence, rest, b);
    }
    if let Some(b) = ga.v_bias@[l] {
        assert(is_plain(norm, products, fence, rest, b)) by {
            lemma_token_rest(model, l, pos, b);
            lemma_rest(attend, project, feed, last, b);
        }
        lemma_values(norm, products, sums, fence, rest, b);
    }
}

proof fn lemma_rest(
    s: Seq<GpuCmd>,
    t: Seq<GpuCmd>,
    u: Seq<GpuCmd>,
    v: Seq<GpuCmd>,
    b: ActBuf,
)
    requires
        never_adds(s, b),
        never_adds(t, b),
        never_adds(u, b),
        never_adds(v, b),
    ensures
        never_adds(s + t + u + v, b),
{
    lemma_never_adds(s, t, b);
    lemma_never_adds(s + t, u, b);
    lemma_never_adds(s + t + u, v, b);
}

proof fn lemma_items(model: LlamaModel, l: int, pos: int, n: int, k: int, b: ActBuf)
    ensures
        never_adds(model.batch_items(l, pos, n, k), b),
    decreases k,
{
    if k > 0 {
        lemma_items(model, l, pos, n, k - 1, b);
        let less = model.batch_items(l, pos, n, k - 1);
        let item = seq![model.batch_item_cmd(l, pos, k - 1)];
        let wait = if k < n {
            seq![GpuCmd::Barrier]
        } else {
            Seq::empty()
        };
        lemma_never_adds(less, item, b);
        lemma_never_adds(less + item, wait, b);
        assert(model.batch_items(l, pos, n, k) =~= less + item + wait);
    }
}

/// In the commands of a layer for a batch each bias that the layer has is added once, to the
/// rows that the product of the matrix of the same name gave, after that product and before the
/// positions are turned in and the cache is written.
pub proof fn law_batch_biases_join_their_projections(
    model: LlamaModel,
    ctx_len: usize,
    l: int,
    pos: int,
    batch: u32,
    q: GpuTensor,
    k: GpuTensor,
    v: GpuTensor,
)
    requires
        model.on_gpu(),
        (model.gpu_acts->0).is_allocated(model.weights, model.config, ctx_len),
        super::acts::all_rooms(model.weights, model.config, ctx_len).len() <= usize::MAX,
        super::laws_device::dims_fit(model.config, ctx_len),
        0 <= l < model.config.n_layers,
        (model.gpu_w->0).attn_q@[l] == Some(q),
        (model.gpu_w->0).attn_k@[l] == Some(k),
        (model.gpu_w->0).attn_v@[l] == Some(v),
    ensures
        ({
            let (c, ga) = (model.config, model.gpu_acts->0);
            let cmds = model.batch_layer_cmds(l, pos, batch as int);
            &&& ga.q_bias@[l] matches Some(b) ==> exists|n: u32|
                n == c.n_heads * c.head_dim && #[trigger] joins(
                    cmds,
                    GpuCmd::Gemm { weight: q, src: ga.xn_batch, dst: ga.q_batch, batch },
                    GpuCmd::BatchBiasAdd { dst: ga.q_batch, bias: b, n, batch },
                    b,
                )
            &&& ga.k_bias@[l] matches Some(b) ==> exists|n: u32|
                n == c.n_kv_heads * c.head_dim && #[trigger] joins(
                    cmds,
                    GpuCmd::Gemm { weight: k, src: ga.xn_batch, dst: ga.k_batch, batch },
                    GpuCmd::BatchBiasAdd { dst: ga.k_batch, bias: b, n, batch },
                    b,
                )
            &&& ga.v_bias@[l] matches Some(b) ==> exists|n: u32|
                n == c.n_kv_heads * c.head_dim && #[trigger] joins(
                    cmds,
                    GpuCmd::Gemm { weight: v, src: ga.xn_batch, dst: ga.v_batch, batch },
                    GpuCmd::BatchBiasAdd { dst: ga.v_batch, bias: b, n, batch },
                    b,
                )
        }),
{
    let (c, ga) = (model.config, model.gpu_acts->0);
    let n = batch as int;
    lemma_apart(ga, model.weights, c, ctx_len, l);
    let norm = super::record::fenced(model.batch_qkv_stretch(l, n)[0]);
    let products = (
        GpuCmd::Gemm { weight: q, src: ga.xn_batch, dst: ga.q_batch, batch },
        GpuCmd::Gemm { weight: k, src: ga.xn_batch, dst: ga.k_batch, batch },
        GpuCmd::Gemm { weight: v, src: ga.xn_batch, dst: ga.v_batch, batch },
    );
    let nq = (c.n_heads * c.head_dim) as u32;
    let nk = (c.n_kv_heads * c.head_dim) as u32;
    let sums = (
        super::record::batch_bias_cmd(ga.q_bias@[l], ga.q_batch, nq, batch),
        super::record::batch_bias_cmd(ga.k_bias@[l], ga.k_batch, nk, batch),
        super::record::batch_bias_cmd(ga.v_bias@[l], ga.v_batch, nk, batch),
    );
    let fence = super::record::bias_barrier(ga, l);
    let write = model.batch_write_stretch(l, pos, n);
    let items = model.batch_items(l, pos, n, n);
    let out = model.batch_out_stretch(l, n);
    let feed = model.batch_feed_stretch(l, n);
    let rest = write + items + out + feed;
    let cmds = model.batch_layer_cmds(l, pos, n);
    assert(cmds == layout(norm, products, sums, fence, rest)) by {
        let front = model.batch_qkv_stretch(l, n) + model.batch_bias_stretch(l, n);
        assert(model.batch_qkv_stretch(l, n) =~= norm + (seq![products.0] + seq![products.1]
            + seq![products.2] + seq![GpuCmd::Barrier]));
        lemma_regroup(front, write, items, out, feed);
    }
    if let Some(b) = ga.q_bias@[l] {
        assert(is_plain(norm, products, fence, rest, b)) by {
            lemma_batch_rest(model, l, pos, n, b);
            lemma_rest(write, items, out, feed, b);
        }
        lemma_queries(norm, products, sums, fence, rest, b);
    }
    if let Some(b) = ga.k_bias@[l] {
        assert(is_plain(norm, products, fence, rest, b)) by {
            lemma_batch_rest(model, l, pos, n, b);
            lemma_rest(write, items, out, feed, b);
        }
        lemma_keys(norm, products, sums, fence, rest, b);
    }
    if let Some(b) = ga.v_bias@[l] {
        assert(is_plain(norm, products, fence, rest, b)) by {
            lemma_batch_rest(model, l, pos, n, b);
            lemma_rest(write, items, out, feed, b);
        }
        lemma_values(norm, products, sums, fence, rest, b);
    }
}

} // verus!
