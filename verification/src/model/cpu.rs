//! Evaluating a token on the host.
//!
//! As for a GPU, the evaluation is a sequence of operations on numbered or named vectors, which
//! whoever computes with numbers carries out one by one.
use vstd::prelude::*;

use super::config::ModelConfig;
use super::llama::LlamaModel;
use super::prefill::bounded_product;
use super::weights::{FloatVec, RowSpan, Weights};

verus! {

/// A vector on the host.
#[derive(Clone, Copy, Debug, PartialEq, Eq, Structural)]
pub enum CpuBuf {
    X,
    Xn,
    Q,
    K,
    V,
    Attn,
    Proj,
    Gate,
    Up,
    Ff,
    Logits,
}

/// A matrix on the host.
#[derive(Clone, Copy, Debug, PartialEq, Eq, Structural)]
pub enum CpuMatrix {
    /// A quantized tensor.
    Quant { tensor: usize },
    /// Rows that were decoded to floats, each with `cols` of them.
    Floats { span: RowSpan, cols: usize },
}

/// One step of an evaluation.
#[allow(inconsistent_fields)]
#[derive(Clone, Copy, Debug, PartialEq, Eq, Structural)]
pub enum CpuOp {
    /// Sets `X` to the embedding row of a token.
    Embed { token: usize },
    /// Makes a vector of `len` zeros.
    Zeros { buf: CpuBuf, len: usize },
    /// Makes room for `len` scores.
    Scores { len: usize },
    /// Copies one vector over another.
    Copy { dst: CpuBuf, src: CpuBuf },
    RmsNorm { buf: CpuBuf, weight: FloatVec },
    /// Matrix times vector.
    MatVec { dst: CpuBuf, src: CpuBuf, matrix: CpuMatrix },
    /// Adds a decoded vector.
    AddBias { dst: CpuBuf, bias: FloatVec },
    /// Adds one vector to another.
    AddBuf { dst: CpuBuf, src: CpuBuf },
    /// Turns `Q` and `K` by the position.
    Rope { pos: usize, head_dim: usize, n_heads: usize, n_kv_heads: usize },
    /// Stores `K` and `V` in the cache of a layer, from index `start` on.
    StoreKv { layer: usize, start: usize },
    /// Sets a vector to zeros.
    Clear { buf: CpuBuf },
    /// One head: its scores against the first `n` positions of the cache, then the sum of the
    /// values that they weigh.
    Attend {
        layer: usize,
        /// Where the head begins in `Q` and in `Attn`.
        start: usize,
        head_dim: usize,
        /// Where the scores of the head begin.
        scores: usize,
        n: usize,
        kv_width: usize,
        /// Where the head begins in a row of the cache.
        offset: usize,
    },
    /// The gated activation of `Gate` by `Up`.
    SwiGlu { n: usize },
}

/// The matrix of a projection: its float rows, where the layer is fused.
pub open spec fn matrix(tensor: usize, span: Option<RowSpan>, cols: usize) -> CpuMatrix {
    match span {
        Some(span) => CpuMatrix::Floats { span, cols },
        None => CpuMatrix::Quant { tensor },
    }
}

/// A bias is added, where there is one.
pub open spec fn bias_op(dst: CpuBuf, bias: Option<FloatVec>) -> Seq<CpuOp> {
    match bias {
        Some(bias) => seq![CpuOp::AddBias { dst, bias }],
        None => Seq::empty(),
    }
}

/// A product of `Xn` or another vector.
pub open spec fn product(dst: CpuBuf, src: CpuBuf, matrix: CpuMatrix) -> Seq<CpuOp> {
    seq![CpuOp::MatVec { dst, src, matrix }]
}

/// `X` is normed into `Xn`.
pub open spec fn norm_ops(weight: FloatVec) -> Seq<CpuOp> {
    seq![CpuOp::Copy { dst: CpuBuf::Xn, src: CpuBuf::X }] + seq![
        CpuOp::RmsNorm { buf: CpuBuf::Xn, weight },
    ]
}

/// Queries, keys and values of layer `l`.
pub open spec fn qkv_ops(w: Weights, c: ModelConfig, l: int) -> Seq<CpuOp> {
    product(CpuBuf::Q, CpuBuf::Xn, matrix(w.attn_q@[l], w.attn_q_f32@[l], c.n_embd)) + product(
        CpuBuf::K,
        CpuBuf::Xn,
        matrix(w.attn_k@[l], w.attn_k_f32@[l], c.n_embd),
    ) + product(CpuBuf::V, CpuBuf::Xn, matrix(w.attn_v@[l], w.attn_v_f32@[l], c.n_embd))
        + bias_op(CpuBuf::Q, w.attn_q_bias@[l]) + bias_op(CpuBuf::K, w.attn_k_bias@[l]) + bias_op(
        CpuBuf::V,
        w.attn_v_bias@[l],
    )
}

/// The key/value head that a query head shares.
pub open spec fn kv_head(c: ModelConfig, h: int) -> int {
    h / (c.n_heads as int / c.n_kv_heads as int)
}

/// Head `h` of layer `l` for the token at position `pos`.
pub open spec fn attend_op(c: ModelConfig, l: int, pos: int, h: int) -> CpuOp {
    CpuOp::Attend {
        layer: l as usize,
        start: (h * c.head_dim) as usize,
        head_dim: c.head_dim,
        scores: (h * (pos + 1)) as usize,
        n: (pos + 1) as usize,
        kv_width: c.kv_width() as usize,
        offset: (kv_head(c, h) * c.head_dim) as usize,
    }
}

/// All heads, one after the other.
pub open spec fn attend_ops(c: ModelConfig, l: int, pos: int) -> Seq<CpuOp> {
    Seq::new(c.n_heads as nat, |h: int| attend_op(c, l, pos, h))
}

/// The position is turned in, keys and values are stored, and all heads attend.
pub open spec fn attention_ops(c: ModelConfig, l: int, pos: int) -> Seq<CpuOp> {
    seq![
        CpuOp::Rope {
            pos: pos as usize,
            head_dim: c.head_dim,
            n_heads: c.n_heads,
            n_kv_heads: c.n_kv_heads,
        },
    ] + seq![CpuOp::StoreKv { layer: l as usize, start: (pos * c.kv_width()) as usize }] + seq![
        CpuOp::Clear { buf: CpuBuf::Attn },
    ] + attend_ops(c, l, pos)
}

/// The output of attention is projected and added to `X`.
pub open spec fn project_ops(w: Weights, l: int) -> Seq<CpuOp> {
    product(CpuBuf::Proj, CpuBuf::Attn, CpuMatrix::Quant { tensor: w.attn_out@[l] }) + seq![
        CpuOp::AddBuf { dst: CpuBuf::X, src: CpuBuf::Proj },
    ]
}

/// The feed-forward block of layer `l`.
pub open spec fn feed_ops(w: Weights, c: ModelConfig, l: int) -> Seq<CpuOp> {
    product(CpuBuf::Gate, CpuBuf::Xn, CpuMatrix::Quant { tensor: w.ffn_gate@[l] }) + product(
        CpuBuf::Up,
        CpuBuf::Xn,
        CpuMatrix::Quant { tensor: w.ffn_up@[l] },
    ) + seq![CpuOp::SwiGlu { n: c.n_ff }] + product(
        CpuBuf::Ff,
        CpuBuf::Gate,
        CpuMatrix::Quant { tensor: w.ffn_down@[l] },
    ) + seq![CpuOp::AddBuf { dst: CpuBuf::X, src: CpuBuf::Ff }]
}

/// Layer `l` for the token at position `pos`.
pub open spec fn layer_ops(w: Weights, c: ModelConfig, l: int, pos: int) -> Seq<CpuOp> {
    norm_ops(w.attn_norm@[l]) + qkv_ops(w, c, l) + attention_ops(c, l, pos) + project_ops(w, l)
        + norm_ops(w.ffn_norm@[l]) + feed_ops(w, c, l)
}

/// The first `k` layers.
pub open spec fn layers_ops(w: Weights, c: ModelConfig, pos: int, k: nat) -> Seq<CpuOp>
    decreases k,
{
    if k == 0 {
        Seq::empty()
    } else {
        layers_ops(w, c, pos, (k - 1) as nat) + layer_ops(w, c, k - 1, pos)
    }
}

/// The vectors that an evaluation works in.
pub open spec fn scratch_ops(c: ModelConfig, pos: int) -> Seq<CpuOp> {
    seq![CpuOp::Zeros { buf: CpuBuf::Xn, len: c.n_embd }] + seq![
        CpuOp::Zeros { buf: CpuBuf::Q, len: c.q_width() as usize },
    ] + seq![CpuOp::Zeros { buf: CpuBuf::K, len: c.kv_width() as usize }] + seq![
        CpuOp::Zeros { buf: CpuBuf::V, len: c.kv_width() as usize },
    ] + seq![CpuOp::Scores { len: (c.n_heads * (pos + 1)) as usize }] + seq![
        CpuOp::Zeros { buf: CpuBuf::Attn, len: c.n_embd },
    ] + seq![CpuOp::Zeros { buf: CpuBuf::Proj, len: c.n_embd }] + seq![
        CpuOp::Zeros { buf: CpuBuf::Gate, len: c.n_ff },
    ] + seq![CpuOp::Zeros { buf: CpuBuf::Up, len: c.n_ff }] + seq![
        CpuOp::Zeros { buf: CpuBuf::Ff, len: c.n_embd },
    ]
}

/// The logits.
pub open spec fn logits_ops(w: Weights, c: ModelConfig) -> Seq<CpuOp> {
    seq![CpuOp::RmsNorm { buf: CpuBuf::X, weight: w.output_norm }] + seq![
        CpuOp::Zeros { buf: CpuBuf::Logits, len: c.n_vocab },
    ] + product(CpuBuf::Logits, CpuBuf::X, CpuMatrix::Quant { tensor: w.output })
}

/// The evaluation of one token.
pub open spec fn forward_ops(w: Weights, c: ModelConfig, token: usize, pos: int) -> Seq<CpuOp> {
    seq![CpuOp::Embed { token }] + scratch_ops(c, pos) + layers_ops(
        w,
        c,
        pos,
        c.n_layers as nat,
    ) + logits_ops(w, c)
}

/// The heads of a model can attend on the host: the key/value head of each is defined, and all
/// of them have room side by side.
pub open spec fn heads_attend(c: ModelConfig) -> bool {
    &&& 0 < c.n_kv_heads
    &&& c.n_heads == 0 || c.n_kv_heads <= c.n_heads
    &&& c.q_width() <= c.n_embd
}

/// A token at position `pos` can be evaluated on the host of this machine.
pub open spec fn forward_cpu_fits(c: ModelConfig, pos: int) -> bool {
    &&& c.widths_fit()
    &&& c.n_layers > 0 ==> heads_attend(c) && (pos + 1) * c.kv_width() <= usize::MAX
    &&& c.n_heads * (pos + 1) <= usize::MAX
    &&& pos + 1 <= usize::MAX
}

/// Steps that follow a stretch of an evaluation follow the whole of it.
proof fn lemma_grow(before: Seq<CpuOp>, stretch: Seq<CpuOp>, next: Seq<CpuOp>)
    ensures
        (before + stretch) + next == before + (stretch + next),
{
    assert((before + stretch) + next =~= before + (stretch + next));
}

fn matrix_of(tensor: usize, span: Option<RowSpan>, cols: usize) -> (m: CpuMatrix)
    ensures
        m == matrix(tensor, span, cols),
{
    match span {
        Some(span) => CpuMatrix::Floats { span, cols },
        None => CpuMatrix::Quant { tensor },
    }
}

fn add_bias(dst: CpuBuf, bias: Option<FloatVec>, ops: &mut Vec<CpuOp>)
    ensures
        final(ops)@ == old(ops)@ + bias_op(dst, bias),
{
    if let Some(bias) = bias {
        ops.push(CpuOp::AddBias { dst, bias });
    }
    assert(ops@ =~= old(ops)@ + bias_op(dst, bias));
}

fn add_norm(weight: FloatVec, ops: &mut Vec<CpuOp>)
    ensures
        final(ops)@ == old(ops)@ + norm_ops(weight),
{
    ops.push(CpuOp::Copy { dst: CpuBuf::Xn, src: CpuBuf::X });
    ops.push(CpuOp::RmsNorm { buf: CpuBuf::Xn, weight });
    assert(ops@ =~= old(ops)@ + norm_ops(weight));
}

fn add_qkv(w: &Weights, c: &ModelConfig, l: usize, ops: &mut Vec<CpuOp>)
    requires
        w.covers(c.n_layers as nat),
        l < c.n_layers,
    ensures
        final(ops)@ == old(ops)@ + qkv_ops(*w, *c, l as int),
{
    let ghost before = ops@;
    let q = matrix_of(w.attn_q[l], w.attn_q_f32[l], c.n_embd);
    ops.push(CpuOp::MatVec { dst: CpuBuf::Q, src: CpuBuf::Xn, matrix: q });
    let k = matrix_of(w.attn_k[l], w.attn_k_f32[l], c.n_embd);
    ops.push(CpuOp::MatVec { dst: CpuBuf::K, src: CpuBuf::Xn, matrix: k });
    let v = matrix_of(w.attn_v[l], w.attn_v_f32[l], c.n_embd);
    ops.push(CpuOp::MatVec { dst: CpuBuf::V, src: CpuBuf::Xn, matrix: v });
    let ghost s = product(CpuBuf::Q, CpuBuf::Xn, q) + product(CpuBuf::K, CpuBuf::Xn, k) + product(
        CpuBuf::V,
        CpuBuf::Xn,
        v,
    );
    assert(ops@ =~= before + s);
    add_bias(CpuBuf::Q, w.attn_q_bias[l], ops);
    add_bias(CpuBuf::K, w.attn_k_bias[l], ops);
    add_bias(CpuBuf::V, w.attn_v_bias[l], ops);
    proof {
        let bq = bias_op(CpuBuf::Q, w.attn_q_bias@[l as int]);
        let bk = bias_op(CpuBuf::K, w.attn_k_bias@[l as int]);
        let bv = bias_op(CpuBuf::V, w.attn_v_bias@[l as int]);
        lemma_grow(before, s, bq);
        lemma_grow(before, s + bq, bk);
        lemma_grow(before, s + bq + bk, bv);
    }
}

fn add_heads(c: &ModelConfig, l: usize, pos: usize, ops: &mut Vec<CpuOp>)
    requires
        forward_cpu_fits(*c, pos as int),
        l < c.n_layers,
    ensures
        final(ops)@ == old(ops)@ + attend_ops(*c, l as int, pos as int),
{
    let ghost before = ops@;
    let ghost all = attend_ops(*c, l as int, pos as int);
    let ratio: usize = c.n_heads / c.n_kv_heads;
    let kv_width: usize = c.kv_dim();
    let mut h: usize = 0;
    assert(ops@ =~= before + all.take(0));
    while h < c.n_heads
        invariant
            forward_cpu_fits(*c, pos as int),
            heads_attend(*c),
            l < c.n_layers,
            h <= c.n_heads,
            ratio == c.n_heads as int / c.n_kv_heads as int,
            kv_width == c.kv_width(),
            all == attend_ops(*c, l as int, pos as int),
            ops@ == before + all.take(h as int),
        decreases c.n_heads - h,
    {
        proof {
            lemma_head_bounds(*c, h as int, pos as int);
        }
        let kv_h: usize = h / ratio;
        ops.push(
            CpuOp::Attend {
                layer: l,
                start: h * c.head_dim,
                head_dim: c.head_dim,
                scores: h * (pos + 1),
                n: pos + 1,
                kv_width,
                offset: kv_h * c.head_dim,
            },
        );
        assert(ops@.last() == attend_op(*c, l as int, pos as int, h as int));
        h += 1;
        assert(ops@ =~= before + all.take(h as int));
    }
    assert(all.take(c.n_heads as int) =~= all);
}

/// The places of head `h` can be computed.
pub(crate) proof fn lemma_head_bounds(c: ModelConfig, h: int, pos: int)
    requires
        forward_cpu_fits(c, pos),
        heads_attend(c),
        0 <= h < c.n_heads,
        0 <= pos,
    ensures
        c.n_heads as int / c.n_kv_heads as int >= 1,
        0 <= h * c.head_dim <= usize::MAX,
        0 <= h * (pos + 1) <= usize::MAX,
        0 <= kv_head(c, h) <= h,
        0 <= kv_head(c, h) * c.head_dim <= usize::MAX,
{
    let n = c.n_heads as int;
    let kv = c.n_kv_heads as int;
    let hd = c.head_dim as int;
    let ratio = n / kv;
    assert(ratio >= 1) by (nonlinear_arith)
        requires
            0 < kv <= n,
            ratio == n / kv,
    ;
    lemma_quotient(h, ratio);
    lemma_times(h, n, hd);
    lemma_times(h, n, pos + 1);
    lemma_times(kv_head(c, h), n, hd);
}

proof fn lemma_quotient(h: int, ratio: int)
    by (nonlinear_arith)
    requires
        0 <= h,
        1 <= ratio,
    ensures
        0 <= h / ratio <= h,
{
}

proof fn lemma_times(a: int, b: int, x: int)
    by (nonlinear_arith)
    requires
        0 <= a <= b,
        0 <= x,
    ensures
        0 <= a * x <= b * x,
{
}

fn add_attention(c: &ModelConfig, l: usize, pos: usize, ops: &mut Vec<CpuOp>)
    requires
        forward_cpu_fits(*c, pos as int),
        l < c.n_layers,
    ensures
        final(ops)@ == old(ops)@ + attention_ops(*c, l as int, pos as int),
{
    let ghost before = ops@;
    let rope = CpuOp::Rope {
        pos,
        head_dim: c.head_dim,
        n_heads: c.n_heads,
        n_kv_heads: c.n_kv_heads,
    };
    proof {
        lemma_times(pos as int, pos + 1, c.kv_width() as int);
    }
    let store = CpuOp::StoreKv { layer: l, start: pos * c.kv_dim() };
    let clear = CpuOp::Clear { buf: CpuBuf::Attn };
    ops.push(rope);
    ops.push(store);
    ops.push(clear);
    let ghost s = seq![rope] + seq![store] + seq![clear];
    assert(ops@ =~= before + s);
    add_heads(c, l, pos, ops);
    proof {
        lemma_grow(before, s, attend_ops(*c, l as int, pos as int));
    }
}

fn add_project(w: &Weights, l: usize, ops: &mut Vec<CpuOp>)
    requires
        l < w.attn_out@.len(),
    ensures
        final(ops)@ == old(ops)@ + project_ops(*w, l as int),
{
    let m = CpuMatrix::Quant { tensor: w.attn_out[l] };
    ops.push(CpuOp::MatVec { dst: CpuBuf::Proj, src: CpuBuf::Attn, matrix: m });
    ops.push(CpuOp::AddBuf { dst: CpuBuf::X, src: CpuBuf::Proj });
    assert(ops@ =~= old(ops)@ + project_ops(*w, l as int));
}

fn add_feed(w: &Weights, c: &ModelConfig, l: usize, ops: &mut Vec<CpuOp>)
    requires
        w.covers(c.n_layers as nat),
        l < c.n_layers,
    ensures
        final(ops)@ == old(ops)@ + feed_ops(*w, *c, l as int),
{
    let gate = CpuMatrix::Quant { tensor: w.ffn_gate[l] };
    ops.push(CpuOp::MatVec { dst: CpuBuf::Gate, src: CpuBuf::Xn, matrix: gate });
    let up = CpuMatrix::Quant { tensor: w.ffn_up[l] };
    ops.push(CpuOp::MatVec { dst: CpuBuf::Up, src: CpuBuf::Xn, matrix: up });
    ops.push(CpuOp::SwiGlu { n: c.n_ff });
    let down = CpuMatrix::Quant { tensor: w.ffn_down[l] };
    ops.push(CpuOp::MatVec { dst: CpuBuf::Ff, src: CpuBuf::Gate, matrix: down });
    ops.push(CpuOp::AddBuf { dst: CpuBuf::X, src: CpuBuf::Ff });
    assert(ops@ =~= old(ops)@ + feed_ops(*w, *c, l as int));
}

fn add_layer(w: &Weights, c: &ModelConfig, l: usize, pos: usize, ops: &mut Vec<CpuOp>)
    requires
        w.covers(c.n_layers as nat),
        forward_cpu_fits(*c, pos as int),
        l < c.n_layers,
    ensures
        final(ops)@ == old(ops)@ + layer_ops(*w, *c, l as int, pos as int),
{
    let ghost before = ops@;
    let ghost li = l as int;
    let ghost s1 = norm_ops(w.attn_norm@[li]);
    let ghost s2 = s1 + qkv_ops(*w, *c, li);
    let ghost s3 = s2 + attention_ops(*c, li, pos as int);
    let ghost s4 = s3 + project_ops(*w, li);
    let ghost s5 = s4 + norm_ops(w.ffn_norm@[li]);
    add_norm(w.attn_norm[l], ops);
    add_qkv(w, c, l, ops);
    add_attention(c, l, pos, ops);
    add_project(w, l, ops);
    add_norm(w.ffn_norm[l], ops);
    add_feed(w, c, l, ops);
    proof {
        lemma_grow(before, s1, qkv_ops(*w, *c, li));
        lemma_grow(before, s2, attention_ops(*c, li, pos as int));
        lemma_grow(before, s3, project_ops(*w, li));
        lemma_grow(before, s4, norm_ops(w.ffn_norm@[li]));
        lemma_grow(before, s5, feed_ops(*w, *c, li));
    }
}

fn add_scratch(c: &ModelConfig, pos: usize, ops: &mut Vec<CpuOp>)
    requires
        forward_cpu_fits(*c, pos as int),
    ensures
        final(ops)@ == old(ops)@ + scratch_ops(*c, pos as int),
{
    ops.push(CpuOp::Zeros { buf: CpuBuf::Xn, len: c.n_embd });
    ops.push(CpuOp::Zeros { buf: CpuBuf::Q, len: c.q_dim() });
    ops.push(CpuOp::Zeros { buf: CpuBuf::K, len: c.kv_dim() });
    ops.push(CpuOp::Zeros { buf: CpuBuf::V, len: c.kv_dim() });
    ops.push(CpuOp::Scores { len: c.n_heads * (pos + 1) });
    ops.push(CpuOp::Zeros { buf: CpuBuf::Attn, len: c.n_embd });
    ops.push(CpuOp::Zeros { buf: CpuBuf::Proj, len: c.n_embd });
    ops.push(CpuOp::Zeros { buf: CpuBuf::Gate, len: c.n_ff });
    ops.push(CpuOp::Zeros { buf: CpuBuf::Up, len: c.n_ff });
    ops.push(CpuOp::Zeros { buf: CpuBuf::Ff, len: c.n_embd });
    assert(ops@ =~= old(ops)@ + scratch_ops(*c, pos as int));
}

/// Whether a token at position `pos` can be evaluated with `forward_cpu`.
pub fn check_forward_cpu(c: &ModelConfig, pos: usize) -> (fits: bool)
    ensures
        fits == forward_cpu_fits(*c, pos as int),
{
    if !c.check_widths() || pos == usize::MAX {
        return false;
    }
    let attends = c.n_layers == 0 || 0 < c.n_kv_heads && (c.n_heads == 0 || c.n_kv_heads
        <= c.n_heads) && c.q_dim() <= c.n_embd && bounded_product(
        pos + 1,
        c.kv_dim(),
        usize::MAX,
    ).is_some();
    attends && bounded_product(c.n_heads, pos + 1, usize::MAX).is_some()
}

impl LlamaModel {
    /// The evaluation of `token` at position `pos` on the host.
    pub fn forward_cpu(&self, token: usize, pos: usize) -> (ops: Vec<CpuOp>)
        requires
            self.weights.covers(self.config.n_layers as nat),
            forward_cpu_fits(self.config, pos as int),
        ensures
            ops@ == forward_ops(self.weights, self.config, token, pos as int),
    {
        let c = &self.config;
        let w = &self.weights;
        let mut ops: Vec<CpuOp> = Vec::new();
        ops.push(CpuOp::Embed { token });
        let ghost start = seq![CpuOp::Embed { token }] + scratch_ops(*c, pos as int);
        assert(ops@ =~= seq![CpuOp::Embed { token }]);
        add_scratch(c, pos, &mut ops);
        let mut l: usize = 0;
        assert(ops@ =~= start + layers_ops(*w, *c, pos as int, 0));
        while l < c.n_layers
            invariant
                w.covers(c.n_layers as nat),
                forward_cpu_fits(*c, pos as int),
                l <= c.n_layers,
                ops@ == start + layers_ops(*w, *c, pos as int, l as nat),
            decreases c.n_layers - l,
        {
            add_layer(w, c, l, pos, &mut ops);
            proof {
                lemma_grow(
                    start,
                    layers_ops(*w, *c, pos as int, l as nat),
                    layer_ops(*w, *c, l as int, pos as int),
                );
            }
            l += 1;
        }
        let ghost before = ops@;
        ops.push(CpuOp::RmsNorm { buf: CpuBuf::X, weight: w.output_norm });
        ops.push(CpuOp::Zeros { buf: CpuBuf::Logits, len: c.n_vocab });
        let m = CpuMatrix::Quant { tensor: w.output };
        ops.push(CpuOp::MatVec { dst: CpuBuf::Logits, src: CpuBuf::X, matrix: m });
        assert(ops@ =~= before + logits_ops(*w, *c));
        ops
    }
}

} // verus!
