//! The host computes the function of the model.
//!
//! The steps are carried out here on vectors. Each vector has a length, which the step that made
//! it gave it; a head is worked out for itself.
use vstd::prelude::*;

use super::config::ModelConfig;
use super::cpu::{CpuBuf, CpuMatrix, CpuOp};
use super::maths::{Flow, Heads, Maths};
use super::weights::Weights;

verus! {

/// How the host works out what a device has a kernel for.
#[verifier::reject_recursive_types(V)]
pub struct HostMaths<V> {
    pub maths: Maths<V>,
    /// A vector of `n` zeros.
    pub zeros: spec_fn(int) -> V,
    /// Keys or values with those of one position stored from this index on.
    pub placed: spec_fn(V, V, int) -> V,
    /// A vector of heads with one more of them worked out: from the queries, the keys and the
    /// values, where the head begins in a vector, how wide it is, how many positions there are,
    /// how wide a row of keys is, and where the head that it shares begins in a row.
    pub head: spec_fn(V, V, V, V, int, int, int, int, int) -> V,
}

/// What the host holds during an evaluation.
#[verifier::reject_recursive_types(V)]
pub struct Numbers<V> {
    pub bufs: spec_fn(CpuBuf) -> V,
    /// How long the vectors are.
    pub lens: spec_fn(CpuBuf) -> int,
    pub k: Seq<V>,
    pub v: Seq<V>,
}

/// The first `n` heads, one after the other. Of the key/value heads each is shared by as many
/// query heads in a row.
pub open spec fn heads<V>(
    a: HostMaths<V>,
    begin: V,
    q: V,
    k: V,
    v: V,
    shape: Heads,
    n: int,
    h: nat,
) -> V
    decreases h,
{
    if h == 0 {
        begin
    } else {
        (a.head)(
            heads(a, begin, q, k, v, shape, n, (h - 1) as nat),
            q,
            k,
            v,
            (h - 1) * shape.head_dim,
            shape.head_dim,
            n,
            shape.n_kv_heads * shape.head_dim,
            (h - 1) / (shape.n_heads / shape.n_kv_heads) * shape.head_dim,
        )
    }
}

impl<V> HostMaths<V> {
    /// What the host works out is what the kernels of a device do: a row is stored where its
    /// position begins, and attention is its heads in a vector of `n_embd` numbers.
    pub open spec fn agrees(self, n_embd: int) -> bool {
        &&& forall|cache: V, row: V, pos: int, kv: int, hd: int|
            #[trigger] (self.maths.stored)(cache, row, pos, kv, hd) == (self.placed)(
                cache,
                row,
                pos * (kv * hd),
            )
        &&& forall|q: V, k: V, v: V, shape: Heads, n: int, ctx: int|
            #[trigger] (self.maths.attended)(q, k, v, shape, n, ctx) == heads(
                self,
                (self.zeros)(n_embd),
                q,
                k,
                v,
                shape,
                n,
                shape.n_heads as nat,
            )
    }
}

/// All vectors, with another in place of one.
pub open spec fn set<A>(f: spec_fn(CpuBuf) -> A, buf: CpuBuf, x: A) -> spec_fn(CpuBuf) -> A {
    |b: CpuBuf|
        if b == buf {
            x
        } else {
            f(b)
        }
}

impl<V> Numbers<V> {
    /// One vector is replaced; it keeps its length.
    pub open spec fn with(self, buf: CpuBuf, x: V) -> Self {
        Numbers { bufs: set(self.bufs, buf, x), ..self }
    }

    /// One vector is made anew.
    pub open spec fn made(self, buf: CpuBuf, x: V, len: int) -> Self {
        Numbers { bufs: set(self.bufs, buf, x), lens: set(self.lens, buf, len), ..self }
    }

    /// One step is carried out; an embedding row has `width` numbers.
    pub open spec fn step(self, a: HostMaths<V>, width: int, op: CpuOp) -> Self {
        let m = a.maths;
        let b = self.bufs;
        match op {
            CpuOp::Embed { token } => self.made(CpuBuf::X, (m.row)(token), width),
            CpuOp::Zeros { buf, len } => self.made(buf, (a.zeros)(len as int), len as int),
            CpuOp::Scores { .. } => self,
            CpuOp::Copy { dst, src } => self.with(dst, b(src)),
            CpuOp::RmsNorm { buf, weight } => self.with(
                buf,
                (m.normed)(b(buf), (m.vector)(weight), (self.lens)(buf)),
            ),
            CpuOp::MatVec { dst, src, matrix } => self.with(dst, (m.product)(matrix, b(src))),
            CpuOp::AddBias { dst, bias } => self.with(
                dst,
                (m.sum)(b(dst), (m.vector)(bias), (self.lens)(dst)),
            ),
            CpuOp::AddBuf { dst, src } => self.with(
                dst,
                (m.sum)(b(dst), b(src), (self.lens)(dst)),
            ),
            CpuOp::Rope { pos, head_dim, n_heads, n_kv_heads } => self.with(
                CpuBuf::Q,
                (m.turned)(b(CpuBuf::Q), n_heads as int, head_dim as int, pos as int),
            ).with(
                CpuBuf::K,
                (m.turned)(b(CpuBuf::K), n_kv_heads as int, head_dim as int, pos as int),
            ),
            CpuOp::StoreKv { layer, start } => Numbers {
                k: self.k.update(
                    layer as int,
                    (a.placed)(self.k[layer as int], b(CpuBuf::K), start as int),
                ),
                v: self.v.update(
                    layer as int,
                    (a.placed)(self.v[layer as int], b(CpuBuf::V), start as int),
                ),
                ..self
            },
            CpuOp::Clear { buf } => self.with(buf, (a.zeros)((self.lens)(buf))),
            CpuOp::Attend { layer, start, head_dim, scores: _, n, kv_width, offset } => self.with(
                CpuBuf::Attn,
                (a.head)(
                    b(CpuBuf::Attn),
                    b(CpuBuf::Q),
                    self.k[layer as int],
                    self.v[layer as int],
                    start as int,
                    head_dim as int,
                    n as int,
                    kv_width as int,
                    offset as int,
                ),
            ),
            CpuOp::SwiGlu { n } => self.with(
                CpuBuf::Gate,
                (m.gated)(b(CpuBuf::Gate), b(CpuBuf::Up), n as int),
            ),
        }
    }

    /// All steps are carried out, one after the other.
    pub open spec fn run(self, a: HostMaths<V>, width: int, ops: Seq<CpuOp>) -> Self
        decreases ops.len(),
    {
        if ops.len() == 0 {
            self
        } else {
            self.run(a, width, ops.drop_last()).step(a, width, ops.last())
        }
    }

    /// The vector on its way, and the keys and values.
    pub open spec fn flow(self) -> Flow<V> {
        Flow { x: (self.bufs)(CpuBuf::X), k: self.k, v: self.v }
    }

    /// The vectors are as long as the layers need them.
    spec fn fits(self, c: ModelConfig) -> bool {
        &&& (self.lens)(CpuBuf::X) == c.n_embd
        &&& (self.lens)(CpuBuf::Xn) == c.n_embd
        &&& (self.lens)(CpuBuf::Q) == c.n_heads * c.head_dim
        &&& (self.lens)(CpuBuf::K) == c.n_kv_heads * c.head_dim
        &&& (self.lens)(CpuBuf::V) == c.n_kv_heads * c.head_dim
        &&& (self.lens)(CpuBuf::Attn) == c.n_embd
        &&& self.k.len() == c.n_layers
        &&& self.v.len() == c.n_layers
    }
}

proof fn lemma_sum<V>(
    s: Numbers<V>,
    a: HostMaths<V>,
    width: int,
    x: Seq<CpuOp>,
    y: Seq<CpuOp>,
)
    ensures
        s.run(a, width, x + y) == s.run(a, width, x).run(a, width, y),
    decreases y.len(),
{
    if y.len() == 0 {
        assert(x + y =~= x);
    } else {
        assert((x + y).drop_last() =~= x + y.drop_last());
        lemma_sum(s, a, width, x, y.drop_last());
    }
}

/// A step after others.
proof fn lemma_then<V>(s: Numbers<V>, a: HostMaths<V>, width: int, x: Seq<CpuOp>, op: CpuOp)
    ensures
        s.run(a, width, x + seq![op]) == s.run(a, width, x).step(a, width, op),
        s.run(a, width, seq![op]) == s.step(a, width, op),
{
    lemma_sum(s, a, width, x, seq![op]);
    assert(seq![op].drop_last() =~= Seq::empty());
    let t = s.run(a, width, x);
    assert(t.run(a, width, seq![op].drop_last()) == t);
    assert(s.run(a, width, seq![op].drop_last()) == s);
}

/// A bias after others, where there is one.
proof fn lemma_bias<V>(
    s: Numbers<V>,
    a: HostMaths<V>,
    width: int,
    x: Seq<CpuOp>,
    dst: CpuBuf,
    bias: Option<super::weights::FloatVec>,
)
    ensures
        ({
            let t = s.run(a, width, x);
            s.run(a, width, x + super::cpu::bias_op(dst, bias)) == match bias {
                Some(b) => t.step(a, width, CpuOp::AddBias { dst, bias: b }),
                None => t,
            }
        }),
{
    match bias {
        Some(b) => lemma_then(s, a, width, x, CpuOp::AddBias { dst, bias: b }),
        None => assert(x + super::cpu::bias_op(dst, bias) =~= x),
    }
}

/// The norm and the projections of a layer.
proof fn lemma_qkv<V>(s: Numbers<V>, a: HostMaths<V>, w: Weights, c: ModelConfig, l: int)
    requires
        s.fits(c),
    ensures
        ({
            let m = a.maths;
            let t = s.run(
                a,
                c.n_embd as int,
                super::cpu::norm_ops(w.attn_norm@[l]) + super::cpu::qkv_ops(w, c, l),
            );
            let h = (m.normed)(
                (s.bufs)(CpuBuf::X),
                (m.vector)(w.attn_norm@[l]),
                c.n_embd as int,
            );
            let q = m.projected(w.attn_q@[l], w.attn_q_f32@[l], c.n_embd, h);
            let k = m.projected(w.attn_k@[l], w.attn_k_f32@[l], c.n_embd, h);
            let v = m.projected(w.attn_v@[l], w.attn_v_f32@[l], c.n_embd, h);
            &&& (t.bufs)(CpuBuf::Q) == m.shifted(q, w.attn_q_bias@[l], c.n_heads * c.head_dim)
            &&& (t.bufs)(CpuBuf::K) == m.shifted(k, w.attn_k_bias@[l], c.n_kv_heads * c.head_dim)
            &&& (t.bufs)(CpuBuf::V) == m.shifted(v, w.attn_v_bias@[l], c.n_kv_heads * c.head_dim)
            &&& (t.bufs)(CpuBuf::X) == (s.bufs)(CpuBuf::X)
            &&& t.lens == s.lens
            &&& t.k == s.k
            &&& t.v == s.v
        }),
{
    let n = c.n_embd as int;
    let copy = CpuOp::Copy { dst: CpuBuf::Xn, src: CpuBuf::X };
    let norm = CpuOp::RmsNorm { buf: CpuBuf::Xn, weight: w.attn_norm@[l] };
    let q = CpuOp::MatVec {
        dst: CpuBuf::Q,
        src: CpuBuf::Xn,
        matrix: super::cpu::matrix(w.attn_q@[l], w.attn_q_f32@[l], c.n_embd),
    };
    let k = CpuOp::MatVec {
        dst: CpuBuf::K,
        src: CpuBuf::Xn,
        matrix: super::cpu::matrix(w.attn_k@[l], w.attn_k_f32@[l], c.n_embd),
    };
    let v = CpuOp::MatVec {
        dst: CpuBuf::V,
        src: CpuBuf::Xn,
        matrix: super::cpu::matrix(w.attn_v@[l], w.attn_v_f32@[l], c.n_embd),
    };
    let p1 = seq![copy];
    let p2 = p1 + seq![norm];
    let p3 = p2 + seq![q];
    let p4 = p3 + seq![k];
    let p5 = p4 + seq![v];
    let p6 = p5 + super::cpu::bias_op(CpuBuf::Q, w.attn_q_bias@[l]);
    let p7 = p6 + super::cpu::bias_op(CpuBuf::K, w.attn_k_bias@[l]);
    let p8 = p7 + super::cpu::bias_op(CpuBuf::V, w.attn_v_bias@[l]);
    assert(super::cpu::norm_ops(w.attn_norm@[l]) + super::cpu::qkv_ops(w, c, l) =~= p8);
    lemma_then(s, a, n, p1, copy);
    lemma_then(s, a, n, p1, norm);
    lemma_then(s, a, n, p2, q);
    lemma_then(s, a, n, p3, k);
    lemma_then(s, a, n, p4, v);
    lemma_bias(s, a, n, p5, CpuBuf::Q, w.attn_q_bias@[l]);
    lemma_bias(s, a, n, p6, CpuBuf::K, w.attn_k_bias@[l]);
    lemma_bias(s, a, n, p7, CpuBuf::V, w.attn_v_bias@[l]);
    let s2 = s.run(a, n, p2);
    assert((s2.bufs)(CpuBuf::Xn) == (a.maths.normed)(
        (s.bufs)(CpuBuf::X),
        (a.maths.vector)(w.attn_norm@[l]),
        n,
    ));
}

/// The first `h` heads of a layer.
proof fn lemma_heads<V>(
    s: Numbers<V>,
    a: HostMaths<V>,
    c: ModelConfig,
    l: int,
    pos: int,
    h: int,
)
    requires
        0 <= pos,
        super::cpu::forward_cpu_fits(c, pos),
        0 <= l < c.n_layers,
        0 <= h <= c.n_heads,
    ensures
        ({
            let t = s.run(a, c.n_embd as int, super::cpu::attend_ops(c, l, pos).take(h));
            let shape = Heads {
                n_heads: c.n_heads as int,
                n_kv_heads: c.n_kv_heads as int,
                head_dim: c.head_dim as int,
            };
            t == s.with(
                CpuBuf::Attn,
                heads(
                    a,
                    (s.bufs)(CpuBuf::Attn),
                    (s.bufs)(CpuBuf::Q),
                    s.k[l],
                    s.v[l],
                    shape,
                    pos + 1,
                    h as nat,
                ),
            )
        }),
    decreases h,
{
    let n = c.n_embd as int;
    let all = super::cpu::attend_ops(c, l, pos);
    let shape = Heads {
        n_heads: c.n_heads as int,
        n_kv_heads: c.n_kv_heads as int,
        head_dim: c.head_dim as int,
    };
    let begin = (s.bufs)(CpuBuf::Attn);
    let (q, k, v) = ((s.bufs)(CpuBuf::Q), s.k[l], s.v[l]);
    if h == 0 {
        let t = s.run(a, n, all.take(0));
        assert(t == s);
        assert(set(s.bufs, CpuBuf::Attn, begin) =~= s.bufs);
    } else {
        lemma_heads(s, a, c, l, pos, h - 1);
        super::cpu::lemma_head_bounds(c, h - 1, pos);
        let op = super::cpu::attend_op(c, l, pos, h - 1);
        assert(all.take(h) =~= all.take(h - 1) + seq![op]);
        lemma_then(s, a, n, all.take(h - 1), op);
        let x = heads(a, begin, q, k, v, shape, pos + 1, (h - 1) as nat);
        let y = heads(a, begin, q, k, v, shape, pos + 1, h as nat);
        let t = s.with(CpuBuf::Attn, x);
        assert((t.bufs)(CpuBuf::Q) == q);
        assert((t.bufs)(CpuBuf::Attn) == x);
        assert(set(set(s.bufs, CpuBuf::Attn, x), CpuBuf::Attn, y) =~= set(
            s.bufs,
            CpuBuf::Attn,
            y,
        ));
    }
}

/// The position is turned in, keys and values are stored, and all heads attend.
proof fn lemma_attention<V>(
    s: Numbers<V>,
    a: HostMaths<V>,
    c: ModelConfig,
    ctx: int,
    l: int,
    pos: int,
)
    requires
        s.fits(c),
        a.agrees(c.n_embd as int),
        0 <= pos,
        super::cpu::forward_cpu_fits(c, pos),
        0 <= l < c.n_layers,
    ensures
        ({
            let m = a.maths;
            let t = s.run(a, c.n_embd as int, super::cpu::attention_ops(c, l, pos));
            let (nh, kv, hd) = (c.n_heads as int, c.n_kv_heads as int, c.head_dim as int);
            let q = (m.turned)((s.bufs)(CpuBuf::Q), nh, hd, pos);
            let k = (m.stored)(
                s.k[l],
                (m.turned)((s.bufs)(CpuBuf::K), kv, hd, pos),
                pos,
                kv,
                hd,
            );
            let v = (m.stored)(s.v[l], (s.bufs)(CpuBuf::V), pos, kv, hd);
            &&& (t.bufs)(CpuBuf::Attn) == (m.attended)(
                q,
                k,
                v,
                Heads { n_heads: nh, n_kv_heads: kv, head_dim: hd },
                pos + 1,
                ctx,
            )
            &&& t.k == s.k.update(l, k)
            &&& t.v == s.v.update(l, v)
            &&& (t.bufs)(CpuBuf::X) == (s.bufs)(CpuBuf::X)
            &&& t.lens == s.lens
        }),
{
    let n = c.n_embd as int;
    let rope = CpuOp::Rope {
        pos: pos as usize,
        head_dim: c.head_dim,
        n_heads: c.n_heads,
        n_kv_heads: c.n_kv_heads,
    };
    let store = CpuOp::StoreKv { layer: l as usize, start: (pos * c.kv_width()) as usize };
    let clear = CpuOp::Clear { buf: CpuBuf::Attn };
    let p1 = seq![rope];
    let p2 = p1 + seq![store];
    let p3 = p2 + seq![clear];
    let all = super::cpu::attend_ops(c, l, pos);
    lemma_then(s, a, n, p1, rope);
    lemma_then(s, a, n, p1, store);
    lemma_then(s, a, n, p2, clear);
    lemma_sum(s, a, n, p3, all);
    let width = c.kv_width() as int;
    assert(0 <= pos * width <= (pos + 1) * width) by (nonlinear_arith)
        requires
            0 <= pos,
            0 <= width,
    ;
    let s3 = s.run(a, n, p3);
    lemma_heads(s3, a, c, l, pos, c.n_heads as int);
    assert(all.take(c.n_heads as int) =~= all);
}

/// The answer is projected and added, and so is what the feed-forward block makes of the sum.
proof fn lemma_finish<V>(s: Numbers<V>, a: HostMaths<V>, w: Weights, c: ModelConfig, l: int)
    requires
        s.fits(c),
    ensures
        ({
            let t = s.run(
                a,
                c.n_embd as int,
                super::cpu::project_ops(w, l) + super::cpu::norm_ops(w.ffn_norm@[l])
                    + super::cpu::feed_ops(w, c, l),
            );
            &&& (t.bufs)(CpuBuf::X) == a.maths.finished(
                w,
                c,
                l,
                (s.bufs)(CpuBuf::X),
                (s.bufs)(CpuBuf::Attn),
            )
            &&& t.lens == s.lens
            &&& t.k == s.k
            &&& t.v == s.v
        }),
{
    let n = c.n_embd as int;
    let m = a.maths;
    let proj = CpuOp::MatVec {
        dst: CpuBuf::Proj,
        src: CpuBuf::Attn,
        matrix: CpuMatrix::Quant { tensor: w.attn_out@[l] },
    };
    let add = CpuOp::AddBuf { dst: CpuBuf::X, src: CpuBuf::Proj };
    let copy = CpuOp::Copy { dst: CpuBuf::Xn, src: CpuBuf::X };
    let norm = CpuOp::RmsNorm { buf: CpuBuf::Xn, weight: w.ffn_norm@[l] };
    let gate = CpuOp::MatVec {
        dst: CpuBuf::Gate,
        src: CpuBuf::Xn,
        matrix: CpuMatrix::Quant { tensor: w.ffn_gate@[l] },
    };
    let up = CpuOp::MatVec {
        dst: CpuBuf::Up,
        src: CpuBuf::Xn,
        matrix: CpuMatrix::Quant { tensor: w.ffn_up@[l] },
    };
    let swiglu = CpuOp::SwiGlu { n: c.n_ff };
    let down = CpuOp::MatVec {
        dst: CpuBuf::Ff,
        src: CpuBuf::Gate,
        matrix: CpuMatrix::Quant { tensor: w.ffn_down@[l] },
    };
    let last = CpuOp::AddBuf { dst: CpuBuf::X, src: CpuBuf::Ff };
    let p1 = seq![proj];
    let p2 = p1 + seq![add];
    let p3 = p2 + seq![copy];
    let p4 = p3 + seq![norm];
    let p5 = p4 + seq![gate];
    let p6 = p5 + seq![up];
    let p7 = p6 + seq![swiglu];
    let p8 = p7 + seq![down];
    let p9 = p8 + seq![last];
    assert(super::cpu::project_ops(w, l) + super::cpu::norm_ops(w.ffn_norm@[l])
        + super::cpu::feed_ops(w, c, l) =~= p9);
    lemma_then(s, a, n, p1, proj);
    lemma_then(s, a, n, p1, add);
    lemma_then(s, a, n, p2, copy);
    lemma_then(s, a, n, p3, norm);
    lemma_then(s, a, n, p4, gate);
    lemma_then(s, a, n, p5, up);
    lemma_then(s, a, n, p6, swiglu);
    lemma_then(s, a, n, p7, down);
    lemma_then(s, a, n, p8, last);
    let s2 = s.run(a, n, p2);
    let y = (m.sum)(
        (s.bufs)(CpuBuf::X),
        (m.product)(CpuMatrix::Quant { tensor: w.attn_out@[l] }, (s.bufs)(CpuBuf::Attn)),
        n,
    );
    assert((s2.bufs)(CpuBuf::X) == y);
    let s4 = s.run(a, n, p4);
    assert((s4.bufs)(CpuBuf::Xn) == (m.normed)(y, (m.vector)(w.ffn_norm@[l]), n));
    assert((s4.bufs)(CpuBuf::X) == y);
    let s8 = s.run(a, n, p8);
    assert((s8.bufs)(CpuBuf::X) == y);
}

proof fn lemma_layers<V>(
    s: Numbers<V>,
    a: HostMaths<V>,
    w: Weights,
    c: ModelConfig,
    ctx: int,
    pos: int,
    k: nat,
)
    requires
        s.fits(c),
        a.agrees(c.n_embd as int),
        0 <= pos,
        super::cpu::forward_cpu_fits(c, pos),
        k <= c.n_layers,
    ensures
        ({
            let t = s.run(a, c.n_embd as int, super::cpu::layers_ops(w, c, pos, k));
            &&& t.fits(c)
            &&& t.lens == s.lens
            &&& t.flow() == a.maths.layers(w, c, ctx, pos, k, s.flow())
        }),
    decreases k,
{
    if k > 0 {
        let n = c.n_embd as int;
        let l = k - 1;
        lemma_layers(s, a, w, c, ctx, pos, l as nat);
        let less = super::cpu::layers_ops(w, c, pos, l as nat);
        let layer = super::cpu::layer_ops(w, c, l, pos);
        lemma_sum(s, a, n, less, layer);
        let t = s.run(a, n, less);
        let x = super::cpu::norm_ops(w.attn_norm@[l]) + super::cpu::qkv_ops(w, c, l);
        let y = super::cpu::attention_ops(c, l, pos);
        let z = super::cpu::project_ops(w, l) + super::cpu::norm_ops(w.ffn_norm@[l])
            + super::cpu::feed_ops(w, c, l);
        assert(layer =~= x + y + z);
        lemma_sum(t, a, n, x, y);
        lemma_sum(t, a, n, x + y, z);
        lemma_qkv(t, a, w, c, l);
        let t1 = t.run(a, n, x);
        lemma_attention(t1, a, c, ctx, l, pos);
        let t2 = t1.run(a, n, y);
        lemma_finish(t2, a, w, c, l);
    }
}

/// The vectors of an evaluation are made.
proof fn lemma_begin<V>(s: Numbers<V>, a: HostMaths<V>, c: ModelConfig, token: usize, pos: int)
    requires
        0 <= pos,
        super::cpu::forward_cpu_fits(c, pos),
        s.k.len() == c.n_layers,
        s.v.len() == c.n_layers,
    ensures
        ({
            let ops = seq![CpuOp::Embed { token }] + super::cpu::scratch_ops(c, pos);
            let t = s.run(a, c.n_embd as int, ops);
            &&& t.fits(c)
            &&& t.flow() == Flow { x: (a.maths.row)(token), k: s.k, v: s.v }
            &&& (t.lens)(CpuBuf::X) == c.n_embd
            &&& (t.lens)(CpuBuf::Xn) == c.n_embd
            &&& (t.lens)(CpuBuf::Q) == c.n_heads * c.head_dim
            &&& (t.lens)(CpuBuf::K) == c.n_kv_heads * c.head_dim
            &&& (t.lens)(CpuBuf::V) == c.n_kv_heads * c.head_dim
            &&& (t.lens)(CpuBuf::Attn) == c.n_embd
            &&& (t.lens)(CpuBuf::Proj) == c.n_embd
            &&& (t.lens)(CpuBuf::Gate) == c.n_ff
            &&& (t.lens)(CpuBuf::Up) == c.n_ff
            &&& (t.lens)(CpuBuf::Ff) == c.n_embd
        }),
{
    let n = c.n_embd as int;
    let embed = CpuOp::Embed { token };
    let z1 = CpuOp::Zeros { buf: CpuBuf::Xn, len: c.n_embd };
    let z2 = CpuOp::Zeros { buf: CpuBuf::Q, len: c.q_width() as usize };
    let z3 = CpuOp::Zeros { buf: CpuBuf::K, len: c.kv_width() as usize };
    let z4 = CpuOp::Zeros { buf: CpuBuf::V, len: c.kv_width() as usize };
    let z5 = CpuOp::Scores { len: (c.n_heads * (pos + 1)) as usize };
    let z6 = CpuOp::Zeros { buf: CpuBuf::Attn, len: c.n_embd };
    let z7 = CpuOp::Zeros { buf: CpuBuf::Proj, len: c.n_embd };
    let z8 = CpuOp::Zeros { buf: CpuBuf::Gate, len: c.n_ff };
    let z9 = CpuOp::Zeros { buf: CpuBuf::Up, len: c.n_ff };
    let z10 = CpuOp::Zeros { buf: CpuBuf::Ff, len: c.n_embd };
    let p0 = seq![embed];
    let p1 = p0 + seq![z1];
    let p2 = p1 + seq![z2];
    let p3 = p2 + seq![z3];
    let p4 = p3 + seq![z4];
    let p5 = p4 + seq![z5];
    let p6 = p5 + seq![z6];
    let p7 = p6 + seq![z7];
    let p8 = p7 + seq![z8];
    let p9 = p8 + seq![z9];
    let p10 = p9 + seq![z10];
    assert(seq![embed] + super::cpu::scratch_ops(c, pos) =~= p10);
    lemma_then(s, a, n, p0, embed);
    lemma_then(s, a, n, p0, z1);
    lemma_then(s, a, n, p1, z2);
    lemma_then(s, a, n, p2, z3);
    lemma_then(s, a, n, p3, z4);
    lemma_then(s, a, n, p4, z5);
    lemma_then(s, a, n, p5, z6);
    lemma_then(s, a, n, p6, z7);
    lemma_then(s, a, n, p7, z8);
    lemma_then(s, a, n, p8, z9);
    lemma_then(s, a, n, p9, z10);
}

/// The evaluation of a token on the host gives the logits of the model, and leaves the keys and
/// values of the model in the cache: what the host works out head by head and row by row is what
/// a device computes, with scores for any number of positions. Each vector is as long as the
/// dimensions of the model say.
pub proof fn law_host_computes_the_model<V>(
    a: HostMaths<V>,
    s: Numbers<V>,
    w: Weights,
    c: ModelConfig,
    ctx: int,
    token: usize,
    pos: int,
)
    requires
        a.agrees(c.n_embd as int),
        0 <= pos,
        super::cpu::forward_cpu_fits(c, pos),
        s.k.len() == c.n_layers,
        s.v.len() == c.n_layers,
    ensures
        ({
            let t = s.run(a, c.n_embd as int, super::cpu::forward_ops(w, c, token, pos));
            let f = a.maths.token(w, c, ctx, token, pos, s.flow());
            &&& (t.bufs)(CpuBuf::Logits) == a.maths.logits(w, c, f.x)
            &&& t.k == f.k
            &&& t.v == f.v
            &&& (t.lens)(CpuBuf::Logits) == c.n_vocab
            &&& (t.lens)(CpuBuf::X) == c.n_embd
            &&& (t.lens)(CpuBuf::Xn) == c.n_embd
            &&& (t.lens)(CpuBuf::Q) == c.n_heads * c.head_dim
            &&& (t.lens)(CpuBuf::K) == c.n_kv_heads * c.head_dim
            &&& (t.lens)(CpuBuf::V) == c.n_kv_heads * c.head_dim
            &&& (t.lens)(CpuBuf::Attn) == c.n_embd
            &&& (t.lens)(CpuBuf::Proj) == c.n_embd
            &&& (t.lens)(CpuBuf::Gate) == c.n_ff
            &&& (t.lens)(CpuBuf::Up) == c.n_ff
            &&& (t.lens)(CpuBuf::Ff) == c.n_embd
        }),
{
    let n = c.n_embd as int;
    let begin = seq![CpuOp::Embed { token }] + super::cpu::scratch_ops(c, pos);
    let layers = super::cpu::layers_ops(w, c, pos, c.n_layers as nat);
    let end = super::cpu::logits_ops(w, c);
    lemma_begin(s, a, c, token, pos);
    let s1 = s.run(a, n, begin);
    lemma_layers(s1, a, w, c, ctx, pos, c.n_layers as nat);
    lemma_sum(s, a, n, begin, layers);
    lemma_sum(s, a, n, begin + layers, end);
    let s2 = s1.run(a, n, layers);
    let norm = CpuOp::RmsNorm { buf: CpuBuf::X, weight: w.output_norm };
    let zeros = CpuOp::Zeros { buf: CpuBuf::Logits, len: c.n_vocab };
    let out = CpuOp::MatVec {
        dst: CpuBuf::Logits,
        src: CpuBuf::X,
        matrix: CpuMatrix::Quant { tensor: w.output },
    };
    lemma_then(s2, a, n, seq![norm], norm);
    lemma_then(s2, a, n, seq![norm], zeros);
    lemma_then(s2, a, n, seq![norm] + seq![zeros], out);
}

/// The host and a device give the same logits for a token, and leave the same keys and values,
/// where they began with the same keys and values.
pub proof fn law_host_and_device_agree<V>(
    a: HostMaths<V>,
    h: Numbers<V>,
    model: super::llama::LlamaModel,
    resident: Seq<bool>,
    ctx_len: usize,
    s: spec_fn(super::gpu::ActBuf) -> Seq<V>,
    token: usize,
    pos: int,
)
    requires
        a.agrees(model.config.n_embd as int),
        super::laws_device::is_ready(a.maths, model, resident, ctx_len, s),
        super::cpu::forward_cpu_fits(model.config, pos),
        0 <= pos < u32::MAX,
        h.k.len() == model.config.n_layers,
        h.v.len() == model.config.n_layers,
        forall|l: int|
            0 <= l < model.config.n_layers ==> s(#[trigger] (model.gpu_acts->0).k_cache@[l])[0]
                == h.k[l] && s((model.gpu_acts->0).v_cache@[l])[0] == h.v[l],
    ensures
        ({
            let (w, c) = (model.weights, model.config);
            let (gw, ga) = (model.gpu_w->0, model.gpu_acts->0);
            let g = h.run(a, c.n_embd as int, super::cpu::forward_ops(w, c, token, pos));
            let t = super::laws_device::bench(a.maths, model, Seq::empty()).run(
                s,
                super::llama::forward_cmds(c, gw, ga, token, pos),
            );
            &&& t(ga.logits_rb) == seq![(g.bufs)(CpuBuf::Logits)]
            &&& forall|l: int|
                0 <= l < c.n_layers ==> t(#[trigger] ga.k_cache@[l])[0] == g.k[l] && t(
                    ga.v_cache@[l],
                )[0] == g.v[l]
        }),
{
    let (w, c) = (model.weights, model.config);
    let (gw, ga) = (model.gpu_w->0, model.gpu_acts->0);
    let n = c.n_layers as nat;
    super::laws_device::law_device_computes_the_model(
        a.maths,
        model,
        resident,
        ctx_len,
        s,
        token,
        pos,
    );
    law_host_computes_the_model(a, h, w, c, ctx_len as int, token, pos);
    let e = super::laws_device::flow_on(ga, n, s, s(ga.x)[0]);
    assert forall|l: int| 0 <= l < n implies e.k[l] == h.k[l] && e.v[l] == h.v[l] by {
        assert(s(ga.k_cache@[l])[0] == h.k[l]);
    }
    assert(e.k =~= h.k);
    assert(e.v =~= h.v);
    let t = super::laws_device::bench(a.maths, model, Seq::empty()).run(
        s,
        super::llama::forward_cmds(c, gw, ga, token, pos),
    );
    let f = a.maths.token(w, c, ctx_len as int, token, pos, e);
    assert(a.maths.token(w, c, ctx_len as int, token, pos, h.flow()) == f);
    let d = super::laws_device::flow_on(ga, n, t, f.x);
    assert forall|l: int| 0 <= l < c.n_layers implies t(#[trigger] ga.k_cache@[l])[0] == f.k[l]
        && t(ga.v_cache@[l])[0] == f.v[l] by {
        assert(d.k[l] == f.k[l] && d.v[l] == f.v[l]);
    }
}

} // verus!
