//! What an evaluation on the host reads and writes of the cache, whatever its numbers are.
//!
//! The steps of an evaluation are carried out here on sequences of numbers of any type. How a
//! number is computed stays open: it is some function of the step and of all that the step reads.
use vstd::prelude::*;

use super::config::ModelConfig;
use super::cpu::{CpuBuf, CpuOp};
use super::weights::Weights;

verus! {

/// Some arithmetic on numbers of type `T`.
#[verifier::reject_recursive_types(T)]
pub struct Arithmetic<T> {
    pub zero: T,
    /// The embedding row of a token.
    pub row: spec_fn(usize) -> Seq<T>,
    /// A number that a step writes: from the step, the vectors that it reads, which of the
    /// vectors that it writes is meant, and the index in that vector.
    pub number: spec_fn(CpuOp, Seq<Seq<T>>, int, int) -> T,
}

/// What the host holds during an evaluation.
#[verifier::reject_recursive_types(T)]
pub struct Host<T> {
    pub bufs: spec_fn(CpuBuf) -> Seq<T>,
    pub scores: Seq<T>,
    /// The keys of each layer.
    pub k: Seq<Seq<T>>,
    /// The values of each layer.
    pub v: Seq<Seq<T>>,
}

/// All vectors, with `content` in place of one.
pub open spec fn put<T>(
    bufs: spec_fn(CpuBuf) -> Seq<T>,
    buf: CpuBuf,
    content: Seq<T>,
) -> spec_fn(CpuBuf) -> Seq<T> {
    |b: CpuBuf|
        if b == buf {
            content
        } else {
            bufs(b)
        }
}

/// A vector of zeros.
pub open spec fn zeros<T>(a: Arithmetic<T>, len: nat) -> Seq<T> {
    Seq::new(len, |i: int| a.zero)
}

/// The `j`-th vector that a step writes: as long as it was, with new numbers.
pub open spec fn computed<T>(
    a: Arithmetic<T>,
    op: CpuOp,
    inputs: Seq<Seq<T>>,
    j: int,
    before: Seq<T>,
) -> Seq<T> {
    Seq::new(before.len(), |i: int| (a.number)(op, inputs, j, i))
}

/// One head of the first `n` positions of a layer.
pub open spec fn heads_of<T>(
    layer: Seq<T>,
    n: nat,
    kv_width: int,
    offset: int,
    head_dim: int,
) -> Seq<Seq<T>> {
    Seq::new(n, |p: int| super::kv_cache::head_of(layer, p, kv_width, offset, head_dim))
}

impl<T> Host<T> {
    /// One vector is replaced.
    pub open spec fn with(self, buf: CpuBuf, content: Seq<T>) -> Self {
        Host { bufs: put(self.bufs, buf, content), ..self }
    }

    /// One vector is computed from itself and the vectors that `op` reads besides.
    pub open spec fn works(
        self,
        a: Arithmetic<T>,
        op: CpuOp,
        buf: CpuBuf,
        inputs: Seq<Seq<T>>,
    ) -> Self {
        self.with(buf, computed(a, op, seq![(self.bufs)(buf)] + inputs, 0, (self.bufs)(buf)))
    }

    /// One step is carried out.
    pub open spec fn step(self, a: Arithmetic<T>, op: CpuOp) -> Self {
        let none = Seq::<Seq<T>>::empty();
        match op {
            CpuOp::Embed { token } => self.with(CpuBuf::X, (a.row)(token)),
            CpuOp::Zeros { buf, len } => self.with(buf, zeros(a, len as nat)),
            CpuOp::Scores { len } => Host { scores: zeros(a, len as nat), ..self },
            CpuOp::Copy { dst, src } => self.with(dst, (self.bufs)(src)),
            CpuOp::RmsNorm { buf, .. } => self.works(a, op, buf, none),
            CpuOp::MatVec { dst, src, .. } => self.works(a, op, dst, seq![(self.bufs)(src)]),
            CpuOp::AddBias { dst, .. } => self.works(a, op, dst, none),
            CpuOp::AddBuf { dst, src } => self.works(a, op, dst, seq![(self.bufs)(src)]),
            CpuOp::Rope { .. } => {
                let q = (self.bufs)(CpuBuf::Q);
                let k = (self.bufs)(CpuBuf::K);
                let inputs = seq![q] + seq![k];
                self.with(CpuBuf::Q, computed(a, op, inputs, 0, q)).with(
                    CpuBuf::K,
                    computed(a, op, inputs, 1, k),
                )
            },
            CpuOp::StoreKv { layer, start } => Host {
                k: self.k.update(
                    layer as int,
                    super::kv_cache::overwritten(
                        self.k[layer as int],
                        start as int,
                        (self.bufs)(CpuBuf::K),
                    ),
                ),
                v: self.v.update(
                    layer as int,
                    super::kv_cache::overwritten(
                        self.v[layer as int],
                        start as int,
                        (self.bufs)(CpuBuf::V),
                    ),
                ),
                ..self
            },
            CpuOp::Clear { buf } => self.with(buf, zeros(a, (self.bufs)(buf).len())),
            CpuOp::Attend { layer, head_dim, n, kv_width, offset, .. } => {
                let attn = (self.bufs)(CpuBuf::Attn);
                let inputs = seq![attn] + seq![self.scores] + seq![(self.bufs)(CpuBuf::Q)]
                    + heads_of(
                    self.k[layer as int],
                    n as nat,
                    kv_width as int,
                    offset as int,
                    head_dim as int,
                ) + heads_of(
                    self.v[layer as int],
                    n as nat,
                    kv_width as int,
                    offset as int,
                    head_dim as int,
                );
                Host {
                    bufs: put(self.bufs, CpuBuf::Attn, computed(a, op, inputs, 0, attn)),
                    scores: computed(a, op, inputs, 1, self.scores),
                    ..self
                }
            },
            CpuOp::SwiGlu { .. } => self.works(
                a,
                op,
                CpuBuf::Gate,
                seq![(self.bufs)(CpuBuf::Up)],
            ),
        }
    }

    /// All steps are carried out, one after the other.
    pub open spec fn run(self, a: Arithmetic<T>, ops: Seq<CpuOp>) -> Self
        decreases ops.len(),
    {
        if ops.len() == 0 {
            self
        } else {
            self.run(a, ops.drop_last()).step(a, ops.last())
        }
    }

    /// The logits.
    pub open spec fn logits(self) -> Seq<T> {
        (self.bufs)(CpuBuf::Logits)
    }
}

/// What the host holds after the evaluation of `token` at position `pos` with a cache of these
/// keys and values.
pub open spec fn evaluated<T>(
    a: Arithmetic<T>,
    w: Weights,
    c: ModelConfig,
    token: usize,
    pos: int,
    k: Seq<Seq<T>>,
    v: Seq<Seq<T>>,
) -> Host<T> {
    Host { bufs: |b: CpuBuf| Seq::empty(), scores: Seq::empty(), k, v }.run(
        a,
        super::cpu::forward_ops(w, c, token, pos),
    )
}

/// There is a layer for each of the model's, with room for `rows` positions.
pub open spec fn has_room<T>(layers: Seq<Seq<T>>, c: ModelConfig, rows: int) -> bool {
    &&& layers.len() == c.n_layers
    &&& forall|l: int|
        0 <= l < c.n_layers ==> rows * c.kv_width() <= (#[trigger] layers[l]).len()
}

/// Two caches hold the same rows before position `pos`, in every layer.
pub open spec fn agree_before<T>(
    a: Seq<Seq<T>>,
    b: Seq<Seq<T>>,
    c: ModelConfig,
    pos: int,
) -> bool {
    forall|l: int, i: int|
        0 <= l < c.n_layers && 0 <= i < pos * c.kv_width() ==> #[trigger] a[l][i]
            == #[trigger] b[l][i]
}

/// The key/value head of every query head lies within a row of the cache.
pub open spec fn heads_in_rows(c: ModelConfig) -> bool {
    forall|h: int|
        0 <= h < c.n_heads ==> #[trigger] super::cpu::kv_head(c, h) * c.head_dim + c.head_dim
            <= c.kv_width()
}

/// How far the contents of a layer agree in two evaluations.
spec fn near<T>(a: Seq<T>, b: Seq<T>, lo: int, hi: int, stored: bool, wide: bool) -> bool {
    &&& hi <= a.len()
    &&& hi <= b.len()
    &&& wide ==> a.len() == b.len()
    &&& forall|i: int|
        0 <= i < a.len() && (i < lo || i < hi && stored || i >= hi && wide) ==> #[trigger] a[i]
            == #[trigger] b[i]
}

/// `b` is `a` outside of one row.
spec fn kept<T>(a: Seq<T>, b: Seq<T>, lo: int, hi: int) -> bool {
    &&& a.len() == b.len()
    &&& forall|i: int| 0 <= i < a.len() && !(lo <= i < hi) ==> #[trigger] a[i] == #[trigger] b[i]
}

/// Two evaluations of the same token at the same position: which rows they share, and what the
/// first has left of the cache that it began with.
struct Pair<T> {
    c: ModelConfig,
    pos: int,
    wide: bool,
    k: Seq<Seq<T>>,
    v: Seq<Seq<T>>,
}

impl<T> Pair<T> {
    spec fn lo(self) -> int {
        self.pos * self.c.kv_width()
    }

    spec fn hi(self) -> int {
        (self.pos + 1) * self.c.kv_width()
    }

    spec fn fits(self) -> bool {
        &&& 0 <= self.pos
        &&& super::cpu::forward_cpu_fits(self.c, self.pos)
        &&& !self.wide && self.c.n_layers > 0 ==> heads_in_rows(self.c)
    }

    spec fn layers(
        self,
        first: Seq<Seq<T>>,
        a: Seq<Seq<T>>,
        b: Seq<Seq<T>>,
        stored: int,
    ) -> bool {
        &&& first.len() == self.c.n_layers
        &&& a.len() == self.c.n_layers
        &&& b.len() == self.c.n_layers
        &&& forall|l: int|
            0 <= l < self.c.n_layers ==> near(
                #[trigger] a[l],
                #[trigger] b[l],
                self.lo(),
                self.hi(),
                l < stored,
                self.wide,
            )
        &&& forall|l: int|
            0 <= l < self.c.n_layers ==> kept(
                #[trigger] first[l],
                #[trigger] a[l],
                self.lo(),
                self.hi(),
            )
    }

    /// The first `stored` layers have stored their keys and values.
    spec fn relates(self, s: Host<T>, t: Host<T>, stored: int) -> bool {
        &&& s.bufs == t.bufs
        &&& s.scores == t.scores
        &&& self.layers(self.k, s.k, t.k, stored)
        &&& self.layers(self.v, s.v, t.v, stored)
    }

    spec fn sized(self, s: Host<T>) -> bool {
        &&& (s.bufs)(CpuBuf::K).len() == self.c.kv_width()
        &&& (s.bufs)(CpuBuf::V).len() == self.c.kv_width()
    }
}

/// The step neither touches the cache nor makes keys or values anew.
spec fn quiet(op: CpuOp) -> bool {
    match op {
        CpuOp::StoreKv { .. } => false,
        CpuOp::Attend { .. } => false,
        CpuOp::Zeros { buf, .. } => buf != CpuBuf::K && buf != CpuBuf::V,
        CpuOp::Copy { dst, .. } => dst != CpuBuf::K && dst != CpuBuf::V,
        _ => true,
    }
}

spec fn all_quiet(ops: Seq<CpuOp>) -> bool {
    forall|i: int| 0 <= i < ops.len() ==> quiet(#[trigger] ops[i])
}

proof fn lemma_run_sum<T>(h: Host<T>, a: Arithmetic<T>, x: Seq<CpuOp>, y: Seq<CpuOp>)
    ensures
        h.run(a, x + y) == h.run(a, x).run(a, y),
    decreases y.len(),
{
    if y.len() == 0 {
        assert(x + y =~= x);
    } else {
        assert((x + y).drop_last() =~= x + y.drop_last());
        lemma_run_sum(h, a, x, y.drop_last());
    }
}

proof fn lemma_run_one<T>(h: Host<T>, a: Arithmetic<T>, op: CpuOp)
    ensures
        h.run(a, seq![op]) == h.step(a, op),
{
    assert(seq![op].drop_last() =~= Seq::empty());
    assert(h.run(a, seq![op].drop_last()) == h);
}

proof fn lemma_quiet_step<T>(
    p: Pair<T>,
    a: Arithmetic<T>,
    s: Host<T>,
    t: Host<T>,
    op: CpuOp,
    stored: int,
)
    requires
        p.relates(s, t, stored),
        quiet(op),
    ensures
        p.relates(s.step(a, op), t.step(a, op), stored),
        p.sized(s) ==> p.sized(s.step(a, op)),
{
    assert(s.step(a, op).bufs == t.step(a, op).bufs);
}

proof fn lemma_quiet<T>(
    p: Pair<T>,
    a: Arithmetic<T>,
    s: Host<T>,
    t: Host<T>,
    ops: Seq<CpuOp>,
    stored: int,
)
    requires
        p.relates(s, t, stored),
        all_quiet(ops),
    ensures
        p.relates(s.run(a, ops), t.run(a, ops), stored),
        p.sized(s) ==> p.sized(s.run(a, ops)),
    decreases ops.len(),
{
    if ops.len() > 0 {
        assert forall|i: int| 0 <= i < ops.drop_last().len() implies quiet(
            #[trigger] ops.drop_last()[i],
        ) by {
            assert(quiet(ops[i]));
        }
        lemma_quiet(p, a, s, t, ops.drop_last(), stored);
        lemma_quiet_step(
            p,
            a,
            s.run(a, ops.drop_last()),
            t.run(a, ops.drop_last()),
            ops.last(),
            stored,
        );
    }
}

proof fn lemma_stored_layers<T>(
    p: Pair<T>,
    first: Seq<Seq<T>>,
    a: Seq<Seq<T>>,
    b: Seq<Seq<T>>,
    l: int,
    part: Seq<T>,
)
    requires
        p.fits(),
        0 <= l < p.c.n_layers,
        p.layers(first, a, b, l),
        part.len() == p.c.kv_width(),
    ensures
        p.layers(
            first,
            a.update(l, super::kv_cache::overwritten(a[l], p.lo(), part)),
            b.update(l, super::kv_cache::overwritten(b[l], p.lo(), part)),
            l + 1,
        ),
{
    let a2 = a.update(l, super::kv_cache::overwritten(a[l], p.lo(), part));
    let b2 = b.update(l, super::kv_cache::overwritten(b[l], p.lo(), part));
    lemma_row(p);
    assert(near(a[l], b[l], p.lo(), p.hi(), false, p.wide));
    assert(kept(first[l], a[l], p.lo(), p.hi()));
    assert forall|m: int| 0 <= m < p.c.n_layers implies near(
        #[trigger] a2[m],
        #[trigger] b2[m],
        p.lo(),
        p.hi(),
        m < l + 1,
        p.wide,
    ) by {
        assert(near(a[m], b[m], p.lo(), p.hi(), m < l, p.wide));
    }
    assert forall|m: int| 0 <= m < p.c.n_layers implies kept(
        #[trigger] first[m],
        #[trigger] a2[m],
        p.lo(),
        p.hi(),
    ) by {
        assert(kept(first[m], a[m], p.lo(), p.hi()));
    }
}

/// A row of the cache.
proof fn lemma_row<T>(p: Pair<T>)
    requires
        0 <= p.pos,
    ensures
        0 <= p.lo(),
        p.hi() == p.lo() + p.c.kv_width(),
{
    let x = p.pos;
    let y = p.c.kv_width() as int;
    assert(0 <= x * y && (x + 1) * y == x * y + y) by (nonlinear_arith)
        requires
            0 <= x,
            0 <= y,
    ;
}

proof fn lemma_store<T>(p: Pair<T>, a: Arithmetic<T>, s: Host<T>, t: Host<T>, l: int)
    requires
        p.fits(),
        p.relates(s, t, l),
        p.sized(s),
        0 <= l < p.c.n_layers,
    ensures
        ({
            let op = CpuOp::StoreKv { layer: l as usize, start: (p.pos * p.c.kv_width()) as usize };
            &&& p.relates(s.step(a, op), t.step(a, op), l + 1)
            &&& p.sized(s.step(a, op))
        }),
{
    lemma_row(p);
    lemma_stored_layers(p, p.k, s.k, t.k, l, (s.bufs)(CpuBuf::K));
    lemma_stored_layers(p, p.v, s.v, t.v, l, (s.bufs)(CpuBuf::V));
}

/// What a head reads is the same in both evaluations.
proof fn lemma_same_heads<T>(
    p: Pair<T>,
    first: Seq<Seq<T>>,
    a: Seq<Seq<T>>,
    b: Seq<Seq<T>>,
    l: int,
    h: int,
)
    requires
        p.fits(),
        0 <= l < p.c.n_layers,
        0 <= h < p.c.n_heads,
        p.layers(first, a, b, l + 1),
    ensures
        ({
            let kvw = p.c.kv_width() as int;
            let off = super::cpu::kv_head(p.c, h) * p.c.head_dim;
            let n = (p.pos + 1) as nat;
            heads_of(a[l], n, kvw, off, p.c.head_dim as int) == heads_of(
                b[l],
                n,
                kvw,
                off,
                p.c.head_dim as int,
            )
        }),
{
    let kvw = p.c.kv_width() as int;
    let hd = p.c.head_dim as int;
    let off = super::cpu::kv_head(p.c, h) * p.c.head_dim;
    let n = (p.pos + 1) as nat;
    assert(near(a[l], b[l], p.lo(), p.hi(), true, p.wide));
    lemma_row(p);
    if p.wide {
        assert(a[l] =~= b[l]);
    } else {
        super::cpu::lemma_head_bounds(p.c, h, p.pos);
        assert forall|q: int| 0 <= q < n implies #[trigger] super::kv_cache::head_of(
            a[l],
            q,
            kvw,
            off,
            hd,
        ) == super::kv_cache::head_of(b[l], q, kvw, off, hd) by {
            let pos = p.pos;
            assert(0 <= q * kvw && q * kvw + kvw <= (pos + 1) * kvw) by (nonlinear_arith)
                requires
                    0 <= q <= pos,
                    0 <= kvw,
            ;
            assert(super::cpu::kv_head(p.c, h) * p.c.head_dim + p.c.head_dim <= kvw);
            assert(super::kv_cache::head_of(a[l], q, kvw, off, hd)
                =~= super::kv_cache::head_of(b[l], q, kvw, off, hd));
        }
        assert(heads_of(a[l], n, kvw, off, hd) =~= heads_of(b[l], n, kvw, off, hd));
    }
}

proof fn lemma_attend<T>(p: Pair<T>, a: Arithmetic<T>, s: Host<T>, t: Host<T>, l: int, h: int)
    requires
        p.fits(),
        p.relates(s, t, l + 1),
        0 <= l < p.c.n_layers,
        0 <= h < p.c.n_heads,
    ensures
        ({
            let op = super::cpu::attend_op(p.c, l, p.pos, h);
            &&& p.relates(s.step(a, op), t.step(a, op), l + 1)
            &&& p.sized(s) ==> p.sized(s.step(a, op))
        }),
{
    super::cpu::lemma_head_bounds(p.c, h, p.pos);
    lemma_same_heads(p, p.k, s.k, t.k, l, h);
    lemma_same_heads(p, p.v, s.v, t.v, l, h);
}

proof fn lemma_attends<T>(
    p: Pair<T>,
    a: Arithmetic<T>,
    s: Host<T>,
    t: Host<T>,
    l: int,
    n: int,
)
    requires
        p.fits(),
        p.relates(s, t, l + 1),
        0 <= l < p.c.n_layers,
        0 <= n <= p.c.n_heads,
    ensures
        ({
            let ops = super::cpu::attend_ops(p.c, l, p.pos).take(n);
            &&& p.relates(s.run(a, ops), t.run(a, ops), l + 1)
            &&& p.sized(s) ==> p.sized(s.run(a, ops))
        }),
    decreases n,
{
    let all = super::cpu::attend_ops(p.c, l, p.pos);
    if n > 0 {
        lemma_attends(p, a, s, t, l, n - 1);
        assert(all.take(n).drop_last() =~= all.take(n - 1));
        assert(all.take(n).last() == super::cpu::attend_op(p.c, l, p.pos, n - 1));
        lemma_attend(p, a, s.run(a, all.take(n - 1)), t.run(a, all.take(n - 1)), l, n - 1);
    }
}

proof fn lemma_layer<T>(
    p: Pair<T>,
    a: Arithmetic<T>,
    w: Weights,
    s: Host<T>,
    t: Host<T>,
    l: int,
)
    requires
        p.fits(),
        p.relates(s, t, l),
        p.sized(s),
        0 <= l < p.c.n_layers,
    ensures
        ({
            let ops = super::cpu::layer_ops(w, p.c, l, p.pos);
            &&& p.relates(s.run(a, ops), t.run(a, ops), l + 1)
            &&& p.sized(s.run(a, ops))
        }),
{
    let rope = CpuOp::Rope {
        pos: p.pos as usize,
        head_dim: p.c.head_dim,
        n_heads: p.c.n_heads,
        n_kv_heads: p.c.n_kv_heads,
    };
    let store = CpuOp::StoreKv { layer: l as usize, start: (p.pos * p.c.kv_width()) as usize };
    let clear = CpuOp::Clear { buf: CpuBuf::Attn };
    let begin = super::cpu::norm_ops(w.attn_norm@[l]) + super::cpu::qkv_ops(w, p.c, l)
        + seq![rope];
    let heads = super::cpu::attend_ops(p.c, l, p.pos);
    let end = super::cpu::project_ops(w, l) + super::cpu::norm_ops(w.ffn_norm@[l])
        + super::cpu::feed_ops(w, p.c, l);
    let ops = super::cpu::layer_ops(w, p.c, l, p.pos);
    assert(ops =~= begin + seq![store] + seq![clear] + heads + end);
    assert(all_quiet(begin));
    assert(all_quiet(seq![clear]));
    assert(all_quiet(end));
    assert(heads.take(p.c.n_heads as int) =~= heads);
    let s1 = s.run(a, begin);
    let t1 = t.run(a, begin);
    let s2 = s1.step(a, store);
    let t2 = t1.step(a, store);
    let s3 = s2.run(a, seq![clear]);
    let t3 = t2.run(a, seq![clear]);
    let s4 = s3.run(a, heads);
    let t4 = t3.run(a, heads);
    lemma_quiet(p, a, s, t, begin, l);
    lemma_store(p, a, s1, t1, l);
    lemma_quiet(p, a, s2, t2, seq![clear], l + 1);
    lemma_attends(p, a, s3, t3, l, p.c.n_heads as int);
    lemma_quiet(p, a, s4, t4, end, l + 1);
    lemma_layer_run(s, a, begin, store, clear, heads, end);
    lemma_layer_run(t, a, begin, store, clear, heads, end);
}

proof fn lemma_layer_run<T>(
    s: Host<T>,
    a: Arithmetic<T>,
    begin: Seq<CpuOp>,
    store: CpuOp,
    clear: CpuOp,
    heads: Seq<CpuOp>,
    end: Seq<CpuOp>,
)
    ensures
        s.run(a, begin + seq![store] + seq![clear] + heads + end) == s.run(a, begin).step(
            a,
            store,
        ).run(a, seq![clear]).run(a, heads).run(a, end),
{
    lemma_run_sum(s, a, begin, seq![store]);
    lemma_run_one(s.run(a, begin), a, store);
    lemma_run_sum(s, a, begin + seq![store], seq![clear]);
    lemma_run_sum(s, a, begin + seq![store] + seq![clear], heads);
    lemma_run_sum(s, a, begin + seq![store] + seq![clear] + heads, end);
}

proof fn lemma_layers<T>(
    p: Pair<T>,
    a: Arithmetic<T>,
    w: Weights,
    s: Host<T>,
    t: Host<T>,
    n: nat,
)
    requires
        p.fits(),
        p.relates(s, t, 0),
        p.sized(s),
        n <= p.c.n_layers,
    ensures
        ({
            let ops = super::cpu::layers_ops(w, p.c, p.pos, n);
            &&& p.relates(s.run(a, ops), t.run(a, ops), n as int)
            &&& p.sized(s.run(a, ops))
        }),
    decreases n,
{
    if n > 0 {
        let before = super::cpu::layers_ops(w, p.c, p.pos, (n - 1) as nat);
        let layer = super::cpu::layer_ops(w, p.c, n - 1, p.pos);
        lemma_layers(p, a, w, s, t, (n - 1) as nat);
        lemma_run_sum(s, a, before, layer);
        lemma_run_sum(t, a, before, layer);
        lemma_layer(p, a, w, s.run(a, before), t.run(a, before), n - 1);
    }
}

/// The vectors of an evaluation are made.
proof fn lemma_begin<T>(p: Pair<T>, a: Arithmetic<T>, s: Host<T>, t: Host<T>, token: usize)
    requires
        p.fits(),
        p.relates(s, t, 0),
    ensures
        ({
            let ops = seq![CpuOp::Embed { token }] + super::cpu::scratch_ops(p.c, p.pos);
            &&& p.relates(s.run(a, ops), t.run(a, ops), 0)
            &&& p.sized(s.run(a, ops))
        }),
{
    let c = p.c;
    let k = CpuOp::Zeros { buf: CpuBuf::K, len: c.kv_width() as usize };
    let v = CpuOp::Zeros { buf: CpuBuf::V, len: c.kv_width() as usize };
    let x = seq![CpuOp::Embed { token }] + seq![
        CpuOp::Zeros { buf: CpuBuf::Xn, len: c.n_embd },
    ] + seq![CpuOp::Zeros { buf: CpuBuf::Q, len: c.q_width() as usize }];
    let y = seq![CpuOp::Scores { len: (c.n_heads * (p.pos + 1)) as usize }] + seq![
        CpuOp::Zeros { buf: CpuBuf::Attn, len: c.n_embd },
    ] + seq![CpuOp::Zeros { buf: CpuBuf::Proj, len: c.n_embd }] + seq![
        CpuOp::Zeros { buf: CpuBuf::Gate, len: c.n_ff },
    ] + seq![CpuOp::Zeros { buf: CpuBuf::Up, len: c.n_ff }] + seq![
        CpuOp::Zeros { buf: CpuBuf::Ff, len: c.n_embd },
    ];
    let ops = seq![CpuOp::Embed { token }] + super::cpu::scratch_ops(c, p.pos);
    assert(ops =~= x + seq![k] + seq![v] + y);
    assert(all_quiet(x));
    assert(all_quiet(y));
    let s1 = s.run(a, x);
    let t1 = t.run(a, x);
    let s3 = s1.step(a, k).step(a, v);
    let t3 = t1.step(a, k).step(a, v);
    lemma_quiet(p, a, s, t, x, 0);
    assert(s3.bufs == t3.bufs);
    assert(p.relates(s3, t3, 0));
    assert(p.sized(s3));
    lemma_quiet(p, a, s3, t3, y, 0);
    lemma_begin_run(s, a, x, k, v, y);
    lemma_begin_run(t, a, x, k, v, y);
}

proof fn lemma_begin_run<T>(
    s: Host<T>,
    a: Arithmetic<T>,
    x: Seq<CpuOp>,
    k: CpuOp,
    v: CpuOp,
    y: Seq<CpuOp>,
)
    ensures
        s.run(a, x + seq![k] + seq![v] + y) == s.run(a, x).step(a, k).step(a, v).run(a, y),
{
    lemma_run_sum(s, a, x, seq![k]);
    lemma_run_one(s.run(a, x), a, k);
    lemma_run_sum(s, a, x + seq![k], seq![v]);
    lemma_run_one(s.run(a, x).step(a, k), a, v);
    lemma_run_sum(s, a, x + seq![k] + seq![v], y);
}

/// Two whole evaluations.
proof fn lemma_pair<T>(
    p: Pair<T>,
    a: Arithmetic<T>,
    w: Weights,
    token: usize,
    k: Seq<Seq<T>>,
    v: Seq<Seq<T>>,
)
    requires
        p.fits(),
        p.layers(p.k, p.k, k, 0),
        p.layers(p.v, p.v, v, 0),
    ensures
        p.relates(
            evaluated(a, w, p.c, token, p.pos, p.k, p.v),
            evaluated(a, w, p.c, token, p.pos, k, v),
            p.c.n_layers as int,
        ),
{
    let bufs = |b: CpuBuf| Seq::<T>::empty();
    let s = Host { bufs, scores: Seq::empty(), k: p.k, v: p.v };
    let t = Host { bufs, scores: Seq::empty(), k, v };
    let x = seq![CpuOp::Embed { token }] + super::cpu::scratch_ops(p.c, p.pos);
    let y = super::cpu::layers_ops(w, p.c, p.pos, p.c.n_layers as nat);
    let z = super::cpu::logits_ops(w, p.c);
    let ops = super::cpu::forward_ops(w, p.c, token, p.pos);
    assert(ops == x + y + z);
    lemma_begin(p, a, s, t, token);
    lemma_layers(p, a, w, s.run(a, x), t.run(a, x), p.c.n_layers as nat);
    lemma_run_sum(s, a, x, y);
    lemma_run_sum(t, a, x, y);
    assert(all_quiet(z));
    lemma_quiet(p, a, s.run(a, x + y), t.run(a, x + y), z, p.c.n_layers as int);
    lemma_run_sum(s, a, x + y, z);
    lemma_run_sum(t, a, x + y, z);
}

/// What an evaluation at position `pos` gives depends on the rows of the cache before `pos`
/// alone: two caches that agree there give the same logits, and then agree up to and with the row
/// of `pos`. Every head has to lie within a row.
pub proof fn law_later_rows_do_not_matter<T>(
    a: Arithmetic<T>,
    w: Weights,
    c: ModelConfig,
    token: usize,
    pos: int,
    k1: Seq<Seq<T>>,
    v1: Seq<Seq<T>>,
    k2: Seq<Seq<T>>,
    v2: Seq<Seq<T>>,
)
    requires
        0 <= pos,
        super::cpu::forward_cpu_fits(c, pos),
        c.n_layers > 0 ==> heads_in_rows(c),
        has_room(k1, c, pos + 1),
        has_room(v1, c, pos + 1),
        has_room(k2, c, pos + 1),
        has_room(v2, c, pos + 1),
        agree_before(k1, k2, c, pos),
        agree_before(v1, v2, c, pos),
    ensures
        ({
            let e1 = evaluated(a, w, c, token, pos, k1, v1);
            let e2 = evaluated(a, w, c, token, pos, k2, v2);
            &&& e1.logits() == e2.logits()
            &&& agree_before(e1.k, e2.k, c, pos + 1)
            &&& agree_before(e1.v, e2.v, c, pos + 1)
        }),
{
    let p = Pair { c, pos, wide: false, k: k1, v: v1 };
    lemma_row(p);
    lemma_pair(p, a, w, token, k2, v2);
    let e1 = evaluated(a, w, c, token, pos, k1, v1);
    let e2 = evaluated(a, w, c, token, pos, k2, v2);
    lemma_agree(p, k1, e1.k, e2.k);
    lemma_agree(p, v1, e1.v, e2.v);
}

proof fn lemma_agree<T>(p: Pair<T>, first: Seq<Seq<T>>, a: Seq<Seq<T>>, b: Seq<Seq<T>>)
    requires
        p.fits(),
        p.layers(first, a, b, p.c.n_layers as int),
    ensures
        agree_before(a, b, p.c, p.pos + 1),
{
    assert forall|l: int, i: int|
        0 <= l < p.c.n_layers && 0 <= i < (p.pos + 1) * p.c.kv_width() implies #[trigger] a[l][i]
        == #[trigger] b[l][i] by {
        assert(near(a[l], b[l], p.lo(), p.hi(), true, p.wide));
    }
}

/// A second evaluation of a token at the same position gives the same logits, and leaves the
/// cache as the first has left it.
pub proof fn law_second_evaluation_changes_nothing<T>(
    a: Arithmetic<T>,
    w: Weights,
    c: ModelConfig,
    token: usize,
    pos: int,
    k: Seq<Seq<T>>,
    v: Seq<Seq<T>>,
)
    requires
        0 <= pos,
        super::cpu::forward_cpu_fits(c, pos),
        has_room(k, c, pos + 1),
        has_room(v, c, pos + 1),
    ensures
        ({
            let once = evaluated(a, w, c, token, pos, k, v);
            let twice = evaluated(a, w, c, token, pos, once.k, once.v);
            &&& twice.logits() == once.logits()
            &&& twice.k == once.k
            &&& twice.v == once.v
        }),
{
    let p = Pair { c, pos, wide: true, k, v };
    let once = evaluated(a, w, c, token, pos, k, v);
    lemma_row(p);
    lemma_pair(p, a, w, token, k, v);
    lemma_kept(p, k, once.k);
    lemma_kept(p, v, once.v);
    lemma_pair(p, a, w, token, once.k, once.v);
    let twice = evaluated(a, w, c, token, pos, once.k, once.v);
    lemma_equal(p, k, once.k, twice.k);
    lemma_equal(p, v, once.v, twice.v);
}

proof fn lemma_kept<T>(p: Pair<T>, first: Seq<Seq<T>>, a: Seq<Seq<T>>)
    requires
        p.layers(first, a, a, p.c.n_layers as int),
    ensures
        p.layers(first, first, a, 0),
{
    assert forall|l: int| 0 <= l < p.c.n_layers implies near(
        #[trigger] first[l],
        #[trigger] a[l],
        p.lo(),
        p.hi(),
        l < 0,
        p.wide,
    ) by {
        assert(kept(first[l], a[l], p.lo(), p.hi()));
        assert(near(a[l], a[l], p.lo(), p.hi(), true, p.wide));
    }
}

proof fn lemma_equal<T>(p: Pair<T>, first: Seq<Seq<T>>, a: Seq<Seq<T>>, b: Seq<Seq<T>>)
    requires
        p.fits(),
        p.wide,
        p.layers(first, a, b, p.c.n_layers as int),
    ensures
        a == b,
{
    assert forall|l: int| 0 <= l < a.len() implies a[l] == b[l] by {
        assert(near(a[l], b[l], p.lo(), p.hi(), true, p.wide));
        assert(a[l] =~= b[l]);
    }
    assert(a =~= b);
}

} // verus!
