//! The function that a model computes.
//!
//! Here a model is what its weights make of a token: vectors that are normed, multiplied, turned,
//! attended to and added up. How single numbers are computed stays open; which vector goes where
//! does not. The evaluations on the host and on a device are held to this.
use vstd::prelude::*;

use super::config::ModelConfig;
use super::cpu::CpuMatrix;
use super::weights::{FloatVec, RowSpan, Weights};

verus! {

/// How the heads of a vector lie side by side.
pub struct Heads {
    pub n_heads: int,
    pub n_kv_heads: int,
    pub head_dim: int,
}

/// Some arithmetic on vectors. `V` is the type of a vector, and of the keys or the values of a
/// layer.
#[verifier::reject_recursive_types(V)]
pub struct Maths<V> {
    /// The embedding row of a token.
    pub row: spec_fn(usize) -> V,
    /// A vector of the file.
    pub vector: spec_fn(FloatVec) -> V,
    /// A vector of `n` numbers, normed with these weights.
    pub normed: spec_fn(V, V, int) -> V,
    /// A matrix times a vector.
    pub product: spec_fn(CpuMatrix, V) -> V,
    /// The sum of the first `n` numbers of two vectors.
    pub sum: spec_fn(V, V, int) -> V,
    /// A vector of so many heads of so many numbers, turned by a position.
    pub turned: spec_fn(V, int, int, int) -> V,
    /// Keys or values with those of one position stored: so many heads of so many numbers.
    pub stored: spec_fn(V, V, int, int, int) -> V,
    /// What the queries make of the keys and values of the first `n` positions, with scores for
    /// as many positions as the last number says.
    pub attended: spec_fn(V, V, V, Heads, int, int) -> V,
    /// `n` numbers, gated by others.
    pub gated: spec_fn(V, V, int) -> V,
}

/// A token on its way through the layers, and the keys and values of all layers.
pub struct Flow<V> {
    pub x: V,
    pub k: Seq<V>,
    pub v: Seq<V>,
}

impl<V> Maths<V> {
    /// The projection of a vector: by float rows, where there are any.
    pub open spec fn projected(
        self,
        tensor: usize,
        span: Option<RowSpan>,
        cols: usize,
        x: V,
    ) -> V {
        match span {
            Some(span) => (self.product)(CpuMatrix::Floats { span, cols }, x),
            None => (self.product)(CpuMatrix::Quant { tensor }, x),
        }
    }

    /// A vector and a bias, where there is one.
    pub open spec fn shifted(self, x: V, bias: Option<FloatVec>, n: int) -> V {
        match bias {
            Some(b) => (self.sum)(x, (self.vector)(b), n),
            None => x,
        }
    }

    /// The queries of layer `l`.
    pub open spec fn queries(self, w: Weights, c: ModelConfig, l: int, pos: int, x: V) -> V {
        let h = (self.normed)(x, (self.vector)(w.attn_norm@[l]), c.n_embd as int);
        (self.turned)(
            self.shifted(
                self.projected(w.attn_q@[l], w.attn_q_f32@[l], c.n_embd, h),
                w.attn_q_bias@[l],
                c.n_heads * c.head_dim,
            ),
            c.n_heads as int,
            c.head_dim as int,
            pos,
        )
    }

    /// The keys of layer `l`.
    pub open spec fn keys(self, w: Weights, c: ModelConfig, l: int, pos: int, x: V) -> V {
        let h = (self.normed)(x, (self.vector)(w.attn_norm@[l]), c.n_embd as int);
        (self.turned)(
            self.shifted(
                self.projected(w.attn_k@[l], w.attn_k_f32@[l], c.n_embd, h),
                w.attn_k_bias@[l],
                c.n_kv_heads * c.head_dim,
            ),
            c.n_kv_heads as int,
            c.head_dim as int,
            pos,
        )
    }

    /// The values of layer `l`, which no position turns.
    pub open spec fn values(self, w: Weights, c: ModelConfig, l: int, x: V) -> V {
        let h = (self.normed)(x, (self.vector)(w.attn_norm@[l]), c.n_embd as int);
        self.shifted(
            self.projected(w.attn_v@[l], w.attn_v_f32@[l], c.n_embd, h),
            w.attn_v_bias@[l],
            c.n_kv_heads * c.head_dim,
        )
    }

    /// What a layer makes of a vector, once its queries have been answered with `a`: the answer is
    /// projected and added, and so is what the feed-forward block makes of the sum.
    pub open spec fn finished(self, w: Weights, c: ModelConfig, l: int, x: V, a: V) -> V {
        let n = c.n_embd as int;
        let y = (self.sum)(x, (self.product)(CpuMatrix::Quant { tensor: w.attn_out@[l] }, a), n);
        let h = (self.normed)(y, (self.vector)(w.ffn_norm@[l]), n);
        let g = (self.gated)(
            (self.product)(CpuMatrix::Quant { tensor: w.ffn_gate@[l] }, h),
            (self.product)(CpuMatrix::Quant { tensor: w.ffn_up@[l] }, h),
            c.n_ff as int,
        );
        (self.sum)(y, (self.product)(CpuMatrix::Quant { tensor: w.ffn_down@[l] }, g), n)
    }

    /// One layer: keys and values of the position are stored, then its queries are answered from
    /// all positions up to it.
    pub open spec fn layer(
        self,
        w: Weights,
        c: ModelConfig,
        ctx_len: int,
        l: int,
        pos: int,
        f: Flow<V>,
    ) -> Flow<V> {
        let kv = c.n_kv_heads as int;
        let hd = c.head_dim as int;
        let k = (self.stored)(f.k[l], self.keys(w, c, l, pos, f.x), pos, kv, hd);
        let v = (self.stored)(f.v[l], self.values(w, c, l, f.x), pos, kv, hd);
        let a = (self.attended)(
            self.queries(w, c, l, pos, f.x),
            k,
            v,
            Heads { n_heads: c.n_heads as int, n_kv_heads: kv, head_dim: hd },
            pos + 1,
            ctx_len,
        );
        Flow { x: self.finished(w, c, l, f.x, a), k: f.k.update(l, k), v: f.v.update(l, v) }
    }

    /// The first `n` layers.
    pub open spec fn layers(
        self,
        w: Weights,
        c: ModelConfig,
        ctx_len: int,
        pos: int,
        n: nat,
        f: Flow<V>,
    ) -> Flow<V>
        decreases n,
    {
        if n == 0 {
            f
        } else {
            self.layer(
                w,
                c,
                ctx_len,
                n - 1,
                pos,
                self.layers(w, c, ctx_len, pos, (n - 1) as nat, f),
            )
        }
    }

    /// A token at a position, through all layers.
    pub open spec fn token(
        self,
        w: Weights,
        c: ModelConfig,
        ctx_len: int,
        token: usize,
        pos: int,
        f: Flow<V>,
    ) -> Flow<V> {
        self.layers(
            w,
            c,
            ctx_len,
            pos,
            c.n_layers as nat,
            Flow { x: (self.row)(token), k: f.k, v: f.v },
        )
    }

    /// Tokens at the positions from `start` on, one after the other.
    pub open spec fn tokens(
        self,
        w: Weights,
        c: ModelConfig,
        ctx_len: int,
        tokens: Seq<usize>,
        start: int,
        f: Flow<V>,
    ) -> Flow<V>
        decreases tokens.len(),
    {
        if tokens.len() == 0 {
            f
        } else {
            self.token(
                w,
                c,
                ctx_len,
                tokens.last(),
                start + tokens.len() - 1,
                self.tokens(w, c, ctx_len, tokens.drop_last(), start, f),
            )
        }
    }

    /// The logits of a vector that came through all layers.
    pub open spec fn logits(self, w: Weights, c: ModelConfig, x: V) -> V {
        (self.product)(
            CpuMatrix::Quant { tensor: w.output },
            (self.normed)(x, (self.vector)(w.output_norm), c.n_embd as int),
        )
    }
}

impl<V> Maths<V> {
    /// Attention over the first `n` positions does not see what is stored at later ones.
    pub open spec fn looks_back(self) -> bool {
        &&& forall|q: V, k: V, v: V, row: V, p: int, shape: Heads, n: int, ctx: int|
            p >= n ==> #[trigger] (self.attended)(
                q,
                (self.stored)(k, row, p, shape.n_kv_heads, shape.head_dim),
                v,
                shape,
                n,
                ctx,
            ) == (self.attended)(q, k, v, shape, n, ctx)
        &&& forall|q: V, k: V, v: V, row: V, p: int, shape: Heads, n: int, ctx: int|
            p >= n ==> #[trigger] (self.attended)(
                q,
                k,
                (self.stored)(v, row, p, shape.n_kv_heads, shape.head_dim),
                shape,
                n,
                ctx,
            ) == (self.attended)(q, k, v, shape, n, ctx)
    }
}

} // verus!
