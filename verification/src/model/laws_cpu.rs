//! What the steps of an evaluation on the host promise about the places they name.
use vstd::prelude::*;

use super::config::ModelConfig;
use super::cpu::CpuOp;

verus! {

/// Every head has a key/value head of the model, and lies within a row of the cache, where the
/// query heads divide evenly among the key/value heads.
pub proof fn law_heads_share_evenly(c: ModelConfig, h: int)
    requires
        super::cpu::heads_attend(c),
        c.n_heads as int % c.n_kv_heads as int == 0,
        0 <= h < c.n_heads,
    ensures
        0 <= super::cpu::kv_head(c, h) < c.n_kv_heads,
        super::cpu::kv_head(c, h) * c.head_dim + c.head_dim <= c.kv_width(),
{
    let n = c.n_heads as int;
    let kv = c.n_kv_heads as int;
    let ratio = n / kv;
    let g = h / ratio;
    lemma_even_share(n, kv, ratio, h, g);
    lemma_within(g, kv, c.head_dim as int);
}

/// The place of a head within the groups of `ratio` heads.
proof fn lemma_even_share(n: int, kv: int, ratio: int, h: int, g: int)
    by (nonlinear_arith)
    requires
        0 < kv <= n,
        n % kv == 0,
        ratio == n / kv,
        0 <= h < n,
        g == h / ratio,
    ensures
        ratio >= 1,
        0 <= g < kv,
{
    assert(n == kv * ratio);
    assert(ratio >= 1);
    assert(ratio * g <= h);
    assert(ratio * g < ratio * kv);
}

proof fn lemma_within(g: int, n: int, width: int)
    by (nonlinear_arith)
    requires
        0 <= g < n,
        0 <= width,
    ensures
        0 <= g * width,
        g * width + width <= n * width,
{
    assert((g + 1) * width <= n * width);
}

/// What a head reads at a position up to `pos` lies within a cache for `n_ctx` positions, where
/// `pos` is one of them.
pub proof fn law_heads_read_within_cache(c: ModelConfig, n_ctx: int, pos: int, h: int, p: int)
    requires
        super::cpu::heads_attend(c),
        c.n_heads as int % c.n_kv_heads as int == 0,
        0 <= h < c.n_heads,
        0 <= p <= pos < n_ctx,
    ensures
        0 <= p * c.kv_width() + super::cpu::kv_head(c, h) * c.head_dim,
        p * c.kv_width() + super::cpu::kv_head(c, h) * c.head_dim + c.head_dim <= (pos + 1)
            * c.kv_width(),
        (pos + 1) * c.kv_width() <= n_ctx * c.kv_width(),
{
    law_heads_share_evenly(c, h);
    let w = c.kv_width() as int;
    lemma_within(super::cpu::kv_head(c, h), c.n_kv_heads as int, c.head_dim as int);
    lemma_within(p, pos + 1, w);
    lemma_within(pos, n_ctx, w);
    assert((pos + 1) * w == pos * w + w) by (nonlinear_arith);
}

/// The row that a token stores lies within a cache for `n_ctx` positions.
pub proof fn law_stored_row_fits(c: ModelConfig, n_ctx: int, pos: int)
    requires
        0 <= pos < n_ctx,
    ensures
        0 <= pos * c.kv_width(),
        pos * c.kv_width() + c.kv_width() <= n_ctx * c.kv_width(),
{
    lemma_within(pos, n_ctx, c.kv_width() as int);
}

/// The scores of different heads do not overlap, and all of them have room.
pub proof fn law_scores_are_apart(c: ModelConfig, pos: int, g: int, h: int)
    requires
        0 <= pos,
        0 <= g < h < c.n_heads,
    ensures
        g * (pos + 1) + (pos + 1) <= h * (pos + 1),
        h * (pos + 1) + (pos + 1) <= c.n_heads * (pos + 1),
{
    lemma_within(g, h, pos + 1);
    lemma_within(h, c.n_heads as int, pos + 1);
}

/// The heads lie side by side in the query vector and in the output of attention.
pub proof fn law_heads_lie_side_by_side(c: ModelConfig, g: int, h: int)
    requires
        super::cpu::heads_attend(c),
        0 <= g < h < c.n_heads,
    ensures
        g * c.head_dim + c.head_dim <= h * c.head_dim,
        h * c.head_dim + c.head_dim <= c.q_width(),
        h * c.head_dim + c.head_dim <= c.n_embd,
{
    lemma_within(g, h, c.head_dim as int);
    lemma_within(h, c.n_heads as int, c.head_dim as int);
}

/// Where each key/value head serves `r` query heads, they are consecutive: query head `h` reads
/// key/value head `g` if and only if `h` is one of the `r` heads from `g * r` on. With one query
/// head for each, head `h` reads head `h`.
pub proof fn law_heads_share_in_groups(c: ModelConfig, l: int, pos: int, r: int, g: int, h: int)
    requires
        super::cpu::forward_cpu_fits(c, pos),
        0 <= l < c.n_layers,
        0 <= pos,
        0 < c.head_dim,
        c.n_heads == r * c.n_kv_heads,
        0 <= g < c.n_kv_heads,
        0 <= h < c.n_heads,
    ensures
        super::cpu::attend_ops(c, l, pos).len() == c.n_heads,
        super::cpu::attend_ops(c, l, pos)[h] is Attend,
        super::cpu::attend_ops(c, l, pos)[h]->offset == g * c.head_dim <==> g * r <= h < (g + 1)
            * r,
        super::cpu::kv_head(c, h) == g <==> g * r <= h < (g + 1) * r,
        r == 1 ==> super::cpu::attend_ops(c, l, pos)[h]->offset == h * c.head_dim,
{
    let n = c.n_heads as int;
    let kv = c.n_kv_heads as int;
    let hd = c.head_dim as int;
    let k = super::cpu::kv_head(c, h);
    lemma_group(n, kv, r, g, h);
    super::cpu::lemma_head_bounds(c, h, pos);
    assert(k * hd == g * hd <==> k == g) by (nonlinear_arith)
        requires
            hd > 0,
    ;
}

/// The group of `r` that a number lies in.
proof fn lemma_group(n: int, kv: int, r: int, g: int, h: int)
    requires
        0 < kv,
        n == r * kv,
        0 <= h < n,
    ensures
        n / kv == r,
        r >= 1,
        h / r == g <==> g * r <= h < (g + 1) * r,
        r == 1 ==> h / r == h,
{
    assert(n / kv == r && r >= 1) by (nonlinear_arith)
        requires
            0 < kv,
            n == r * kv,
            0 < n,
    ;
    assert(h / r == g <==> g * r <= h < (g + 1) * r) by (nonlinear_arith)
        requires
            r >= 1,
    ;
}

/// Each head has a stretch of the scores of its own, with one score for each position up to its
/// own, and all of them lie within the scores that the evaluation makes.
pub proof fn law_heads_have_their_scores(c: ModelConfig, l: int, pos: int, g: int, h: int)
    requires
        super::cpu::forward_cpu_fits(c, pos),
        0 <= l < c.n_layers,
        0 <= pos,
        0 <= g < h < c.n_heads,
    ensures
        ({
            let ops = super::cpu::attend_ops(c, l, pos);
            &&& ops[g]->Attend_n == pos + 1
            &&& ops[h]->Attend_n == pos + 1
            &&& ops[g]->scores + ops[g]->Attend_n <= ops[h]->scores
            &&& exists|i: int|
                0 <= i < super::cpu::scratch_ops(c, pos).len() && (
                #[trigger] super::cpu::scratch_ops(c, pos)[i] matches CpuOp::Scores { len }
                    && ops[h]->scores + ops[h]->Attend_n <= len)
        }),
{
    super::cpu::lemma_head_bounds(c, g, pos);
    super::cpu::lemma_head_bounds(c, h, pos);
    law_scores_are_apart(c, pos, g, h);
    let all = super::cpu::scratch_ops(c, pos);
    assert(all[4] == CpuOp::Scores { len: (c.n_heads * (pos + 1)) as usize });
}

} // verus!
