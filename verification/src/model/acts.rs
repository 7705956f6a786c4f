//! The activation buffers of a model on a GPU.
//!
//! A list of allocations says how large each buffer is and what it holds at first; a buffer is
//! named by the number of its allocation.
use vstd::prelude::*;

use super::config::ModelConfig;
use super::gpu::{ActBuf, GpuActs};
use super::prefill::bounded_product;
use super::weights::{FloatVec, Weights};

verus! {

/// A buffer to be allocated on the device.
#[derive(Clone, Copy, Debug, PartialEq, Eq, Structural)]
pub struct Alloc {
    pub bytes: u64,
    /// The host reads the buffer.
    pub readback: bool,
    /// What is written to the buffer once it is there.
    pub init: Option<FloatVec>,
}

/// The buffers of a model, and the allocations that give them.
pub struct ActPlan {
    pub allocs: Vec<Alloc>,
    pub acts: GpuActs,
}

/// The most tokens that the batch buffers hold.
pub const BATCH_LIMIT: usize = 512;

/// How many tokens the batch buffers hold.
pub open spec fn batch_rows(ctx_len: usize) -> usize {
    if ctx_len <= BATCH_LIMIT {
        ctx_len
    } else {
        BATCH_LIMIT
    }
}

/// A buffer of `n` floats.
pub open spec fn room(n: int) -> Seq<Alloc> {
    seq![Alloc { bytes: (n * 4) as u64, readback: false, init: None }]
}

/// A buffer of `n` floats that the host reads.
pub open spec fn readback_room(n: int) -> Seq<Alloc> {
    seq![Alloc { bytes: (n * 4) as u64, readback: true, init: None }]
}

/// A buffer of `n` floats that holds a vector from the start.
pub open spec fn filled(n: int, init: FloatVec) -> Seq<Alloc> {
    seq![Alloc { bytes: (n * 4) as u64, readback: false, init: Some(init) }]
}

/// A buffer that holds a bias, where there is one.
pub open spec fn bias_room(bias: Option<FloatVec>) -> Seq<Alloc> {
    match bias {
        Some(b) => filled(b.len as int, b),
        None => Seq::empty(),
    }
}

/// The key and value caches of the first `k` layers.
pub open spec fn cache_rooms(c: ModelConfig, ctx_len: usize, k: nat) -> Seq<Alloc>
    decreases k,
{
    if k == 0 {
        Seq::empty()
    } else {
        cache_rooms(c, ctx_len, (k - 1) as nat) + room((ctx_len * c.kv_width()) as int) + room(
            (ctx_len * c.kv_width()) as int,
        )
    }
}

/// The norms of the first `k` layers.
pub open spec fn norm_rooms(w: Weights, c: ModelConfig, k: nat) -> Seq<Alloc>
    decreases k,
{
    if k == 0 {
        Seq::empty()
    } else {
        norm_rooms(w, c, (k - 1) as nat) + filled(c.n_embd as int, w.attn_norm@[k - 1]) + filled(
            c.n_embd as int,
            w.ffn_norm@[k - 1],
        )
    }
}

/// The biases of the first `k` layers.
pub open spec fn bias_rooms(w: Weights, k: nat) -> Seq<Alloc>
    decreases k,
{
    if k == 0 {
        Seq::empty()
    } else {
        bias_rooms(w, (k - 1) as nat) + bias_room(w.attn_q_bias@[k - 1]) + bias_room(
            w.attn_k_bias@[k - 1],
        ) + bias_room(w.attn_v_bias@[k - 1])
    }
}

/// The buffers for the evaluation of one token.
pub open spec fn token_rooms(c: ModelConfig) -> Seq<Alloc> {
    room(c.n_embd as int) + room(c.n_embd as int) + room(c.q_width() as int) + room(
        c.kv_width() as int,
    ) + room(c.kv_width() as int) + room(c.n_embd as int) + room(c.n_embd as int) + room(
        c.n_ff as int,
    ) + room(c.n_ff as int) + room(c.n_embd as int) + room(c.n_vocab as int) + readback_room(
        c.n_vocab as int,
    )
}

/// The buffers for the evaluation of `b` tokens at once.
pub open spec fn batch_rooms(c: ModelConfig, b: usize) -> Seq<Alloc> {
    room(b * c.n_embd) + room(b * c.n_embd) + room((b * c.q_width()) as int) + room(
        (b * c.kv_width()) as int,
    ) + room((b * c.kv_width()) as int) + room(b * c.n_embd) + room(b * c.n_embd) + room(
        b * c.n_ff,
    ) + room(b * c.n_ff) + room(b * c.n_embd)
}

/// The key and value caches, the scores, and the vectors that stay as they are.
pub open spec fn model_rooms(w: Weights, c: ModelConfig, ctx_len: usize) -> Seq<Alloc> {
    cache_rooms(c, ctx_len, c.n_layers as nat) + room(c.n_heads * ctx_len) + norm_rooms(
        w,
        c,
        c.n_layers as nat,
    ) + filled(c.n_embd as int, w.output_norm) + bias_rooms(w, c.n_layers as nat)
}

/// All buffers, in the order in which they are allocated.
pub open spec fn all_rooms(w: Weights, c: ModelConfig, ctx_len: usize) -> Seq<Alloc> {
    model_rooms(w, c, ctx_len) + token_rooms(c) + batch_rooms(c, batch_rows(ctx_len))
}

/// The buffer that the allocation with number `i` gives.
pub open spec fn buf(i: int) -> ActBuf {
    ActBuf { id: i as usize }
}

/// The buffer of a bias that the allocation with number `i` gives, where there is one.
pub open spec fn bias_buf(bias: Option<FloatVec>, i: int) -> Option<ActBuf> {
    match bias {
        Some(_) => Some(buf(i)),
        None => None,
    }
}

impl GpuActs {
    /// The buffers of the layers are those that `all_rooms` begins with.
    pub open spec fn layers_allocated(self, w: Weights, c: ModelConfig) -> bool {
        &&& self.covers(c.n_layers as nat)
        &&& forall|l: int| 0 <= l < c.n_layers ==> #[trigger] self.layer_allocated(w, c, l)
        &&& self.scores == buf(2 * c.n_layers)
        &&& self.out_norm == buf(4 * c.n_layers + 1)
    }

    /// The buffers of layer `l`.
    pub open spec fn layer_allocated(self, w: Weights, c: ModelConfig, l: int) -> bool {
        &&& self.k_cache@[l] == buf(2 * l)
        &&& self.v_cache@[l] == buf(2 * l + 1)
        &&& self.attn_norms@[l] == buf(2 * c.n_layers + 1 + 2 * l)
        &&& self.ffn_norms@[l] == buf(2 * c.n_layers + 2 + 2 * l)
        &&& self.biases_allocated(w, c, l)
    }

    /// The buffers of the biases of layer `l`.
    pub open spec fn biases_allocated(self, w: Weights, c: ModelConfig, l: int) -> bool {
        let at = 4 * c.n_layers + 2 + bias_rooms(w, l as nat).len();
        let q = bias_room(w.attn_q_bias@[l]).len();
        let k = bias_room(w.attn_k_bias@[l]).len();
        &&& self.q_bias@[l] == bias_buf(w.attn_q_bias@[l], at)
        &&& self.k_bias@[l] == bias_buf(w.attn_k_bias@[l], at + q)
        &&& self.v_bias@[l] == bias_buf(w.attn_v_bias@[l], at + q + k)
    }

    /// The buffers for one token and for a batch follow from the allocation with number `at`.
    pub open spec fn rest_allocated(self, at: int) -> bool {
        &&& self.x == buf(at)
        &&& self.xn == buf(at + 1)
        &&& self.q == buf(at + 2)
        &&& self.k == buf(at + 3)
        &&& self.v == buf(at + 4)
        &&& self.attn_out == buf(at + 5)
        &&& self.proj == buf(at + 6)
        &&& self.gate == buf(at + 7)
        &&& self.up == buf(at + 8)
        &&& self.ff == buf(at + 9)
        &&& self.logits == buf(at + 10)
        &&& self.logits_rb == buf(at + 11)
        &&& self.x_batch == buf(at + 12)
        &&& self.xn_batch == buf(at + 13)
        &&& self.q_batch == buf(at + 14)
        &&& self.k_batch == buf(at + 15)
        &&& self.v_batch == buf(at + 16)
        &&& self.ao_batch == buf(at + 17)
        &&& self.proj_batch == buf(at + 18)
        &&& self.gate_batch == buf(at + 19)
        &&& self.up_batch == buf(at + 20)
        &&& self.ff_batch == buf(at + 21)
    }

    /// The buffers are those that the allocations of `all_rooms` give.
    pub open spec fn is_allocated(self, w: Weights, c: ModelConfig, ctx_len: usize) -> bool {
        &&& self.layers_allocated(w, c)
        &&& self.rest_allocated(model_rooms(w, c, ctx_len).len() as int)
        &&& self.ctx_len == ctx_len
        &&& self.max_batch == batch_rows(ctx_len)
    }
}

/// The size of a bias, where there is one, can be computed on this machine.
pub open spec fn bias_fits(bias: Option<FloatVec>) -> bool {
    bias matches Some(b) ==> b.len * 4 <= u64::MAX
}

/// The sizes of all buffers can be computed on this machine.
pub open spec fn rooms_fit(w: Weights, c: ModelConfig, ctx_len: usize) -> bool {
    let b = batch_rows(ctx_len);
    &&& c.widths_fit()
    &&& ctx_len * c.kv_width() * 4 <= usize::MAX
    &&& c.n_heads * ctx_len <= usize::MAX
    &&& c.n_heads * ctx_len * 4 <= u64::MAX
    &&& c.n_embd * 4 <= u64::MAX
    &&& c.n_ff * 4 <= u64::MAX
    &&& c.n_vocab * 4 <= u64::MAX
    &&& c.q_width() * 4 <= u64::MAX
    &&& c.kv_width() * 4 <= u64::MAX
    &&& b * c.n_embd * 4 <= u64::MAX
    &&& b * c.n_ff * 4 <= u64::MAX
    &&& b * c.q_width() * 4 <= u64::MAX
    &&& b * c.kv_width() * 4 <= u64::MAX
    &&& forall|l: int|
        0 <= l < c.n_layers ==> {
            &&& bias_fits(#[trigger] w.attn_q_bias@[l])
            &&& bias_fits(w.attn_k_bias@[l])
            &&& bias_fits(w.attn_v_bias@[l])
        }
}

/// Whether `a * b * 4` is at most `limit`.
fn floats_fit(a: usize, b: usize, limit: u128) -> (fit: bool)
    ensures
        fit == (a * b * 4 <= limit),
{
    assert(a * b <= u128::MAX) by (nonlinear_arith)
        requires
            a <= 0xffff_ffff_ffff_ffff,
            b <= 0xffff_ffff_ffff_ffff,
    ;
    a as u128 * b as u128 <= limit / 4
}

fn bias_size_fits(bias: &Option<FloatVec>) -> (fits: bool)
    ensures
        fits == bias_fits(*bias),
{
    match bias {
        Some(b) => floats_fit(b.len, 1, u64::MAX as u128),
        None => true,
    }
}

/// Whether the buffers of a model can be planned with `plan_acts`.
pub fn check_acts(w: &Weights, c: &ModelConfig, ctx_len: usize) -> (fit: bool)
    requires
        w.covers(c.n_layers as nat),
    ensures
        fit == rooms_fit(*w, *c, ctx_len),
{
    let most: u128 = u64::MAX as u128;
    let b: usize = if ctx_len <= BATCH_LIMIT { ctx_len } else { BATCH_LIMIT };
    if !c.check_widths() {
        return false;
    }
    let q: usize = c.q_dim();
    let kv: usize = c.kv_dim();
    let sizes = floats_fit(ctx_len, kv, usize::MAX as u128) && bounded_product(
        c.n_heads,
        ctx_len,
        usize::MAX,
    ).is_some() && floats_fit(c.n_heads, ctx_len, most) && floats_fit(c.n_embd, 1, most)
        && floats_fit(c.n_ff, 1, most) && floats_fit(c.n_vocab, 1, most) && floats_fit(q, 1, most)
        && floats_fit(kv, 1, most) && floats_fit(b, c.n_embd, most) && floats_fit(b, c.n_ff, most)
        && floats_fit(b, q, most) && floats_fit(b, kv, most);
    if !sizes {
        return false;
    }
    let mut l: usize = 0;
    while l < c.n_layers
        invariant
            w.covers(c.n_layers as nat),
            l <= c.n_layers,
            forall|i: int|
                0 <= i < l ==> {
                    &&& bias_fits(#[trigger] w.attn_q_bias@[i])
                    &&& bias_fits(w.attn_k_bias@[i])
                    &&& bias_fits(w.attn_v_bias@[i])
                },
        decreases c.n_layers - l,
    {
        let fits = bias_size_fits(&w.attn_q_bias[l]) && bias_size_fits(&w.attn_k_bias[l])
            && bias_size_fits(&w.attn_v_bias[l]);
        if !fits {
            assert(!(bias_fits(w.attn_q_bias@[l as int]) && bias_fits(w.attn_k_bias@[l as int])
                && bias_fits(w.attn_v_bias@[l as int])));
            return false;
        }
        l += 1;
    }
    true
}

/// Adds an allocation of `n` floats.
fn request(
    allocs: &mut Vec<Alloc>,
    n: u64,
    readback: bool,
    init: Option<FloatVec>,
) -> (act: ActBuf)
    requires
        n * 4 <= u64::MAX,
    ensures
        final(allocs)@ == old(allocs)@ + seq![Alloc { bytes: (n * 4) as u64, readback, init }],
        act == buf(old(allocs)@.len() as int),
        final(allocs)@.len() == old(allocs)@.len() + 1,
{
    let id: usize = allocs.len();
    allocs.push(Alloc { bytes: n * 4, readback, init });
    assert(allocs@ =~= old(allocs)@ + seq![Alloc { bytes: (n * 4) as u64, readback, init }]);
    ActBuf { id }
}

fn request_bias(allocs: &mut Vec<Alloc>, bias: Option<FloatVec>) -> (act: Option<ActBuf>)
    requires
        bias_fits(bias),
    ensures
        final(allocs)@ == old(allocs)@ + bias_room(bias),
        act == bias_buf(bias, old(allocs)@.len() as int),
{
    match bias {
        Some(b) => Some(request(allocs, b.len as u64, false, Some(b))),
        None => {
            assert(allocs@ =~= old(allocs)@ + bias_room(bias));
            None
        },
    }
}

proof fn lemma_cache_rooms_len(c: ModelConfig, ctx_len: usize, k: nat)
    ensures
        cache_rooms(c, ctx_len, k).len() == 2 * k,
    decreases k,
{
    if k > 0 {
        lemma_cache_rooms_len(c, ctx_len, (k - 1) as nat);
    }
}

pub(crate) proof fn lemma_norm_rooms_len(w: Weights, c: ModelConfig, k: nat)
    ensures
        norm_rooms(w, c, k).len() == 2 * k,
    decreases k,
{
    if k > 0 {
        lemma_norm_rooms_len(w, c, (k - 1) as nat);
    }
}

/// Allocates the key and value caches.
fn request_caches(
    allocs: &mut Vec<Alloc>,
    c: &ModelConfig,
    ctx_len: usize,
) -> (caches: (Vec<ActBuf>, Vec<ActBuf>))
    requires
        old(allocs)@.len() == 0,
        c.widths_fit(),
        ctx_len * c.kv_width() * 4 <= usize::MAX,
    ensures
        final(allocs)@ == cache_rooms(*c, ctx_len, c.n_layers as nat),
        caches.0@.len() == c.n_layers,
        caches.1@.len() == c.n_layers,
        forall|l: int| 0 <= l < c.n_layers ==> (#[trigger] caches.0@[l]) == buf(2 * l),
        forall|l: int| 0 <= l < c.n_layers ==> (#[trigger] caches.1@[l]) == buf(2 * l + 1),
{
    let mut k_cache: Vec<ActBuf> = Vec::new();
    let mut v_cache: Vec<ActBuf> = Vec::new();
    let size: usize = ctx_len * c.kv_dim();
    assert(allocs@ =~= cache_rooms(*c, ctx_len, 0));
    let mut i: usize = 0;
    while i < c.n_layers
        invariant
            size == ctx_len * c.kv_width(),
            size * 4 <= usize::MAX,
            i <= c.n_layers,
            allocs@ == cache_rooms(*c, ctx_len, i as nat),
            k_cache@.len() == i,
            v_cache@.len() == i,
            forall|l: int| 0 <= l < i ==> (#[trigger] k_cache@[l]) == buf(2 * l),
            forall|l: int| 0 <= l < i ==> (#[trigger] v_cache@[l]) == buf(2 * l + 1),
        decreases c.n_layers - i,
    {
        proof {
            lemma_cache_rooms_len(*c, ctx_len, i as nat);
        }
        k_cache.push(request(allocs, size as u64, false, None));
        v_cache.push(request(allocs, size as u64, false, None));
        i += 1;
    }
    (k_cache, v_cache)
}

/// Allocates the norms of the layers.
fn request_norms(
    allocs: &mut Vec<Alloc>,
    w: &Weights,
    c: &ModelConfig,
) -> (norms: (Vec<ActBuf>, Vec<ActBuf>))
    requires
        w.covers(c.n_layers as nat),
        c.n_embd * 4 <= u64::MAX,
    ensures
        final(allocs)@ == old(allocs)@ + norm_rooms(*w, *c, c.n_layers as nat),
        norms.0@.len() == c.n_layers,
        norms.1@.len() == c.n_layers,
        forall|l: int|
            0 <= l < c.n_layers ==> (#[trigger] norms.0@[l]) == buf(old(allocs)@.len() + 2 * l),
        forall|l: int|
            0 <= l < c.n_layers ==> (#[trigger] norms.1@[l]) == buf(
                old(allocs)@.len() + 2 * l + 1,
            ),
{
    let ghost before = allocs@;
    let mut attn_norms: Vec<ActBuf> = Vec::new();
    let mut ffn_norms: Vec<ActBuf> = Vec::new();
    assert(allocs@ =~= before + norm_rooms(*w, *c, 0));
    let mut i: usize = 0;
    while i < c.n_layers
        invariant
            w.covers(c.n_layers as nat),
            c.n_embd * 4 <= u64::MAX,
            i <= c.n_layers,
            allocs@ == before + norm_rooms(*w, *c, i as nat),
            attn_norms@.len() == i,
            ffn_norms@.len() == i,
            forall|l: int|
                0 <= l < i ==> (#[trigger] attn_norms@[l]) == buf(before.len() + 2 * l),
            forall|l: int|
                0 <= l < i ==> (#[trigger] ffn_norms@[l]) == buf(before.len() + 2 * l + 1),
        decreases c.n_layers - i,
    {
        let ghost upto = norm_rooms(*w, *c, i as nat);
        proof {
            lemma_norm_rooms_len(*w, *c, i as nat);
        }
        attn_norms.push(request(allocs, c.n_embd as u64, false, Some(w.attn_norm[i])));
        ffn_norms.push(request(allocs, c.n_embd as u64, false, Some(w.ffn_norm[i])));
        assert(allocs@ =~= before + (upto + filled(c.n_embd as int, w.attn_norm@[i as int])
            + filled(c.n_embd as int, w.ffn_norm@[i as int])));
        i += 1;
    }
    (attn_norms, ffn_norms)
}

/// The buffers of biases.
struct BiasBufs {
    q: Vec<Option<ActBuf>>,
    k: Vec<Option<ActBuf>>,
    v: Vec<Option<ActBuf>>,
}

impl BiasBufs {
    /// The biases of layer `l`, if those of the first layer follow `before` allocations.
    spec fn holds(self, w: Weights, before: int, l: int) -> bool {
        let at = before + bias_rooms(w, l as nat).len();
        let q = bias_room(w.attn_q_bias@[l]).len();
        let k = bias_room(w.attn_k_bias@[l]).len();
        &&& self.q@[l] == bias_buf(w.attn_q_bias@[l], at)
        &&& self.k@[l] == bias_buf(w.attn_k_bias@[l], at + q)
        &&& self.v@[l] == bias_buf(w.attn_v_bias@[l], at + q + k)
    }
}

/// Allocates the biases of the layers.
fn request_biases(allocs: &mut Vec<Alloc>, w: &Weights, n_layers: usize) -> (bufs: BiasBufs)
    requires
        w.covers(n_layers as nat),
        forall|l: int|
            0 <= l < n_layers ==> {
                &&& bias_fits(#[trigger] w.attn_q_bias@[l])
                &&& bias_fits(w.attn_k_bias@[l])
                &&& bias_fits(w.attn_v_bias@[l])
            },
    ensures
        final(allocs)@ == old(allocs)@ + bias_rooms(*w, n_layers as nat),
        bufs.q@.len() == n_layers,
        bufs.k@.len() == n_layers,
        bufs.v@.len() == n_layers,
        forall|l: int|
            0 <= l < n_layers ==> #[trigger] bufs.holds(*w, old(allocs)@.len() as int, l),
{
    let ghost before = allocs@;
    let mut bufs = BiasBufs { q: Vec::new(), k: Vec::new(), v: Vec::new() };
    assert(allocs@ =~= before + bias_rooms(*w, 0));
    let mut i: usize = 0;
    while i < n_layers
        invariant
            w.covers(n_layers as nat),
            forall|l: int|
                0 <= l < n_layers ==> {
                    &&& bias_fits(#[trigger] w.attn_q_bias@[l])
                    &&& bias_fits(w.attn_k_bias@[l])
                    &&& bias_fits(w.attn_v_bias@[l])
                },
            i <= n_layers,
            allocs@ == before + bias_rooms(*w, i as nat),
            bufs.q@.len() == i,
            bufs.k@.len() == i,
            bufs.v@.len() == i,
            forall|l: int| 0 <= l < i ==> #[trigger] bufs.holds(*w, before.len() as int, l),
        decreases n_layers - i,
    {
        let ghost upto = bias_rooms(*w, i as nat);
        let ghost prior = bufs;
        assert(bias_fits(w.attn_q_bias@[i as int]));
        let q = request_bias(allocs, w.attn_q_bias[i]);
        let k = request_bias(allocs, w.attn_k_bias[i]);
        let v = request_bias(allocs, w.attn_v_bias[i]);
        assert(allocs@ =~= before + (upto + bias_room(w.attn_q_bias@[i as int]) + bias_room(
            w.attn_k_bias@[i as int],
        ) + bias_room(w.attn_v_bias@[i as int])));
        bufs.q.push(q);
        bufs.k.push(k);
        bufs.v.push(v);
        assert forall|l: int| 0 <= l < i + 1 implies #[trigger] bufs.holds(
            *w,
            before.len() as int,
            l,
        ) by {
            if l < i {
                assert(prior.holds(*w, before.len() as int, l));
            }
        }
        i += 1;
    }
    bufs
}

/// Allocates the buffers for one token.
fn request_token_bufs(allocs: &mut Vec<Alloc>, c: &ModelConfig)
    requires
        c.widths_fit(),
        c.n_embd * 4 <= u64::MAX,
        c.n_ff * 4 <= u64::MAX,
        c.n_vocab * 4 <= u64::MAX,
        c.q_width() * 4 <= u64::MAX,
        c.kv_width() * 4 <= u64::MAX,
    ensures
        final(allocs)@ == old(allocs)@ + token_rooms(*c),
{
    let ghost before = allocs@;
    let embd: u64 = c.n_embd as u64;
    let q: u64 = c.q_dim() as u64;
    let kv: u64 = c.kv_dim() as u64;
    let ff: u64 = c.n_ff as u64;
    request(allocs, embd, false, None);
    request(allocs, embd, false, None);
    request(allocs, q, false, None);
    request(allocs, kv, false, None);
    request(allocs, kv, false, None);
    request(allocs, embd, false, None);
    request(allocs, embd, false, None);
    request(allocs, ff, false, None);
    request(allocs, ff, false, None);
    request(allocs, embd, false, None);
    request(allocs, c.n_vocab as u64, false, None);
    request(allocs, c.n_vocab as u64, true, None);
    assert(allocs@ =~= before + token_rooms(*c));
}

/// Allocates the buffers for a batch of `b` tokens.
fn request_batch_bufs(allocs: &mut Vec<Alloc>, c: &ModelConfig, b: usize)
    requires
        c.widths_fit(),
        b * c.n_embd * 4 <= u64::MAX,
        b * c.n_ff * 4 <= u64::MAX,
        b * c.q_width() * 4 <= u64::MAX,
        b * c.kv_width() * 4 <= u64::MAX,
    ensures
        final(allocs)@ == old(allocs)@ + batch_rooms(*c, b),
{
    let ghost before = allocs@;
    let embd: u64 = b as u64 * c.n_embd as u64;
    let q: u64 = b as u64 * c.q_dim() as u64;
    let kv: u64 = b as u64 * c.kv_dim() as u64;
    let ff: u64 = b as u64 * c.n_ff as u64;
    request(allocs, embd, false, None);
    request(allocs, embd, false, None);
    request(allocs, q, false, None);
    request(allocs, kv, false, None);
    request(allocs, kv, false, None);
    request(allocs, embd, false, None);
    request(allocs, embd, false, None);
    request(allocs, ff, false, None);
    request(allocs, ff, false, None);
    request(allocs, embd, false, None);
    assert(allocs@ =~= before + batch_rooms(*c, b));
}

/// Plans the buffers of a model with a context of `ctx_len` tokens.
pub fn plan_acts(w: &Weights, c: &ModelConfig, ctx_len: usize) -> (plan: ActPlan)
    requires
        w.covers(c.n_layers as nat),
        rooms_fit(*w, *c, ctx_len),
    ensures
        plan.allocs@ == all_rooms(*w, *c, ctx_len),
        plan.acts.is_allocated(*w, *c, ctx_len),
{
    let n_layers: usize = c.n_layers;
    let mut allocs: Vec<Alloc> = Vec::new();
    let (k_cache, v_cache) = request_caches(&mut allocs, c, ctx_len);
    let scores = request(&mut allocs, (c.n_heads * ctx_len) as u64, false, None);
    proof {
        lemma_cache_rooms_len(*c, ctx_len, n_layers as nat);
        lemma_norm_rooms_len(*w, *c, n_layers as nat);
    }
    let (attn_norms, ffn_norms) = request_norms(&mut allocs, w, c);
    let out_norm = request(&mut allocs, c.n_embd as u64, false, Some(w.output_norm));
    let ghost fixed = allocs@.len() as int;
    let biases = request_biases(&mut allocs, w, n_layers);
    assert(allocs@ =~= model_rooms(*w, *c, ctx_len));
    let at: usize = allocs.len();
    let max_batch: usize = if ctx_len <= BATCH_LIMIT { ctx_len } else { BATCH_LIMIT };
    request_token_bufs(&mut allocs, c);
    request_batch_bufs(&mut allocs, c, max_batch);
    assert(at + 22 == allocs.len());
    let acts = GpuActs {
        x: ActBuf { id: at },
        xn: ActBuf { id: at + 1 },
        q: ActBuf { id: at + 2 },
        k: ActBuf { id: at + 3 },
        v: ActBuf { id: at + 4 },
        attn_out: ActBuf { id: at + 5 },
        proj: ActBuf { id: at + 6 },
        gate: ActBuf { id: at + 7 },
        up: ActBuf { id: at + 8 },
        ff: ActBuf { id: at + 9 },
        logits: ActBuf { id: at + 10 },
        logits_rb: ActBuf { id: at + 11 },
        k_cache,
        v_cache,
        scores,
        ctx_len,
        attn_norms,
        ffn_norms,
        out_norm,
        q_bias: biases.q,
        k_bias: biases.k,
        v_bias: biases.v,
        max_batch,
        x_batch: ActBuf { id: at + 12 },
        xn_batch: ActBuf { id: at + 13 },
        q_batch: ActBuf { id: at + 14 },
        k_batch: ActBuf { id: at + 15 },
        v_batch: ActBuf { id: at + 16 },
        ao_batch: ActBuf { id: at + 17 },
        proj_batch: ActBuf { id: at + 18 },
        gate_batch: ActBuf { id: at + 19 },
        up_batch: ActBuf { id: at + 20 },
        ff_batch: ActBuf { id: at + 21 },
    };
    proof {
        assert forall|l: int| 0 <= l < n_layers implies #[trigger] acts.layer_allocated(
            *w,
            *c,
            l,
        ) by {
            assert(biases.holds(*w, fixed, l));
        }
        assert(acts.layers_allocated(*w, *c));
        assert(acts.rest_allocated(model_rooms(*w, *c, ctx_len).len() as int));
    }
    ActPlan { allocs, acts }
}

} // verus!
