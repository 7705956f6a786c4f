//! A prompt can be evaluated in parts.
//!
//! The commands are carried out here on buffers with contents of any type. What a command writes
//! stays open: it is some function of the command and of all that the command reads. A command
//! that need not fill a buffer reads what the buffer held before; norms, matrix-vector products,
//! embedding rows and the copy to the host fill theirs.
use vstd::prelude::*;

use super::config::ModelConfig;
use super::gpu::{ActBuf, CopySource, GpuActs, GpuCmd, GpuWeights};
use super::llama::LlamaModel;
use super::prefill::PrefillPlan;

verus! {

/// Some device, with contents of buffers of type `T`.
#[verifier::reject_recursive_types(T)]
pub struct Device<T> {
    /// The embedding row of a token; rows may be empty, and then there is nothing of a token in
    /// them.
    pub row: spec_fn(Option<usize>) -> T,
    /// What a command leaves in a buffer that it writes: from the command, the contents of the
    /// buffers that it reads, and the buffer.
    pub effect: spec_fn(GpuCmd, Seq<T>, ActBuf) -> T,
}

/// The buffers that a command reads.
pub open spec fn reads(cmd: GpuCmd) -> Seq<ActBuf> {
    match cmd {
        GpuCmd::CopyToAct { src: CopySource::Act(src), .. } => seq![src],
        GpuCmd::RmsNorm { src, weight, .. } => seq![src] + seq![weight],
        GpuCmd::Gemv { src, .. } => seq![src],
        GpuCmd::Add { dst, src, .. } => seq![dst] + seq![src],
        GpuCmd::Rope { q, k, .. } => seq![q] + seq![k],
        GpuCmd::KvWrite { k, v, k_cache, v_cache, .. } => seq![k] + seq![v] + seq![k_cache]
            + seq![v_cache],
        GpuCmd::Attention { q, k_cache, v_cache, dst, scores, .. } => seq![q] + seq![k_cache]
            + seq![v_cache] + seq![dst] + seq![scores],
        GpuCmd::SwiGlu { gate, up, .. } => seq![gate] + seq![up],
        GpuCmd::BatchRmsNorm { src, weight, dst, .. } => seq![src] + seq![weight] + seq![dst],
        GpuCmd::Gemm { src, dst, .. } => seq![src] + seq![dst],
        GpuCmd::BatchBiasAdd { dst, bias, .. } => seq![dst] + seq![bias],
        GpuCmd::BatchRope { q, k, .. } => seq![q] + seq![k],
        GpuCmd::BatchKvWrite { k, v, k_cache, v_cache, .. } => seq![k] + seq![v] + seq![k_cache]
            + seq![v_cache],
        GpuCmd::BatchAttnItem { q, k_cache, v_cache, dst, scores, .. } => seq![q] + seq![k_cache]
            + seq![v_cache] + seq![dst] + seq![scores],
        GpuCmd::BatchAdd { dst, src, .. } => seq![dst] + seq![src],
        GpuCmd::BatchSwiGlu { gate, up, .. } => seq![gate] + seq![up],
        GpuCmd::SubmitWithReadback { logits, .. } => seq![logits],
        _ => Seq::empty(),
    }
}

/// The command writes this buffer.
pub open spec fn writes(cmd: GpuCmd, b: ActBuf) -> bool {
    match cmd {
        GpuCmd::UploadEmbedding { dst, .. } => b == dst,
        GpuCmd::CopyToAct { dst, .. } => b == dst,
        GpuCmd::RmsNorm { dst, .. } => b == dst,
        GpuCmd::Gemv { dst, .. } => b == dst,
        GpuCmd::Add { dst, .. } => b == dst,
        GpuCmd::Rope { q, k, .. } => b == q || b == k,
        GpuCmd::KvWrite { k_cache, v_cache, .. } => b == k_cache || b == v_cache,
        GpuCmd::Attention { dst, scores, .. } => b == dst || b == scores,
        GpuCmd::SwiGlu { gate, .. } => b == gate,
        GpuCmd::BatchRmsNorm { dst, .. } => b == dst,
        GpuCmd::Gemm { dst, .. } => b == dst,
        GpuCmd::BatchBiasAdd { dst, .. } => b == dst,
        GpuCmd::BatchRope { q, k, .. } => b == q || b == k,
        GpuCmd::BatchKvWrite { k_cache, v_cache, .. } => b == k_cache || b == v_cache,
        GpuCmd::BatchAttnItem { dst, scores, .. } => b == dst || b == scores,
        GpuCmd::BatchAdd { dst, .. } => b == dst,
        GpuCmd::BatchSwiGlu { gate, .. } => b == gate,
        GpuCmd::SubmitWithReadback { readback, .. } => b == readback,
        _ => false,
    }
}

/// The token whose staged row, of `n_embd` floats, begins at a byte offset.
pub open spec fn staged_at(staged: Seq<usize>, n_embd: usize, offset: u64) -> Option<usize> {
    if n_embd == 0 {
        None
    } else {
        Some(staged[offset as int / (n_embd * 4)])
    }
}

/// What a buffer holds after a command.
pub open spec fn content<T>(
    d: Device<T>,
    staged: Seq<usize>,
    n_embd: usize,
    s: spec_fn(ActBuf) -> T,
    cmd: GpuCmd,
    b: ActBuf,
) -> T {
    if !writes(cmd, b) {
        s(b)
    } else {
        match cmd {
            GpuCmd::UploadEmbedding { token, .. } => (d.row)(Some(token)),
            GpuCmd::CopyToAct { src: CopySource::Staging, offset, .. } => (d.row)(
                staged_at(staged, n_embd, offset),
            ),
            _ => (d.effect)(cmd, reads(cmd).map_values(|r: ActBuf| s(r)), b),
        }
    }
}

impl<T> Device<T> {
    /// One command is carried out, with these rows staged.
    pub open spec fn step(
        self,
        staged: Seq<usize>,
        n_embd: usize,
        s: spec_fn(ActBuf) -> T,
        cmd: GpuCmd,
    ) -> spec_fn(ActBuf) -> T {
        |b: ActBuf| content(self, staged, n_embd, s, cmd, b)
    }

    /// All commands are carried out, one after the other.
    pub open spec fn run(
        self,
        staged: Seq<usize>,
        n_embd: usize,
        s: spec_fn(ActBuf) -> T,
        cmds: Seq<GpuCmd>,
    ) -> spec_fn(ActBuf) -> T
        decreases cmds.len(),
    {
        if cmds.len() == 0 {
            s
        } else {
            self.step(
                staged,
                n_embd,
                self.run(staged, n_embd, s, cmds.drop_last()),
                cmds.last(),
            )
        }
    }

    /// A plan for a prompt is carried out.
    pub open spec fn carried_out(
        self,
        n_embd: usize,
        s: spec_fn(ActBuf) -> T,
        plan: PrefillPlan,
    ) -> spec_fn(ActBuf) -> T {
        match plan {
            PrefillPlan::Zeros { .. } => s,
            PrefillPlan::Gemv { staged, cmds } => self.run(staged@, n_embd, s, cmds@),
            PrefillPlan::Gemm { staged, cmds } => self.run(staged@, n_embd, s, cmds@),
        }
    }
}

/// The two states agree but for the loose buffers.
spec fn agree<T>(
    s: spec_fn(ActBuf) -> T,
    t: spec_fn(ActBuf) -> T,
    loose: spec_fn(ActBuf) -> bool,
) -> bool {
    forall|b: ActBuf| !loose(b) ==> #[trigger] s(b) == t(b)
}

/// The command takes nothing from the staged rows, and reads none of the loose buffers.
spec fn firm(cmd: GpuCmd, loose: spec_fn(ActBuf) -> bool) -> bool {
    &&& !(cmd is CopyToAct)
    &&& forall|i: int| 0 <= i < reads(cmd).len() ==> !loose(#[trigger] reads(cmd)[i])
}

spec fn all_firm(cmds: Seq<GpuCmd>, loose: spec_fn(ActBuf) -> bool) -> bool {
    forall|i: int| 0 <= i < cmds.len() ==> firm(#[trigger] cmds[i], loose)
}

/// Only what the output of a prompt leaves behind is loose.
spec fn of_output(loose: spec_fn(ActBuf) -> bool, ga: GpuActs) -> bool {
    forall|b: ActBuf| #[trigger] loose(b) ==> b == ga.xn || b == ga.logits || b == ga.logits_rb
}

/// The loose buffers but for one.
spec fn tightened(loose: spec_fn(ActBuf) -> bool, fast: ActBuf) -> spec_fn(ActBuf) -> bool {
    |b: ActBuf| loose(b) && b != fast
}

/// The buffer is none of those that the output of a prompt writes.
spec fn inner(ga: GpuActs, b: ActBuf) -> bool {
    b != ga.xn && b != ga.logits && b != ga.logits_rb
}

/// The buffers of layer `l` are none of those that the output of a prompt writes.
spec fn layer_inner(ga: GpuActs, l: int) -> bool {
    &&& inner(ga, ga.attn_norms@[l])
    &&& inner(ga, ga.ffn_norms@[l])
    &&& inner(ga, ga.k_cache@[l])
    &&& inner(ga, ga.v_cache@[l])
    &&& ga.q_bias@[l] matches Some(b) ==> inner(ga, b)
    &&& ga.k_bias@[l] matches Some(b) ==> inner(ga, b)
    &&& ga.v_bias@[l] matches Some(b) ==> inner(ga, b)
}

/// The buffers of a token are none of those that the output of a prompt writes.
spec fn token_inner(ga: GpuActs) -> bool {
    &&& inner(ga, ga.x)
    &&& inner(ga, ga.q)
    &&& inner(ga, ga.k)
    &&& inner(ga, ga.v)
    &&& inner(ga, ga.attn_out)
    &&& inner(ga, ga.proj)
    &&& inner(ga, ga.gate)
    &&& inner(ga, ga.up)
    &&& inner(ga, ga.ff)
    &&& inner(ga, ga.scores)
    &&& inner(ga, ga.out_norm)
    &&& ga.xn != ga.logits
    &&& ga.xn != ga.logits_rb
    &&& ga.logits != ga.logits_rb
}

spec fn all_inner(ga: GpuActs, n_layers: int) -> bool {
    &&& token_inner(ga)
    &&& forall|l: int| 0 <= l < n_layers ==> #[trigger] layer_inner(ga, l)
}

proof fn lemma_allocated(model: LlamaModel, ctx_len: usize)
    requires
        model.gpu_acts matches Some(ga) && ga.is_allocated(model.weights, model.config, ctx_len),
        super::acts::all_rooms(model.weights, model.config, ctx_len).len() <= usize::MAX,
    ensures
        all_inner(model.gpu_acts->0, model.config.n_layers as int),
{
    let ga = model.gpu_acts->0;
    let (w, c) = (model.weights, model.config);
    let n = c.n_layers as nat;
    let at = super::acts::model_rooms(w, c, ctx_len).len() as int;
    super::laws_acts::lemma_cache_rooms(c, ctx_len, n);
    super::acts::lemma_norm_rooms_len(w, c, n);
    assert(at == 4 * n + 2 + super::acts::bias_rooms(w, n).len());
    assert(super::acts::all_rooms(w, c, ctx_len).len() == at + 22);
    assert forall|l: int| 0 <= l < n implies #[trigger] layer_inner(ga, l) by {
        assert(ga.layer_allocated(w, c, l));
        super::laws_acts::lemma_bias_rooms(w, n, l);
    }
}

proof fn lemma_sum<T>(
    d: Device<T>,
    staged: Seq<usize>,
    n: usize,
    s: spec_fn(ActBuf) -> T,
    x: Seq<GpuCmd>,
    y: Seq<GpuCmd>,
)
    ensures
        d.run(staged, n, s, x + y) == d.run(staged, n, d.run(staged, n, s, x), y),
    decreases y.len(),
{
    if y.len() == 0 {
        assert(x + y =~= x);
    } else {
        assert((x + y).drop_last() =~= x + y.drop_last());
        lemma_sum(d, staged, n, s, x, y.drop_last());
    }
}

proof fn lemma_one<T>(
    d: Device<T>,
    staged: Seq<usize>,
    n: usize,
    s: spec_fn(ActBuf) -> T,
    cmd: GpuCmd,
)
    ensures
        d.run(staged, n, s, seq![cmd]) == d.step(staged, n, s, cmd),
{
    assert(seq![cmd].drop_last() =~= Seq::empty());
    assert(d.run(staged, n, s, seq![cmd].drop_last()) == s);
}

/// A command that writes nothing leaves everything as it is.
proof fn lemma_nothing<T>(
    d: Device<T>,
    staged: Seq<usize>,
    n: usize,
    s: spec_fn(ActBuf) -> T,
    cmd: GpuCmd,
)
    requires
        forall|b: ActBuf| !#[trigger] writes(cmd, b),
    ensures
        d.run(staged, n, s, seq![cmd]) == s,
{
    lemma_one(d, staged, n, s, cmd);
    assert(d.step(staged, n, s, cmd) =~= s);
}

/// What a firm command writes agrees.
proof fn lemma_firm_write<T>(
    d: Device<T>,
    st1: Seq<usize>,
    st2: Seq<usize>,
    n: usize,
    s: spec_fn(ActBuf) -> T,
    t: spec_fn(ActBuf) -> T,
    cmd: GpuCmd,
    loose: spec_fn(ActBuf) -> bool,
)
    requires
        agree(s, t, loose),
        firm(cmd, loose),
    ensures
        agree(d.step(st1, n, s, cmd), d.step(st2, n, t, cmd), loose),
        forall|b: ActBuf|
            writes(cmd, b) ==> #[trigger] d.step(st1, n, s, cmd)(b) == d.step(st2, n, t, cmd)(b),
{
    let r1 = reads(cmd).map_values(|r: ActBuf| s(r));
    let r2 = reads(cmd).map_values(|r: ActBuf| t(r));
    assert(r1 =~= r2) by {
        assert forall|i: int| 0 <= i < reads(cmd).len() implies r1[i] == r2[i] by {
            assert(!loose(reads(cmd)[i]));
        }
    }
}

proof fn lemma_firm<T>(
    d: Device<T>,
    st1: Seq<usize>,
    st2: Seq<usize>,
    n: usize,
    s: spec_fn(ActBuf) -> T,
    t: spec_fn(ActBuf) -> T,
    cmds: Seq<GpuCmd>,
    loose: spec_fn(ActBuf) -> bool,
)
    requires
        agree(s, t, loose),
        all_firm(cmds, loose),
    ensures
        agree(d.run(st1, n, s, cmds), d.run(st2, n, t, cmds), loose),
    decreases cmds.len(),
{
    if cmds.len() > 0 {
        let less = cmds.drop_last();
        assert forall|i: int| 0 <= i < less.len() implies firm(#[trigger] less[i], loose) by {
            assert(firm(cmds[i], loose));
        }
        lemma_firm(d, st1, st2, n, s, t, less, loose);
        assert(firm(cmds[cmds.len() - 1], loose));
        lemma_firm_write(
            d,
            st1,
            st2,
            n,
            d.run(st1, n, s, less),
            d.run(st2, n, t, less),
            cmds.last(),
            loose,
        );
    }
}

proof fn lemma_firm_add(x: Seq<GpuCmd>, y: Seq<GpuCmd>, loose: spec_fn(ActBuf) -> bool)
    requires
        all_firm(x, loose),
        all_firm(y, loose),
    ensures
        all_firm(x + y, loose),
{
    assert forall|i: int| 0 <= i < (x + y).len() implies firm(#[trigger] (x + y)[i], loose) by {
        if i < x.len() {
            assert((x + y)[i] == x[i]);
        } else {
            assert((x + y)[i] == y[i - x.len()]);
        }
    }
}

/// What follows the first norm of a layer reads none of the loose buffers, once `xn` is fast.
proof fn lemma_layer_firm(
    c: ModelConfig,
    gw: GpuWeights,
    ga: GpuActs,
    l: int,
    pos: int,
    loose: spec_fn(ActBuf) -> bool,
)
    requires
        token_inner(ga),
        layer_inner(ga, l),
        of_output(loose, ga),
    ensures
        ({
            let fast = tightened(loose, ga.xn);
            &&& all_firm(super::record::qkv_stretch(gw, ga, l), fast)
            &&& all_firm(super::record::bias_stretch(c, ga, l), fast)
            &&& all_firm(super::record::attend_stretch(c, ga, l, pos), fast)
            &&& all_firm(super::record::project_stretch(c, gw, ga, l), fast)
            &&& all_firm(super::record::feed_stretch(c, gw, ga, l), fast)
            &&& all_firm(super::record::fenced(super::record::residual_cmd(c, ga)), fast)
        }),
{
    let fast = tightened(loose, ga.xn);
    assert forall|b: ActBuf| inner(ga, b) || b == ga.xn implies !#[trigger] fast(b) by {}
}

/// One layer keeps two states in agreement.
proof fn lemma_layer<T>(
    d: Device<T>,
    st1: Seq<usize>,
    st2: Seq<usize>,
    n: usize,
    s: spec_fn(ActBuf) -> T,
    t: spec_fn(ActBuf) -> T,
    model: LlamaModel,
    l: int,
    pos: int,
    loose: spec_fn(ActBuf) -> bool,
)
    requires
        all_inner(model.gpu_acts->0, model.config.n_layers as int),
        0 <= l < model.config.n_layers,
        of_output(loose, model.gpu_acts->0),
        agree(s, t, loose),
    ensures
        ({
            let cmds = super::record::layer_cmds(
                model.config,
                model.gpu_w->0,
                model.gpu_acts->0,
                l,
                pos,
            );
            agree(d.run(st1, n, s, cmds), d.run(st2, n, t, cmds), loose)
        }),
{
    let (c, gw, ga) = (model.config, model.gpu_w->0, model.gpu_acts->0);
    let fast = tightened(loose, ga.xn);
    let norm = GpuCmd::RmsNorm {
        src: ga.x,
        weight: ga.attn_norms@[l],
        dst: ga.xn,
        n: c.n_embd as u32,
    };
    let bar = seq![GpuCmd::Barrier];
    let s2 = super::record::qkv_stretch(gw, ga, l);
    let s3 = super::record::bias_stretch(c, ga, l);
    let s4 = super::record::attend_stretch(c, ga, l, pos);
    let s5 = super::record::project_stretch(c, gw, ga, l);
    let s6 = super::record::feed_stretch(c, gw, ga, l);
    let s7 = super::record::fenced(super::record::residual_cmd(c, ga));
    let rest = bar + s2 + s3 + s4 + s5 + s6 + s7;
    let cmds = super::record::layer_cmds(c, gw, ga, l, pos);
    assert(layer_inner(ga, l));
    assert(cmds =~= seq![norm] + rest);
    lemma_layer_firm(c, gw, ga, l, pos, loose);
    assert(all_firm(bar, fast));
    lemma_firm_add(bar, s2, fast);
    lemma_firm_add(bar + s2, s3, fast);
    lemma_firm_add(bar + s2 + s3, s4, fast);
    lemma_firm_add(bar + s2 + s3 + s4, s5, fast);
    lemma_firm_add(bar + s2 + s3 + s4 + s5, s6, fast);
    lemma_firm_add(bar + s2 + s3 + s4 + s5 + s6, s7, fast);
    let u = d.step(st1, n, s, norm);
    let v = d.step(st2, n, t, norm);
    assert(!loose(ga.x) && !loose(ga.attn_norms@[l]));
    lemma_firm_write(d, st1, st2, n, s, t, norm, loose);
    assert(agree(u, v, fast)) by {
        assert forall|b: ActBuf| !fast(b) implies #[trigger] u(b) == v(b) by {
            if b == ga.xn {
                assert(writes(norm, b));
            }
        }
    }
    lemma_firm(d, st1, st2, n, u, v, rest, fast);
    lemma_sum(d, st1, n, s, seq![norm], rest);
    lemma_sum(d, st2, n, t, seq![norm], rest);
    lemma_one(d, st1, n, s, norm);
    lemma_one(d, st2, n, t, norm);
    lemma_weaken(d.run(st1, n, s, cmds), d.run(st2, n, t, cmds), loose, ga.xn);
}

proof fn lemma_weaken<T>(
    s: spec_fn(ActBuf) -> T,
    t: spec_fn(ActBuf) -> T,
    loose: spec_fn(ActBuf) -> bool,
    b: ActBuf,
)
    requires
        agree(s, t, tightened(loose, b)),
    ensures
        agree(s, t, loose),
{
    let fast = tightened(loose, b);
    assert forall|x: ActBuf| !loose(x) implies #[trigger] s(x) == t(x) by {
        assert(!fast(x));
    }
}

proof fn lemma_layers<T>(
    d: Device<T>,
    st1: Seq<usize>,
    st2: Seq<usize>,
    n: usize,
    s: spec_fn(ActBuf) -> T,
    t: spec_fn(ActBuf) -> T,
    model: LlamaModel,
    k: nat,
    pos: int,
    loose: spec_fn(ActBuf) -> bool,
)
    requires
        all_inner(model.gpu_acts->0, model.config.n_layers as int),
        k <= model.config.n_layers,
        of_output(loose, model.gpu_acts->0),
        agree(s, t, loose),
    ensures
        ({
            let cmds = super::llama::layers_cmds(
                model.config,
                model.gpu_w->0,
                model.gpu_acts->0,
                pos,
                k,
            );
            agree(d.run(st1, n, s, cmds), d.run(st2, n, t, cmds), loose)
        }),
    decreases k,
{
    if k > 0 {
        let (c, gw, ga) = (model.config, model.gpu_w->0, model.gpu_acts->0);
        let less = super::llama::layers_cmds(c, gw, ga, pos, (k - 1) as nat);
        let layer = super::record::layer_cmds(c, gw, ga, k - 1, pos);
        lemma_layers(d, st1, st2, n, s, t, model, (k - 1) as nat, pos, loose);
        lemma_layer(
            d,
            st1,
            st2,
            n,
            d.run(st1, n, s, less),
            d.run(st2, n, t, less),
            model,
            k - 1,
            pos,
            loose,
        );
        lemma_sum(d, st1, n, s, less, layer);
        lemma_sum(d, st2, n, t, less, layer);
    }
}

/// The staged row that a copy takes.
proof fn lemma_staged(staged: Seq<usize>, n_embd: usize, i: int, n: int)
    requires
        0 <= i < n,
        n * n_embd * 4 <= usize::MAX,
        n_embd > 0,
    ensures
        staged_at(staged, n_embd, (i * n_embd * 4) as u64) == Some(staged[i]),
{
    let w = n_embd as int;
    assert(0 <= i * w * 4 <= n * w * 4 && (i * w * 4) / (w * 4) == i) by (nonlinear_arith)
        requires
            0 <= i < n,
            w > 0,
    {
        assert(i * w * 4 == i * (w * 4));
    }
}

/// The same tokens at the same positions, staged at two places, keep two states in agreement.
proof fn lemma_tokens<T>(
    d: Device<T>,
    st1: Seq<usize>,
    st2: Seq<usize>,
    s: spec_fn(ActBuf) -> T,
    t: spec_fn(ActBuf) -> T,
    model: LlamaModel,
    start1: int,
    from1: int,
    start2: int,
    from2: int,
    m: int,
    loose: spec_fn(ActBuf) -> bool,
)
    requires
        all_inner(model.gpu_acts->0, model.config.n_layers as int),
        of_output(loose, model.gpu_acts->0),
        agree(s, t, loose),
        0 <= m,
        0 <= from1,
        0 <= from2,
        from1 + m <= st1.len(),
        from2 + m <= st2.len(),
        start1 + from1 == start2 + from2,
        st1.len() * model.config.n_embd * 4 <= usize::MAX,
        st2.len() * model.config.n_embd * 4 <= usize::MAX,
        forall|i: int| 0 <= i < m ==> #[trigger] st1[from1 + i] == st2[from2 + i],
    ensures
        agree(
            d.run(
                st1,
                model.config.n_embd,
                s,
                model.tokens_cmds(start1, from1, from1 + m),
            ),
            d.run(
                st2,
                model.config.n_embd,
                t,
                model.tokens_cmds(start2, from2, from2 + m),
            ),
            loose,
        ),
    decreases m,
{
    if m > 0 {
        let n = model.config.n_embd;
        let ga = model.gpu_acts->0;
        lemma_tokens(
            d,
            st1,
            st2,
            s,
            t,
            model,
            start1,
            from1,
            start2,
            from2,
            m - 1,
            loose,
        );
        let (i1, i2) = (from1 + m - 1, from2 + m - 1);
        let less1 = model.tokens_cmds(start1, from1, i1);
        let less2 = model.tokens_cmds(start2, from2, i2);
        let u = d.run(st1, n, s, less1);
        let v = d.run(st2, n, t, less2);
        let copy1 = GpuCmd::CopyToAct {
            dst: ga.x,
            src: CopySource::Staging,
            offset: (i1 * n * 4) as u64,
        };
        let copy2 = GpuCmd::CopyToAct {
            dst: ga.x,
            src: CopySource::Staging,
            offset: (i2 * n * 4) as u64,
        };
        let pos = start1 + i1;
        let layers = super::llama::layers_cmds(
            model.config,
            model.gpu_w->0,
            ga,
            pos,
            model.config.n_layers as nat,
        );
        assert(model.token_cmds(start1, i1) == seq![copy1] + layers);
        assert(model.token_cmds(start2, i2) == seq![copy2] + layers);
        if n > 0 {
            lemma_staged(st1, n, i1, st1.len() as int);
            lemma_staged(st2, n, i2, st2.len() as int);
            assert(st1[from1 + (m - 1)] == st2[from2 + (m - 1)]);
        }
        let u1 = d.step(st1, n, u, copy1);
        let v1 = d.step(st2, n, v, copy2);
        assert(agree(u1, v1, loose));
        lemma_layers(d, st1, st2, n, u1, v1, model, model.config.n_layers as nat, pos, loose);
        lemma_sum(d, st1, n, s, less1, seq![copy1] + layers);
        lemma_sum(d, st2, n, t, less2, seq![copy2] + layers);
        lemma_sum(d, st1, n, u, seq![copy1], layers);
        lemma_sum(d, st2, n, v, seq![copy2], layers);
        lemma_one(d, st1, n, u, copy1);
        lemma_one(d, st2, n, v, copy2);
    }
}

/// The chunks of a prompt do what its tokens and one close do.
proof fn lemma_chunks<T>(
    d: Device<T>,
    staged: Seq<usize>,
    s: spec_fn(ActBuf) -> T,
    model: LlamaModel,
    start: int,
    from: int,
    n: int,
    size: int,
)
    requires
        0 <= from < n,
        size >= 1,
    ensures
        d.run(staged, model.config.n_embd, s, model.chunks_cmds(start, from, n, size)) == d.run(
            staged,
            model.config.n_embd,
            d.run(staged, model.config.n_embd, s, model.tokens_cmds(start, from, n)),
            model.close_cmds(true),
        ),
    decreases n - from,
{
    let w = model.config.n_embd;
    let to = super::prefill::chunk_end(from, size, n);
    let open = GpuCmd::BeginForSets {
        sets: super::prefill::gemv_sets(model.config.n_layers as int, to - from) as u32,
    };
    let tokens = model.tokens_cmds(start, from, to);
    let close = model.close_cmds(to == n);
    let rest = model.chunks_cmds(start, to, n, size);
    let u = d.run(staged, w, s, tokens);
    lemma_sum(d, staged, w, s, seq![open] + tokens + close, rest);
    lemma_sum(d, staged, w, s, seq![open] + tokens, close);
    lemma_sum(d, staged, w, s, seq![open], tokens);
    lemma_nothing(d, staged, w, s, open);
    if to < n {
        lemma_nothing(d, staged, w, u, GpuCmd::SubmitNoReadback);
        lemma_chunks(d, staged, u, model, start, to, n, size);
        super::laws::lemma_tokens_join(model, start, from, to, n);
        lemma_sum(d, staged, w, s, tokens, model.tokens_cmds(start, to, n));
    }
}

/// A prompt does what its tokens and one close do.
proof fn lemma_prompt<T>(
    d: Device<T>,
    staged: Seq<usize>,
    s: spec_fn(ActBuf) -> T,
    model: LlamaModel,
    start: int,
    n: int,
    size: int,
)
    requires
        0 < n,
        size >= 1,
    ensures
        d.run(staged, model.config.n_embd, s, model.prefill_cmds(start, n, size)) == d.run(
            staged,
            model.config.n_embd,
            d.run(staged, model.config.n_embd, s, model.tokens_cmds(start, 0, n)),
            model.close_cmds(true),
        ),
{
    let w = model.config.n_embd;
    let ga = model.gpu_acts->0;
    let chunks = model.chunks_cmds(start, 0, n, size);
    let free = GpuCmd::FreeStaging;
    let read = GpuCmd::ReadLogits { logits: ga.logits, readback: ga.logits_rb };
    let u = d.run(staged, w, s, chunks);
    lemma_chunks(d, staged, s, model, start, 0, n, size);
    assert(model.prefill_cmds(start, n, size) =~= chunks + seq![free] + seq![read]);
    lemma_sum(d, staged, w, s, chunks + seq![free], seq![read]);
    lemma_sum(d, staged, w, s, chunks, seq![free]);
    lemma_nothing(d, staged, w, u, free);
    lemma_nothing(d, staged, w, u, read);
}

/// What the output of a prompt leaves behind.
spec fn leftover(model: LlamaModel) -> spec_fn(ActBuf) -> bool {
    let ga = model.gpu_acts->0;
    |b: ActBuf|
        b == ga.xn || b == ga.logits_rb || b == ga.logits && (model.gpu_w->0).output is Some
}

/// The commands of a close, one by one.
spec fn close_norm(model: LlamaModel) -> GpuCmd {
    let ga = model.gpu_acts->0;
    GpuCmd::RmsNorm {
        src: ga.x,
        weight: ga.out_norm,
        dst: ga.xn,
        n: model.config.n_embd as u32,
    }
}

spec fn close_submit(model: LlamaModel) -> GpuCmd {
    let ga = model.gpu_acts->0;
    GpuCmd::SubmitWithReadback { logits: ga.logits, readback: ga.logits_rb }
}

spec fn close_product(model: LlamaModel) -> Seq<GpuCmd> {
    let ga = model.gpu_acts->0;
    super::record::gemv_cmd((model.gpu_w->0).output, ga.xn, ga.logits)
}

proof fn lemma_close<T>(
    d: Device<T>,
    staged: Seq<usize>,
    s: spec_fn(ActBuf) -> T,
    model: LlamaModel,
)
    ensures
        ({
            let n = model.config.n_embd;
            let u = d.step(staged, n, s, close_norm(model));
            let v = d.run(staged, n, u, close_product(model));
            d.run(staged, n, s, model.close_cmds(true)) == d.step(
                staged,
                n,
                v,
                close_submit(model),
            )
        }),
{
    let n = model.config.n_embd;
    let bar = GpuCmd::Barrier;
    let norm = close_norm(model);
    let product = close_product(model);
    let submit = close_submit(model);
    let u = d.step(staged, n, s, norm);
    let cmds = model.close_cmds(true);
    assert(cmds =~= seq![norm] + seq![bar] + product + seq![submit]);
    lemma_sum(d, staged, n, s, seq![norm] + seq![bar] + product, seq![submit]);
    lemma_sum(d, staged, n, s, seq![norm] + seq![bar], product);
    lemma_sum(d, staged, n, s, seq![norm], seq![bar]);
    lemma_one(d, staged, n, s, norm);
    lemma_nothing(d, staged, n, u, bar);
    lemma_one(d, staged, n, d.run(staged, n, u, product), submit);
}

/// The output of a prompt changes no buffer but its own.
proof fn lemma_close_leaves<T>(
    d: Device<T>,
    staged: Seq<usize>,
    s: spec_fn(ActBuf) -> T,
    model: LlamaModel,
)
    ensures
        agree(
            d.run(staged, model.config.n_embd, s, model.close_cmds(true)),
            s,
            leftover(model),
        ),
{
    let n = model.config.n_embd;
    let u = d.step(staged, n, s, close_norm(model));
    lemma_close(d, staged, s, model);
    match (model.gpu_w->0).output {
        Some(weight) => {
            let ga = model.gpu_acts->0;
            lemma_one(d, staged, n, u, GpuCmd::Gemv { weight, src: ga.xn, dst: ga.logits });
        },
        None => {},
    }
}

/// The output of a prompt writes all of its own buffers anew.
proof fn lemma_close_settles<T>(
    d: Device<T>,
    st1: Seq<usize>,
    st2: Seq<usize>,
    s: spec_fn(ActBuf) -> T,
    t: spec_fn(ActBuf) -> T,
    model: LlamaModel,
)
    requires
        token_inner(model.gpu_acts->0),
        agree(s, t, leftover(model)),
    ensures
        d.run(st1, model.config.n_embd, s, model.close_cmds(true)) == d.run(
            st2,
            model.config.n_embd,
            t,
            model.close_cmds(true),
        ),
{
    let n = model.config.n_embd;
    let ga = model.gpu_acts->0;
    let loose = leftover(model);
    let norm = close_norm(model);
    let submit = close_submit(model);
    lemma_close(d, st1, s, model);
    lemma_close(d, st2, t, model);
    let u1 = d.step(st1, n, s, norm);
    let u2 = d.step(st2, n, t, norm);
    assert(!loose(ga.x) && !loose(ga.out_norm));
    lemma_firm_write(d, st1, st2, n, s, t, norm, loose);
    let fast = tightened(loose, ga.xn);
    assert(agree(u1, u2, fast)) by {
        assert forall|b: ActBuf| !fast(b) implies #[trigger] u1(b) == u2(b) by {
            if b == ga.xn {
                assert(writes(norm, b));
            }
        }
    }
    let v1 = d.run(st1, n, u1, close_product(model));
    let v2 = d.run(st2, n, u2, close_product(model));
    let last = |b: ActBuf| b == ga.logits_rb;
    assert(agree(v1, v2, last)) by {
        match (model.gpu_w->0).output {
            Some(weight) => {
                let product = GpuCmd::Gemv { weight, src: ga.xn, dst: ga.logits };
                lemma_one(d, st1, n, u1, product);
                lemma_one(d, st2, n, u2, product);
                assert(!fast(ga.xn));
                lemma_firm_write(d, st1, st2, n, u1, u2, product, fast);
                assert forall|b: ActBuf| !last(b) implies #[trigger] v1(b) == v2(b) by {
                    if b == ga.logits {
                        assert(writes(product, b));
                    } else {
                        assert(!fast(b));
                    }
                }
            },
            None => {
                assert forall|b: ActBuf| !last(b) implies #[trigger] v1(b) == v2(b) by {
                    assert(!fast(b));
                }
            },
        }
    }
    assert(!last(ga.logits));
    lemma_firm_write(d, st1, st2, n, v1, v2, submit, last);
    let w1 = d.step(st1, n, v1, submit);
    let w2 = d.step(st2, n, v2, submit);
    assert forall|b: ActBuf| #[trigger] w1(b) == w2(b) by {
        if b == ga.logits_rb {
            assert(writes(submit, b));
        } else {
            assert(!last(b));
        }
    }
    assert(w1 =~= w2);
}

/// The evaluation of a prompt in two parts, the second from the position where the first ended,
/// leaves in every buffer, and so in the caches and in the logits, what the evaluation of the
/// whole prompt leaves there, whatever the chunks are. The second part is not empty: the logits
/// of an empty prompt are zeros.
pub proof fn law_prompt_in_two_parts<T>(
    d: Device<T>,
    s: spec_fn(ActBuf) -> T,
    model: LlamaModel,
    ctx_len: usize,
    front: Seq<usize>,
    back: Seq<usize>,
    start: int,
    first: PrefillPlan,
    first_size: int,
    second: PrefillPlan,
    second_size: int,
    whole: PrefillPlan,
    whole_size: int,
)
    requires
        model.on_gpu(),
        (model.gpu_acts->0).is_allocated(model.weights, model.config, ctx_len),
        super::acts::all_rooms(model.weights, model.config, ctx_len).len() <= usize::MAX,
        back.len() > 0,
        first_size >= 1,
        second_size >= 1,
        whole_size >= 1,
        model.prefill_fits((front.len() + back.len()) as int, start, whole_size),
        model.plans_prefill(first, front, start, first_size),
        model.plans_prefill(second, back, start + front.len(), second_size),
        model.plans_prefill(whole, front + back, start, whole_size),
    ensures
        d.carried_out(model.config.n_embd, d.carried_out(model.config.n_embd, s, first), second)
            == d.carried_out(model.config.n_embd, s, whole),
{
    let n = model.config.n_embd;
    let all = front + back;
    let f = front.len() as int;
    let b = back.len() as int;
    let none = |x: ActBuf| false;
    let loose = leftover(model);
    lemma_allocated(model, ctx_len);
    lemma_widths(f, b, n as int);
    lemma_prompt(d, all, s, model, start, f + b, whole_size);
    super::laws::lemma_tokens_join(model, start, 0, f, f + b);
    lemma_sum(
        d,
        all,
        n,
        s,
        model.tokens_cmds(start, 0, f),
        model.tokens_cmds(start, f, f + b),
    );
    // The first part of the whole prompt, and the first part by itself.
    let u1 = d.run(all, n, s, model.tokens_cmds(start, 0, f));
    let u2 = d.run(front, n, s, model.tokens_cmds(start, 0, f));
    lemma_tokens(d, all, front, s, s, model, start, 0, start, 0, f, none);
    assert(u1 =~= u2) by {
        assert forall|x: ActBuf| #[trigger] u1(x) == u2(x) by {
            assert(!none(x));
        }
    }
    let t = d.carried_out(n, s, first);
    assert(agree(u1, t, loose)) by {
        if f > 0 {
            lemma_prompt(d, front, s, model, start, f, first_size);
            lemma_close_leaves(d, front, u2, model);
        }
    }
    // The second part of both.
    lemma_prompt(d, back, t, model, start + f, b, second_size);
    lemma_tokens(d, all, back, u1, t, model, start, f, start + f, 0, b, loose);
    let v1 = d.run(all, n, u1, model.tokens_cmds(start, f, f + b));
    let v2 = d.run(back, n, t, model.tokens_cmds(start + f, 0, b));
    lemma_close_settles(d, all, back, v1, v2, model);
}

proof fn lemma_widths(f: int, b: int, n: int)
    by (nonlinear_arith)
    requires
        0 <= f,
        0 <= b,
        0 <= n,
    ensures
        f * n * 4 <= (f + b) * n * 4,
        b * n * 4 <= (f + b) * n * 4,
{
}

} // verus!
