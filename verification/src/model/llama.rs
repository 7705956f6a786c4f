//! A loaded model, and the work that evaluating a token takes.
use vstd::prelude::*;

use super::config::ModelConfig;
use super::gpu::{GpuActs, GpuCmd, GpuWeights};
use super::record::{
    record_attend, record_biases, record_feed, record_norm, record_output, record_project,
    record_qkv,
};
use super::weights::Weights;

verus! {

/// A loaded model.
pub struct LlamaModel {
    pub config: ModelConfig,
    pub weights: Weights,
    pub gpu_w: Option<GpuWeights>,
    pub gpu_acts: Option<GpuActs>,
}

/// The first `k` layers for the token at position `pos`, one after the other.
pub open spec fn layers_cmds(
    c: ModelConfig,
    gw: GpuWeights,
    ga: GpuActs,
    pos: int,
    k: nat,
) -> Seq<GpuCmd>
    decreases k,
{
    if k == 0 {
        Seq::empty()
    } else {
        layers_cmds(c, gw, ga, pos, (k - 1) as nat) + super::record::layer_cmds(
            c,
            gw,
            ga,
            k - 1,
            pos,
        )
    }
}

/// A time stamp in the first layer only.
pub open spec fn stamp(l: int) -> Seq<GpuCmd> {
    if l == 0 {
        seq![GpuCmd::Timestamp]
    } else {
        Seq::empty()
    }
}

/// A barrier after layer `l`, unless it is the last.
pub open spec fn layer_end(c: ModelConfig, l: int) -> Seq<GpuCmd> {
    if l < c.n_layers - 1 {
        seq![GpuCmd::Barrier]
    } else {
        Seq::empty()
    }
}

/// One layer of a timed evaluation: the first layer takes a time stamp after each block.
pub open spec fn timed_layer_cmds(
    c: ModelConfig,
    gw: GpuWeights,
    ga: GpuActs,
    l: int,
    pos: int,
) -> Seq<GpuCmd> {
    super::record::norm_stretch(c, ga, l) + stamp(l) + super::record::qkv_stretch(gw, ga, l)
        + stamp(l) + super::record::bias_stretch(c, ga, l) + super::record::attend_stretch(
        c,
        ga,
        l,
        pos,
    ) + stamp(l) + super::record::project_stretch(c, gw, ga, l) + stamp(l)
        + super::record::feed_stretch(c, gw, ga, l) + stamp(l) + seq![
        super::record::residual_cmd(c, ga),
    ] + layer_end(c, l)
}

/// The first `k` layers of a timed evaluation.
pub open spec fn timed_layers_cmds(
    c: ModelConfig,
    gw: GpuWeights,
    ga: GpuActs,
    pos: int,
    k: nat,
) -> Seq<GpuCmd>
    decreases k,
{
    if k == 0 {
        Seq::empty()
    } else {
        timed_layers_cmds(c, gw, ga, pos, (k - 1) as nat) + timed_layer_cmds(c, gw, ga, k - 1, pos)
    }
}

/// The evaluation of one token.
pub open spec fn forward_cmds(
    c: ModelConfig,
    gw: GpuWeights,
    ga: GpuActs,
    token: usize,
    pos: int,
) -> Seq<GpuCmd> {
    seq![
        GpuCmd::Begin,
        GpuCmd::UploadEmbedding { dst: ga.x, token },
        GpuCmd::Timestamp,
    ] + timed_layers_cmds(c, gw, ga, pos, c.n_layers as nat) + seq![GpuCmd::Timestamp]
        + super::record::output_cmds(c, gw, ga) + seq![
        GpuCmd::Timestamp,
        GpuCmd::SubmitWithReadback { logits: ga.logits, readback: ga.logits_rb },
        GpuCmd::PrintTimestamps,
        GpuCmd::ReadLogits { logits: ga.logits, readback: ga.logits_rb },
    ]
}

fn record_stamp(l: usize, cmds: &mut Vec<GpuCmd>)
    ensures
        final(cmds)@ == old(cmds)@ + stamp(l as int),
{
    if l == 0 {
        cmds.push(GpuCmd::Timestamp);
    }
    assert(cmds@ =~= old(cmds)@ + stamp(l as int));
}

/// Commands that follow a stretch of the recording follow the whole recording.
pub(crate) proof fn lemma_grow(before: Seq<GpuCmd>, stretch: Seq<GpuCmd>, next: Seq<GpuCmd>)
    ensures
        (before + stretch) + next == before + (stretch + next),
{
    assert((before + stretch) + next =~= before + (stretch + next));
}

/// Records layer `l` of a timed evaluation.
fn record_timed_layer(
    c: &ModelConfig,
    gw: &GpuWeights,
    ga: &GpuActs,
    l: usize,
    pos: usize,
    cmds: &mut Vec<GpuCmd>,
)
    requires
        c.widths_fit(),
        gw.covers(c.n_layers as nat),
        ga.covers(c.n_layers as nat),
        l < c.n_layers,
        pos < usize::MAX,
    ensures
        final(cmds)@ == old(cmds)@ + timed_layer_cmds(*c, *gw, *ga, l as int, pos as int),
{
    let ghost before = cmds@;
    let ghost li = l as int;
    let ghost s1 = super::record::norm_stretch(*c, *ga, li);
    let ghost s2 = s1 + stamp(li);
    let ghost s3 = s2 + super::record::qkv_stretch(*gw, *ga, li);
    let ghost s4 = s3 + stamp(li);
    let ghost s5 = s4 + super::record::bias_stretch(*c, *ga, li);
    let ghost s6 = s5 + super::record::attend_stretch(*c, *ga, li, pos as int);
    let ghost s7 = s6 + stamp(li);
    let ghost s8 = s7 + super::record::project_stretch(*c, *gw, *ga, li);
    let ghost s9 = s8 + stamp(li);
    let ghost s10 = s9 + super::record::feed_stretch(*c, *gw, *ga, li);
    let ghost s11 = s10 + stamp(li);
    record_norm(c, ga, l, cmds);
    record_stamp(l, cmds);
    record_qkv(gw, ga, l, cmds);
    record_stamp(l, cmds);
    record_biases(c, ga, l, cmds);
    record_attend(c, ga, l, pos, cmds);
    record_stamp(l, cmds);
    record_project(c, gw, ga, l, cmds);
    record_stamp(l, cmds);
    record_feed(c, gw, ga, l, cmds);
    record_stamp(l, cmds);
    proof {
        lemma_grow(before, s1, stamp(li));
        lemma_grow(before, s2, super::record::qkv_stretch(*gw, *ga, li));
        lemma_grow(before, s3, stamp(li));
        lemma_grow(before, s4, super::record::bias_stretch(*c, *ga, li));
        lemma_grow(before, s5, super::record::attend_stretch(*c, *ga, li, pos as int));
        lemma_grow(before, s6, stamp(li));
        lemma_grow(before, s7, super::record::project_stretch(*c, *gw, *ga, li));
        lemma_grow(before, s8, stamp(li));
        lemma_grow(before, s9, super::record::feed_stretch(*c, *gw, *ga, li));
        lemma_grow(before, s10, stamp(li));
    }
    assert(cmds@ == before + s11);
    record_layer_close(c, ga, l, cmds);
    proof {
        lemma_grow(before, s11, seq![super::record::residual_cmd(*c, *ga)]);
        lemma_grow(
            before,
            s11 + seq![super::record::residual_cmd(*c, *ga)],
            layer_end(*c, li),
        );
        lemma_grow(
            before + s11,
            seq![super::record::residual_cmd(*c, *ga)],
            layer_end(*c, li),
        );
    }
}

/// Records the addition of the feed-forward block to the residual.
fn record_residual(c: &ModelConfig, ga: &GpuActs, cmds: &mut Vec<GpuCmd>)
    ensures
        final(cmds)@ == old(cmds)@ + super::record::fenced(super::record::residual_cmd(*c, *ga)),
{
    cmds.push(GpuCmd::Add { dst: ga.x, src: ga.ff, n: c.n_embd as u32 });
    cmds.push(GpuCmd::Barrier);
    assert(cmds@ =~= old(cmds)@ + super::record::fenced(super::record::residual_cmd(*c, *ga)));
}

/// Records the end of layer `l` of a timed evaluation.
fn record_layer_close(c: &ModelConfig, ga: &GpuActs, l: usize, cmds: &mut Vec<GpuCmd>)
    requires
        l < c.n_layers,
    ensures
        final(cmds)@ == old(cmds)@ + (seq![super::record::residual_cmd(*c, *ga)] + layer_end(
            *c,
            l as int,
        )),
{
    cmds.push(GpuCmd::Add { dst: ga.x, src: ga.ff, n: c.n_embd as u32 });
    if l < c.n_layers - 1 {
        cmds.push(GpuCmd::Barrier);
    }
    assert(cmds@ =~= old(cmds)@ + (seq![super::record::residual_cmd(*c, *ga)] + layer_end(
        *c,
        l as int,
    )));
}

impl LlamaModel {
    /// The model is on a device: its weights and buffers have an entry for each layer.
    pub open spec fn on_gpu(self) -> bool {
        &&& self.config.widths_fit()
        &&& self.gpu_w matches Some(gw) && gw.covers(self.config.n_layers as nat)
        &&& self.gpu_acts matches Some(ga) && ga.covers(self.config.n_layers as nat)
    }

    /// Records the commands of layer `l` for the token at position `pos`.
    pub fn record_layer_gpu(&self, l: usize, pos: usize, cmds: &mut Vec<GpuCmd>)
        requires
            self.on_gpu(),
            l < self.config.n_layers,
            pos < usize::MAX,
        ensures
            final(cmds)@ == old(cmds)@ + super::record::layer_cmds(
                self.config,
                self.gpu_w->0,
                self.gpu_acts->0,
                l as int,
                pos as int,
            ),
    {
        let c = &self.config;
        let gw = self.gpu_w.as_ref().unwrap();
        let ga = self.gpu_acts.as_ref().unwrap();
        record_norm(c, ga, l, cmds);
        record_qkv(gw, ga, l, cmds);
        record_biases(c, ga, l, cmds);
        record_attend(c, ga, l, pos, cmds);
        record_project(c, gw, ga, l, cmds);
        record_feed(c, gw, ga, l, cmds);
        record_residual(c, ga, cmds);
        proof {
            let before = old(cmds)@;
            let (li, p) = (l as int, pos as int);
            let s1 = super::record::norm_stretch(*c, *ga, li);
            let s2 = s1 + super::record::qkv_stretch(*gw, *ga, li);
            let s3 = s2 + super::record::bias_stretch(*c, *ga, li);
            let s4 = s3 + super::record::attend_stretch(*c, *ga, li, p);
            let s5 = s4 + super::record::project_stretch(*c, *gw, *ga, li);
            let s6 = s5 + super::record::feed_stretch(*c, *gw, *ga, li);
            lemma_grow(before, s1, super::record::qkv_stretch(*gw, *ga, li));
            lemma_grow(before, s2, super::record::bias_stretch(*c, *ga, li));
            lemma_grow(before, s3, super::record::attend_stretch(*c, *ga, li, p));
            lemma_grow(before, s4, super::record::project_stretch(*c, *gw, *ga, li));
            lemma_grow(before, s5, super::record::feed_stretch(*c, *gw, *ga, li));
            lemma_grow(
                before,
                s6,
                super::record::fenced(super::record::residual_cmd(*c, *ga)),
            );
        }
    }

    /// The commands that evaluate `token` at position `pos`, with time stamps.
    pub fn forward_gpu(&self, token: usize, pos: usize) -> (cmds: Vec<GpuCmd>)
        requires
            self.on_gpu(),
            pos < usize::MAX,
        ensures
            cmds@ == forward_cmds(
                self.config,
                self.gpu_w->0,
                self.gpu_acts->0,
                token,
                pos as int,
            ),
    {
        let c = &self.config;
        let gw = self.gpu_w.as_ref().unwrap();
        let ga = self.gpu_acts.as_ref().unwrap();
        let mut cmds: Vec<GpuCmd> = Vec::new();
        cmds.push(GpuCmd::Begin);
        cmds.push(GpuCmd::UploadEmbedding { dst: ga.x, token });
        cmds.push(GpuCmd::Timestamp);
        let ghost head = cmds@;
        let mut l: usize = 0;
        while l < c.n_layers
            invariant
                self.on_gpu(),
                *c == self.config,
                *gw == self.gpu_w->0,
                *ga == self.gpu_acts->0,
                pos < usize::MAX,
                l <= c.n_layers,
                cmds@ == head + timed_layers_cmds(*c, *gw, *ga, pos as int, l as nat),
            decreases c.n_layers - l,
        {
            record_timed_layer(c, gw, ga, l, pos, &mut cmds);
            proof {
                lemma_grow(
                    head,
                    timed_layers_cmds(*c, *gw, *ga, pos as int, l as nat),
                    timed_layer_cmds(*c, *gw, *ga, l as int, pos as int),
                );
            }
            l += 1;
        }
        cmds.push(GpuCmd::Timestamp);
        record_output(c, gw, ga, &mut cmds);
        cmds.push(GpuCmd::Timestamp);
        cmds.push(GpuCmd::SubmitWithReadback { logits: ga.logits, readback: ga.logits_rb });
        cmds.push(GpuCmd::PrintTimestamps);
        cmds.push(GpuCmd::ReadLogits { logits: ga.logits, readback: ga.logits_rb });
        assert(cmds@ =~= forward_cmds(*c, *gw, *ga, token, pos as int));
        cmds
    }
}

} // verus!
