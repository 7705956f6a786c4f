//! The evaluation of a whole prompt on the device, a chunk of tokens at a time.
use vstd::prelude::*;

use super::gpu::{CopySource, GpuCmd};
use super::llama::LlamaModel;
use super::prefill::{bounded_product, end_of_chunk, staged_rows, PrefillPlan};
use super::record::{record_batch_bias, record_bias_barrier, record_gemm, record_gemv};

verus! {

/// The descriptor sets asked for a chunk of `tokens` tokens.
pub open spec fn gemm_sets(n_layers: int, tokens: int) -> int {
    tokens * n_layers * 22 * 2 + tokens * n_layers + 64
}

/// The number of tokens in a chunk: one at least, and no more than the batch buffers hold.
pub open spec fn batch_size(chunk: usize, max_batch: usize) -> int {
    let wanted = super::prefill::at_least_one(chunk);
    if wanted <= max_batch {
        wanted
    } else {
        max_batch as int
    }
}

impl LlamaModel {
    /// The norm and the three projections of layer `l`, for `b` tokens.
    pub open spec fn batch_qkv_stretch(self, l: int, b: int) -> Seq<GpuCmd> {
        let (c, gw, ga) = (self.config, self.gpu_w->0, self.gpu_acts->0);
        super::record::fenced(
            GpuCmd::BatchRmsNorm {
                src: ga.x_batch,
                weight: ga.attn_norms@[l],
                dst: ga.xn_batch,
                n: c.n_embd as u32,
                batch: b as u32,
            },
        ) + super::record::gemm_cmd(gw.attn_q@[l], ga.xn_batch, ga.q_batch, b as u32)
            + super::record::gemm_cmd(gw.attn_k@[l], ga.xn_batch, ga.k_batch, b as u32)
            + super::record::gemm_cmd(gw.attn_v@[l], ga.xn_batch, ga.v_batch, b as u32)
            + super::record::barrier()
    }

    /// The biases of the projections of layer `l`, for `b` tokens.
    pub open spec fn batch_bias_stretch(self, l: int, b: int) -> Seq<GpuCmd> {
        let (c, ga) = (self.config, self.gpu_acts->0);
        super::record::batch_bias_cmd(ga.q_bias@[l], ga.q_batch, c.q_width() as u32, b as u32)
            + super::record::batch_bias_cmd(
            ga.k_bias@[l],
            ga.k_batch,
            c.kv_width() as u32,
            b as u32,
        ) + super::record::batch_bias_cmd(ga.v_bias@[l], ga.v_batch, c.kv_width() as u32, b as u32)
            + super::record::bias_barrier(ga, l)
    }

    /// The rotary embedding of the positions `pos..pos + b`, and the write of their keys and
    /// values into the cache.
    pub open spec fn batch_write_stretch(self, l: int, pos: int, b: int) -> Seq<GpuCmd> {
        let (c, ga) = (self.config, self.gpu_acts->0);
        super::record::fenced(
            GpuCmd::BatchRope {
                q: ga.q_batch,
                k: ga.k_batch,
                n_heads: c.n_heads as u32,
                n_kv_heads: c.n_kv_heads as u32,
                head_dim: c.head_dim as u32,
                pos: pos as u32,
                batch: b as u32,
            },
        ) + super::record::fenced(
            GpuCmd::BatchKvWrite {
                k: ga.k_batch,
                v: ga.v_batch,
                k_cache: ga.k_cache@[l],
                v_cache: ga.v_cache@[l],
                pos: pos as u32,
                n_kv_heads: c.n_kv_heads as u32,
                head_dim: c.head_dim as u32,
                batch: b as u32,
            },
        )
    }

    /// The attention of the token in row `i` of the batch, over all positions up to its own.
    pub open spec fn batch_item_cmd(self, l: int, pos: int, i: int) -> GpuCmd {
        let (c, ga) = (self.config, self.gpu_acts->0);
        GpuCmd::BatchAttnItem {
            q: ga.q_batch,
            k_cache: ga.k_cache@[l],
            v_cache: ga.v_cache@[l],
            dst: ga.ao_batch,
            scores: ga.scores,
            n_heads: c.n_heads as u32,
            n_kv_heads: c.n_kv_heads as u32,
            head_dim: c.head_dim as u32,
            seq_len: (pos + i + 1) as u32,
            ctx_len: ga.ctx_len as u32,
            q_offset: (i * c.n_heads * c.head_dim) as u32,
            out_offset: (i * c.n_embd) as u32,
        }
    }

    /// The attention of the first `k` of `b` tokens, with a barrier between each two.
    pub open spec fn batch_items(self, l: int, pos: int, b: int, k: int) -> Seq<GpuCmd>
        decreases k,
    {
        if k <= 0 {
            Seq::empty()
        } else {
            self.batch_items(l, pos, b, k - 1).push(self.batch_item_cmd(l, pos, k - 1)) + (if k
                < b {
                seq![GpuCmd::Barrier]
            } else {
                Seq::empty()
            })
        }
    }

    /// The output projection of the attention block and its addition to the residual.
    pub open spec fn batch_out_stretch(self, l: int, b: int) -> Seq<GpuCmd> {
        let (c, gw, ga) = (self.config, self.gpu_w->0, self.gpu_acts->0);
        super::record::barrier() + super::record::gemm_cmd(
            gw.attn_out@[l],
            ga.ao_batch,
            ga.proj_batch,
            b as u32,
        ) + super::record::barrier() + super::record::fenced(
            GpuCmd::BatchAdd {
                dst: ga.x_batch,
                src: ga.proj_batch,
                n: c.n_embd as u32,
                batch: b as u32,
            },
        )
    }

    /// The feed-forward block.
    pub open spec fn batch_feed_stretch(self, l: int, b: int) -> Seq<GpuCmd> {
        let (c, gw, ga) = (self.config, self.gpu_w->0, self.gpu_acts->0);
        super::record::fenced(
            GpuCmd::BatchRmsNorm {
                src: ga.x_batch,
                weight: ga.ffn_norms@[l],
                dst: ga.xn_batch,
                n: c.n_embd as u32,
                batch: b as u32,
            },
        ) + super::record::gemm_cmd(gw.ffn_gate@[l], ga.xn_batch, ga.gate_batch, b as u32)
            + super::record::gemm_cmd(gw.ffn_up@[l], ga.xn_batch, ga.up_batch, b as u32)
            + super::record::barrier() + super::record::fenced(
            GpuCmd::BatchSwiGlu {
                gate: ga.gate_batch,
                up: ga.up_batch,
                n: c.n_ff as u32,
                batch: b as u32,
            },
        ) + super::record::gemm_cmd(gw.ffn_down@[l], ga.gate_batch, ga.ff_batch, b as u32)
            + super::record::barrier() + super::record::fenced(
            GpuCmd::BatchAdd {
                dst: ga.x_batch,
                src: ga.ff_batch,
                n: c.n_embd as u32,
                batch: b as u32,
            },
        )
    }

    /// Layer `l` for the `b` tokens from position `pos` on.
    pub open spec fn batch_layer_cmds(self, l: int, pos: int, b: int) -> Seq<GpuCmd> {
        self.batch_qkv_stretch(l, b) + self.batch_bias_stretch(l, b) + self.batch_write_stretch(
            l,
            pos,
            b,
        ) + self.batch_items(l, pos, b, b) + self.batch_out_stretch(l, b)
            + self.batch_feed_stretch(l, b)
    }

    /// The first `k` layers for the `b` tokens from position `pos` on.
    pub open spec fn batch_layers_cmds(self, pos: int, b: int, k: nat) -> Seq<GpuCmd>
        decreases k,
    {
        if k == 0 {
            Seq::empty()
        } else {
            self.batch_layers_cmds(pos, b, (k - 1) as nat) + self.batch_layer_cmds(k - 1, pos, b)
        }
    }

    /// The end of a chunk of `b` tokens: after the last one, the logits of its last token are
    /// computed and copied back.
    pub open spec fn batch_close_cmds(self, b: int, last: bool) -> Seq<GpuCmd> {
        let (c, gw, ga) = (self.config, self.gpu_w->0, self.gpu_acts->0);
        if last {
            super::record::fenced(
                GpuCmd::CopyToAct {
                    dst: ga.xn,
                    src: CopySource::Act(ga.x_batch),
                    offset: ((b - 1) * c.n_embd * 4) as u64,
                },
            ) + super::record::fenced(
                GpuCmd::RmsNorm {
                    src: ga.xn,
                    weight: ga.out_norm,
                    dst: ga.xn,
                    n: c.n_embd as u32,
                },
            ) + super::record::gemv_cmd(gw.output, ga.xn, ga.logits) + seq![
                GpuCmd::SubmitWithReadback { logits: ga.logits, readback: ga.logits_rb },
            ]
        } else {
            seq![GpuCmd::SubmitNoReadback]
        }
    }

    /// The start of a chunk of `b` tokens from index `from` on.
    pub open spec fn batch_open_cmds(self, from: int, b: int) -> Seq<GpuCmd> {
        seq![
            GpuCmd::BeginForSets { sets: gemm_sets(self.config.n_layers as int, b) as u32 },
        ] + seq![
            GpuCmd::CopyToAct {
                dst: (self.gpu_acts->0).x_batch,
                src: CopySource::Staging,
                offset: (from * self.config.n_embd * 4) as u64,
            },
        ]
    }

    /// The chunk of the tokens `from..to` in a prompt of `n` tokens that begins at position
    /// `start`.
    pub open spec fn batch_cmds(self, start: int, from: int, to: int, n: int) -> Seq<GpuCmd> {
        self.batch_open_cmds(from, to - from) + self.batch_layers_cmds(
            start + from,
            to - from,
            self.config.n_layers as nat,
        ) + self.batch_close_cmds(to - from, to == n)
    }

    /// The chunks of at most `size` tokens from index `from` on.
    pub open spec fn batches_cmds(self, start: int, from: int, n: int, size: int) -> Seq<GpuCmd>
        decreases n - from,
    {
        if from >= n || size <= 0 {
            Seq::empty()
        } else {
            let to = super::prefill::chunk_end(from, size, n);
            self.batch_cmds(start, from, to, n) + self.batches_cmds(start, to, n, size)
        }
    }

    /// The evaluation of a prompt of `n` tokens in chunks of `size`.
    pub open spec fn prefill_gemm_cmds(self, start: int, n: int, size: int) -> Seq<GpuCmd> {
        self.batches_cmds(start, 0, n, size) + seq![
            GpuCmd::ReadLogits {
                logits: (self.gpu_acts->0).logits,
                readback: (self.gpu_acts->0).logits_rb,
            },
        ]
    }

    /// Every weight of every layer is on the device.
    pub open spec fn all_resident(self) -> bool {
        forall|l: int|
            0 <= l < self.config.n_layers ==> #[trigger] (self.gpu_w->0).layer_resident(l)
    }

    /// The positions, offsets and set counts of a prompt of `n` tokens can be computed on this
    /// machine.
    pub open spec fn gemm_fits(self, n: int, start: int, size: int) -> bool {
        let most = if size <= n { size } else { n };
        &&& n * self.config.n_embd * 4 <= usize::MAX
        &&& start + n <= usize::MAX
        &&& most <= u32::MAX
        &&& gemm_sets(self.config.n_layers as int, most) <= u32::MAX
        &&& most * self.config.n_heads <= usize::MAX
        &&& most * self.config.n_heads * self.config.head_dim <= usize::MAX
    }
}

impl LlamaModel {
    fn record_batch_qkv(&self, l: usize, b: u32, cmds: &mut Vec<GpuCmd>)
        requires
            self.on_gpu(),
            l < self.config.n_layers,
        ensures
            final(cmds)@ == old(cmds)@ + self.batch_qkv_stretch(l as int, b as int),
    {
        let c = &self.config;
        let gw = self.gpu_w.as_ref().unwrap();
        let ga = self.gpu_acts.as_ref().unwrap();
        cmds.push(
            GpuCmd::BatchRmsNorm {
                src: ga.x_batch,
                weight: ga.attn_norms[l],
                dst: ga.xn_batch,
                n: c.n_embd as u32,
                batch: b,
            },
        );
        cmds.push(GpuCmd::Barrier);
        record_gemm(gw.attn_q[l], ga.xn_batch, ga.q_batch, b, cmds);
        record_gemm(gw.attn_k[l], ga.xn_batch, ga.k_batch, b, cmds);
        record_gemm(gw.attn_v[l], ga.xn_batch, ga.v_batch, b, cmds);
        cmds.push(GpuCmd::Barrier);
        assert(cmds@ =~= old(cmds)@ + self.batch_qkv_stretch(l as int, b as int));
    }

    fn record_batch_biases(&self, l: usize, b: u32, cmds: &mut Vec<GpuCmd>)
        requires
            self.on_gpu(),
            l < self.config.n_layers,
        ensures
            final(cmds)@ == old(cmds)@ + self.batch_bias_stretch(l as int, b as int),
    {
        let ga = self.gpu_acts.as_ref().unwrap();
        let kvd: usize = self.config.kv_dim();
        record_batch_bias(ga.q_bias[l], ga.q_batch, self.config.q_dim() as u32, b, cmds);
        record_batch_bias(ga.k_bias[l], ga.k_batch, kvd as u32, b, cmds);
        record_batch_bias(ga.v_bias[l], ga.v_batch, kvd as u32, b, cmds);
        record_bias_barrier(ga, l, cmds);
        assert(cmds@ =~= old(cmds)@ + self.batch_bias_stretch(l as int, b as int));
    }

    fn record_batch_write(&self, l: usize, pos: usize, b: u32, cmds: &mut Vec<GpuCmd>)
        requires
            self.on_gpu(),
            l < self.config.n_layers,
        ensures
            final(cmds)@ == old(cmds)@ + self.batch_write_stretch(
                l as int,
                pos as int,
                b as int,
            ),
    {
        let c = &self.config;
        let ga = self.gpu_acts.as_ref().unwrap();
        cmds.push(
            GpuCmd::BatchRope {
                q: ga.q_batch,
                k: ga.k_batch,
                n_heads: c.n_heads as u32,
                n_kv_heads: c.n_kv_heads as u32,
                head_dim: c.head_dim as u32,
                pos: pos as u32,
                batch: b,
            },
        );
        cmds.push(GpuCmd::Barrier);
        cmds.push(
            GpuCmd::BatchKvWrite {
                k: ga.k_batch,
                v: ga.v_batch,
                k_cache: ga.k_cache[l],
                v_cache: ga.v_cache[l],
                pos: pos as u32,
                n_kv_heads: c.n_kv_heads as u32,
                head_dim: c.head_dim as u32,
                batch: b,
            },
        );
        cmds.push(GpuCmd::Barrier);
        assert(cmds@ =~= old(cmds)@ + self.batch_write_stretch(l as int, pos as int, b as int));
    }

    fn record_batch_items(&self, l: usize, pos: usize, b: u32, cmds: &mut Vec<GpuCmd>)
        requires
            self.on_gpu(),
            l < self.config.n_layers,
            pos + b <= usize::MAX,
            b * self.config.n_embd <= usize::MAX,
            b * self.config.n_heads <= usize::MAX,
            b * self.config.n_heads * self.config.head_dim <= usize::MAX,
        ensures
            final(cmds)@ == old(cmds)@ + self.batch_items(
                l as int,
                pos as int,
                b as int,
                b as int,
            ),
    {
        let c = &self.config;
        let ga = self.gpu_acts.as_ref().unwrap();
        let ghost before = cmds@;
        let n: usize = b as usize;
        assert(before =~= before + self.batch_items(l as int, pos as int, b as int, 0));
        let mut i: usize = 0;
        while i < n
            invariant
                self.on_gpu(),
                *c == self.config,
                *ga == self.gpu_acts->0,
                l < self.config.n_layers,
                pos + b <= usize::MAX,
                n == b,
                b * c.n_embd <= usize::MAX,
                b * c.n_heads <= usize::MAX,
                b * c.n_heads * c.head_dim <= usize::MAX,
                i <= n,
                cmds@ == before + self.batch_items(l as int, pos as int, b as int, i as int),
            decreases n - i,
        {
            let ghost so_far = cmds@;
            proof {
                let (ii, bb, h, d, e) = (
                    i as int,
                    b as int,
                    c.n_heads as int,
                    c.head_dim as int,
                    c.n_embd as int,
                );
                assert(0 <= ii * e <= bb * e && 0 <= ii * h <= bb * h && 0 <= ii * h * d <= bb * h
                    * d) by (nonlinear_arith)
                    requires
                        0 <= ii <= bb,
                        0 <= h,
                        0 <= d,
                        0 <= e,
                ;
            }
            cmds.push(
                GpuCmd::BatchAttnItem {
                    q: ga.q_batch,
                    k_cache: ga.k_cache[l],
                    v_cache: ga.v_cache[l],
                    dst: ga.ao_batch,
                    scores: ga.scores,
                    n_heads: c.n_heads as u32,
                    n_kv_heads: c.n_kv_heads as u32,
                    head_dim: c.head_dim as u32,
                    seq_len: (pos + i + 1) as u32,
                    ctx_len: ga.ctx_len as u32,
                    q_offset: (i * c.n_heads * c.head_dim) as u32,
                    out_offset: (i * c.n_embd) as u32,
                },
            );
            if i + 1 < n {
                cmds.push(GpuCmd::Barrier);
            }
            i += 1;
            assert(cmds@ =~= before + self.batch_items(
                l as int,
                pos as int,
                b as int,
                i as int,
            ));
        }
    }

    fn record_batch_out(&self, l: usize, b: u32, cmds: &mut Vec<GpuCmd>)
        requires
            self.on_gpu(),
            l < self.config.n_layers,
        ensures
            final(cmds)@ == old(cmds)@ + self.batch_out_stretch(l as int, b as int),
    {
        let c = &self.config;
        let gw = self.gpu_w.as_ref().unwrap();
        let ga = self.gpu_acts.as_ref().unwrap();
        cmds.push(GpuCmd::Barrier);
        record_gemm(gw.attn_out[l], ga.ao_batch, ga.proj_batch, b, cmds);
        cmds.push(GpuCmd::Barrier);
        cmds.push(
            GpuCmd::BatchAdd {
                dst: ga.x_batch,
                src: ga.proj_batch,
                n: c.n_embd as u32,
                batch: b,
            },
        );
        cmds.push(GpuCmd::Barrier);
        assert(cmds@ =~= old(cmds)@ + self.batch_out_stretch(l as int, b as int));
    }

    fn record_batch_feed(&self, l: usize, b: u32, cmds: &mut Vec<GpuCmd>)
        requires
            self.on_gpu(),
            l < self.config.n_layers,
        ensures
            final(cmds)@ == old(cmds)@ + self.batch_feed_stretch(l as int, b as int),
    {
        let c = &self.config;
        let gw = self.gpu_w.as_ref().unwrap();
        let ga = self.gpu_acts.as_ref().unwrap();
        cmds.push(
            GpuCmd::BatchRmsNorm {
                src: ga.x_batch,
                weight: ga.ffn_norms[l],
                dst: ga.xn_batch,
                n: c.n_embd as u32,
                batch: b,
            },
        );
        cmds.push(GpuCmd::Barrier);
        record_gemm(gw.ffn_gate[l], ga.xn_batch, ga.gate_batch, b, cmds);
        record_gemm(gw.ffn_up[l], ga.xn_batch, ga.up_batch, b, cmds);
        cmds.push(GpuCmd::Barrier);
        cmds.push(
            GpuCmd::BatchSwiGlu {
                gate: ga.gate_batch,
                up: ga.up_batch,
                n: c.n_ff as u32,
                batch: b,
            },
        );
        cmds.push(GpuCmd::Barrier);
        record_gemm(gw.ffn_down[l], ga.gate_batch, ga.ff_batch, b, cmds);
        cmds.push(GpuCmd::Barrier);
        cmds.push(
            GpuCmd::BatchAdd {
                dst: ga.x_batch,
                src: ga.ff_batch,
                n: c.n_embd as u32,
                batch: b,
            },
        );
        cmds.push(GpuCmd::Barrier);
        assert(cmds@ =~= old(cmds)@ + self.batch_feed_stretch(l as int, b as int));
    }

    fn record_batch_layers(&self, pos: usize, b: u32, cmds: &mut Vec<GpuCmd>)
        requires
            self.on_gpu(),
            pos + b <= usize::MAX,
            b * self.config.n_embd <= usize::MAX,
            b * self.config.n_heads <= usize::MAX,
            b * self.config.n_heads * self.config.head_dim <= usize::MAX,
        ensures
            final(cmds)@ == old(cmds)@ + self.batch_layers_cmds(
                pos as int,
                b as int,
                self.config.n_layers as nat,
            ),
    {
        let ghost before = cmds@;
        assert(before =~= before + self.batch_layers_cmds(pos as int, b as int, 0));
        let mut l: usize = 0;
        while l < self.config.n_layers
            invariant
                self.on_gpu(),
                pos + b <= usize::MAX,
                b * self.config.n_embd <= usize::MAX,
                b * self.config.n_heads <= usize::MAX,
                b * self.config.n_heads * self.config.head_dim <= usize::MAX,
                l <= self.config.n_layers,
                cmds@ == before + self.batch_layers_cmds(pos as int, b as int, l as nat),
            decreases self.config.n_layers - l,
        {
            let ghost so_far = cmds@;
            let ghost (li, p, n) = (l as int, pos as int, b as int);
            self.record_batch_qkv(l, b, cmds);
            self.record_batch_biases(l, b, cmds);
            self.record_batch_write(l, pos, b, cmds);
            self.record_batch_items(l, pos, b, cmds);
            self.record_batch_out(l, b, cmds);
            self.record_batch_feed(l, b, cmds);
            proof {
                let s1 = self.batch_qkv_stretch(li, n);
                let s2 = s1 + self.batch_bias_stretch(li, n);
                let s3 = s2 + self.batch_write_stretch(li, p, n);
                let s4 = s3 + self.batch_items(li, p, n, n);
                let s5 = s4 + self.batch_out_stretch(li, n);
                super::llama::lemma_grow(so_far, s1, self.batch_bias_stretch(li, n));
                super::llama::lemma_grow(so_far, s2, self.batch_write_stretch(li, p, n));
                super::llama::lemma_grow(so_far, s3, self.batch_items(li, p, n, n));
                super::llama::lemma_grow(so_far, s4, self.batch_out_stretch(li, n));
                super::llama::lemma_grow(so_far, s5, self.batch_feed_stretch(li, n));
                super::llama::lemma_grow(
                    before,
                    self.batch_layers_cmds(p, n, l as nat),
                    self.batch_layer_cmds(li, p, n),
                );
            }
            l += 1;
        }
    }

    fn record_batch_close(&self, b: u32, last: bool, cmds: &mut Vec<GpuCmd>)
        requires
            self.on_gpu(),
            b >= 1,
            b * self.config.n_embd * 4 <= usize::MAX,
        ensures
            final(cmds)@ == old(cmds)@ + self.batch_close_cmds(b as int, last),
    {
        let c = &self.config;
        if last {
            let gw = self.gpu_w.as_ref().unwrap();
            let ga = self.gpu_acts.as_ref().unwrap();
            proof {
                let (n, e) = (b as int, c.n_embd as int);
                assert(0 <= (n - 1) * e <= (n - 1) * e * 4 <= n * e * 4) by (nonlinear_arith)
                    requires
                        n >= 1,
                        e >= 0,
                ;
            }
            cmds.push(
                GpuCmd::CopyToAct {
                    dst: ga.xn,
                    src: CopySource::Act(ga.x_batch),
                    offset: ((b as usize - 1) * c.n_embd * 4) as u64,
                },
            );
            cmds.push(GpuCmd::Barrier);
            cmds.push(
                GpuCmd::RmsNorm {
                    src: ga.xn,
                    weight: ga.out_norm,
                    dst: ga.xn,
                    n: c.n_embd as u32,
                },
            );
            cmds.push(GpuCmd::Barrier);
            record_gemv(gw.output, ga.xn, ga.logits, cmds);
            cmds.push(GpuCmd::SubmitWithReadback { logits: ga.logits, readback: ga.logits_rb });
        } else {
            cmds.push(GpuCmd::SubmitNoReadback);
        }
        assert(cmds@ =~= old(cmds)@ + self.batch_close_cmds(b as int, last));
    }

    /// Records the chunk of the tokens `from..to` of a prompt of `n` tokens.
    fn record_batch(&self, start: usize, from: usize, to: usize, n: usize, cmds: &mut Vec<GpuCmd>)
        requires
            self.on_gpu(),
            from < to <= n,
            self.gemm_fits(n as int, start as int, to - from),
        ensures
            final(cmds)@ == old(cmds)@ + self.batch_cmds(
                start as int,
                from as int,
                to as int,
                n as int,
            ),
    {
        let c = &self.config;
        let ga = self.gpu_acts.as_ref().unwrap();
        let b: u32 = (to - from) as u32;
        proof {
            let (bb, f, nn, e, k) = (
                b as int,
                from as int,
                n as int,
                c.n_embd as int,
                c.n_layers as int,
            );
            assert(0 <= f * e <= f * e * 4 <= nn * e * 4 && 0 <= bb * e <= bb * e * 4 <= nn * e
                * 4) by (nonlinear_arith)
                requires
                    0 <= f <= nn,
                    0 <= bb <= nn,
                    0 <= e,
            ;
            assert(k <= bb * k) by (nonlinear_arith)
                requires
                    bb >= 1,
                    k >= 0,
            ;
        }
        let ghost before = cmds@;
        let layers: u32 = c.n_layers as u32;
        cmds.push(GpuCmd::BeginForSets { sets: b * layers * 22 * 2 + b * layers + 64 });
        cmds.push(
            GpuCmd::CopyToAct {
                dst: ga.x_batch,
                src: CopySource::Staging,
                offset: (from * c.n_embd * 4) as u64,
            },
        );
        assert(cmds@ =~= before + self.batch_open_cmds(from as int, b as int));
        self.record_batch_layers(start + from, b, cmds);
        self.record_batch_close(b, to == n, cmds);
        proof {
            let open = self.batch_open_cmds(from as int, b as int);
            let layers = self.batch_layers_cmds(start + from, b as int, c.n_layers as nat);
            super::llama::lemma_grow(before, open, layers);
            super::llama::lemma_grow(
                before,
                open + layers,
                self.batch_close_cmds(b as int, to == n),
            );
        }
    }
}

/// A prompt that fits in chunks of `size` fits in smaller chunks too.
proof fn lemma_smaller_chunks_fit(model: LlamaModel, n: int, start: int, size: int, smaller: int)
    requires
        model.gemm_fits(n, start, size),
        0 <= smaller <= n,
        smaller <= size,
    ensures
        model.gemm_fits(n, start, smaller),
{
    let most = if size <= n { size } else { n };
    let (k, h, d) = (
        model.config.n_layers as int,
        model.config.n_heads as int,
        model.config.head_dim as int,
    );
    assert(smaller * k <= most * k && smaller * h <= most * h && smaller * h * d <= most * h * d)
        by (nonlinear_arith)
        requires
            0 <= smaller <= most,
            0 <= k,
            0 <= h,
            0 <= d,
    ;
}

impl LlamaModel {
    /// Whether every weight of every layer is on the device.
    pub fn fully_resident(&self) -> (resident: bool)
        requires
            self.on_gpu(),
        ensures
            resident == self.all_resident(),
    {
        let gw = self.gpu_w.as_ref().unwrap();
        let mut l: usize = 0;
        while l < self.config.n_layers
            invariant
                self.on_gpu(),
                *gw == self.gpu_w->0,
                l <= self.config.n_layers,
                forall|j: int| 0 <= j < l ==> #[trigger] gw.layer_resident(j),
            decreases self.config.n_layers - l,
        {
            if gw.attn_q[l].is_none() || gw.attn_k[l].is_none() || gw.attn_v[l].is_none()
                || gw.attn_out[l].is_none() || gw.ffn_gate[l].is_none() || gw.ffn_up[l].is_none()
                || gw.ffn_down[l].is_none() {
                assert(!gw.layer_resident(l as int));
                return false;
            }
            l += 1;
        }
        true
    }

    /// Whether a prompt of `n` tokens can be evaluated in chunks of `size` tokens.
    fn check_batches(&self, n: usize, start_pos: usize, size: usize) -> (fits: bool)
        ensures
            fits == self.gemm_fits(n as int, start_pos as int, size as int),
    {
        let c = &self.config;
        let most: usize = if size <= n { size } else { n };
        let rows = bounded_product(n, c.n_embd, usize::MAX / 4);
        let heads = bounded_product(most, c.n_heads, usize::MAX);
        let width_fits = match heads {
            Some(h) => bounded_product(h, c.head_dim, usize::MAX).is_some(),
            None => false,
        };
        // 45 * cells + 64 <= u32::MAX
        let cells = bounded_product(most, c.n_layers, (u32::MAX - 64) as usize / 45);
        rows.is_some() && start_pos <= usize::MAX - n && most <= u32::MAX as usize
            && cells.is_some() && width_fits
    }

    /// Whether a prompt of `n` tokens can be handed to `forward_gpu_prefill_gemm` with this
    /// chunk size.
    pub fn check_prefill_gemm(&self, n: usize, start_pos: usize, chunk: usize) -> (fits: bool)
        requires
            self.on_gpu(),
        ensures
            fits == self.gemm_prefill_ready(n as int, start_pos as int, chunk),
    {
        if self.fully_resident() {
            let max_batch: usize = self.gpu_acts.as_ref().unwrap().max_batch;
            let wanted: usize = if chunk == 0 { 1 } else { chunk };
            let size: usize = if wanted <= max_batch { wanted } else { max_batch };
            max_batch >= 1 && self.check_batches(n, start_pos, size)
        } else {
            self.check_prefill(n, start_pos, chunk)
        }
    }

    /// A prompt of `n` tokens can be evaluated: in batches where every weight is on the
    /// device, and a token at a time where one is missing.
    pub open spec fn gemm_prefill_ready(self, n: int, start: int, chunk: usize) -> bool {
        let max_batch = (self.gpu_acts->0).max_batch;
        if self.all_resident() {
            max_batch >= 1 && self.gemm_fits(n, start, batch_size(chunk, max_batch))
        } else {
            self.prefill_fits(n, start, super::prefill::at_least_one(chunk))
        }
    }

    /// `plan` evaluates `tokens` from position `start` on, in batches where every weight is on
    /// the device, and a token at a time where one is missing.
    pub open spec fn plans_prefill_gemm(
        self,
        plan: PrefillPlan,
        tokens: Seq<usize>,
        start: int,
        chunk: usize,
    ) -> bool {
        if tokens.len() > 0 && self.all_resident() {
            match plan {
                PrefillPlan::Gemm { staged, cmds } => {
                    &&& staged@ == tokens
                    &&& cmds@ == self.prefill_gemm_cmds(
                        start,
                        tokens.len() as int,
                        batch_size(chunk, (self.gpu_acts->0).max_batch),
                    )
                },
                _ => false,
            }
        } else {
            self.plans_prefill(plan, tokens, start, super::prefill::at_least_one(chunk))
        }
    }

    /// How a prompt is evaluated with matrix-matrix products: one product for each weight and
    /// chunk, in place of one for each weight and token. Where a weight of any layer is missing
    /// from the device, the prompt is evaluated a token at a time instead.
    pub fn forward_gpu_prefill_gemm(
        &self,
        tokens: &[usize],
        start_pos: usize,
        chunk: usize,
    ) -> (plan: PrefillPlan)
        requires
            tokens@.len() > 0 ==> self.on_gpu() && self.gemm_prefill_ready(
                tokens@.len() as int,
                start_pos as int,
                chunk,
            ),
        ensures
            self.plans_prefill_gemm(plan, tokens@, start_pos as int, chunk),
    {
        if tokens.is_empty() {
            return PrefillPlan::Zeros { len: self.config.n_vocab };
        }
        if !self.fully_resident() {
            return self.forward_gpu_prefill(tokens, start_pos, chunk);
        }
        let ga = self.gpu_acts.as_ref().unwrap();
        let wanted: usize = if chunk == 0 { 1 } else { chunk };
        let size: usize = if wanted <= ga.max_batch { wanted } else { ga.max_batch };
        let n: usize = tokens.len();
        let ghost whole = self.batches_cmds(start_pos as int, 0, n as int, size as int);
        let mut cmds: Vec<GpuCmd> = Vec::new();
        assert(cmds@ + whole =~= whole);
        let mut from: usize = 0;
        while from < n
            invariant
                self.on_gpu(),
                self.gemm_fits(n as int, start_pos as int, size as int),
                size >= 1,
                from <= n,
                cmds@ + self.batches_cmds(start_pos as int, from as int, n as int, size as int)
                    == whole,
            decreases n - from,
        {
            let to = end_of_chunk(from, size, n);
            let ghost before = cmds@;
            proof {
                lemma_smaller_chunks_fit(
                    *self,
                    n as int,
                    start_pos as int,
                    size as int,
                    to - from,
                );
            }
            self.record_batch(start_pos, from, to, n, &mut cmds);
            proof {
                super::llama::lemma_grow(
                    before,
                    self.batch_cmds(start_pos as int, from as int, to as int, n as int),
                    self.batches_cmds(start_pos as int, to as int, n as int, size as int),
                );
            }
            from = to;
        }
        assert(self.batches_cmds(start_pos as int, n as int, n as int, size as int) =~= Seq::<
            GpuCmd,
        >::empty());
        assert(cmds@ =~= whole);
        cmds.push(GpuCmd::ReadLogits { logits: ga.logits, readback: ga.logits_rb });
        assert(cmds@ =~= self.prefill_gemm_cmds(start_pos as int, n as int, size as int));
        PrefillPlan::Gemm { staged: staged_rows(tokens), cmds }
    }
}

} // verus!
