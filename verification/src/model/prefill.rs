//! The evaluation of a whole prompt on the device, one token after the other.
use vstd::prelude::*;

use super::gpu::{CopySource, GpuCmd};
use super::llama::LlamaModel;
use super::record::record_output;

verus! {

/// How the logits after a prompt are obtained.
pub enum PrefillPlan {
    /// The prompt is empty: the logits are this many zeros.
    Zeros { len: usize },
    /// The embedding rows of the tokens `staged` are staged in this order, and the commands are
    /// executed. Each weight is applied to one token at a time.
    Gemv { staged: Vec<usize>, cmds: Vec<GpuCmd> },
    /// As `Gemv`, but each weight is applied to a whole chunk of tokens at once.
    Gemm { staged: Vec<usize>, cmds: Vec<GpuCmd> },
}

/// The end of the chunk of at most `size` tokens that begins at `from`, in a prompt of `n`.
pub open spec fn chunk_end(from: int, size: int, n: int) -> int {
    if from + size <= n {
        from + size
    } else {
        n
    }
}

/// A chunk holds one token at least.
pub open spec fn at_least_one(chunk: usize) -> int {
    if chunk == 0 {
        1
    } else {
        chunk as int
    }
}

/// The number of chunks of `size` in a prompt of `n` tokens: `n / size`, rounded up.
pub open spec fn chunk_count(n: int, size: int) -> int {
    (n + size - 1) / size
}

/// The descriptor sets asked for `tokens` tokens: twice the estimate for one token.
pub open spec fn gemv_sets(n_layers: int, tokens: int) -> int {
    tokens * (n_layers * 22 + 4) * 2
}

/// The end of the chunk that begins at `from`.
pub(crate) fn end_of_chunk(from: usize, size: usize, n: usize) -> (end: usize)
    requires
        from <= n,
    ensures
        end == chunk_end(from as int, size as int, n as int),
{
    if size <= n - from {
        from + size
    } else {
        n
    }
}

/// The product, where it is at most `limit`.
pub(crate) fn bounded_product(a: usize, b: usize, limit: usize) -> (product: Option<usize>)
    ensures
        product is Some <==> a * b <= limit,
        product matches Some(p) ==> p == a * b,
{
    match a.checked_mul(b) {
        Some(p) => if p <= limit {
            Some(p)
        } else {
            None
        },
        None => None,
    }
}

impl LlamaModel {
    /// The commands for the token with index `i` of a prompt that begins at position `start`.
    pub open spec fn token_cmds(self, start: int, i: int) -> Seq<GpuCmd> {
        seq![
            GpuCmd::CopyToAct {
                dst: (self.gpu_acts->0).x,
                src: CopySource::Staging,
                offset: (i * self.config.n_embd * 4) as u64,
            },
        ] + super::llama::layers_cmds(
            self.config,
            self.gpu_w->0,
            self.gpu_acts->0,
            start + i,
            self.config.n_layers as nat,
        )
    }

    /// The commands for the tokens with index `from..to`.
    pub open spec fn tokens_cmds(self, start: int, from: int, to: int) -> Seq<GpuCmd>
        decreases to - from,
    {
        if to <= from {
            Seq::empty()
        } else {
            self.tokens_cmds(start, from, to - 1) + self.token_cmds(start, to - 1)
        }
    }

    /// The end of a chunk: after the last one the logits are computed and copied back.
    pub open spec fn close_cmds(self, last: bool) -> Seq<GpuCmd> {
        if last {
            super::record::output_cmds(self.config, self.gpu_w->0, self.gpu_acts->0) + seq![
                GpuCmd::SubmitWithReadback {
                    logits: (self.gpu_acts->0).logits,
                    readback: (self.gpu_acts->0).logits_rb,
                },
            ]
        } else {
            seq![GpuCmd::SubmitNoReadback]
        }
    }

    /// The chunk of the tokens `from..to` in a prompt of `n` tokens.
    pub open spec fn chunk_cmds(self, start: int, from: int, to: int, n: int) -> Seq<GpuCmd> {
        seq![
            GpuCmd::BeginForSets {
                sets: gemv_sets(self.config.n_layers as int, to - from) as u32,
            },
        ] + self.tokens_cmds(start, from, to) + self.close_cmds(to == n)
    }

    /// The chunks of at most `size` tokens from index `from` on.
    pub open spec fn chunks_cmds(self, start: int, from: int, n: int, size: int) -> Seq<GpuCmd>
        decreases n - from,
    {
        if from >= n || size <= 0 {
            Seq::empty()
        } else {
            let to = chunk_end(from, size, n);
            self.chunk_cmds(start, from, to, n) + self.chunks_cmds(start, to, n, size)
        }
    }

    /// The evaluation of a prompt of `n` tokens in chunks of `size`.
    pub open spec fn prefill_cmds(self, start: int, n: int, size: int) -> Seq<GpuCmd> {
        self.chunks_cmds(start, 0, n, size) + seq![
            GpuCmd::FreeStaging,
            GpuCmd::ReadLogits {
                logits: (self.gpu_acts->0).logits,
                readback: (self.gpu_acts->0).logits_rb,
            },
        ]
    }

    /// `plan` evaluates `tokens` from position `start` on in chunks of `size`, a token at a
    /// time; for no tokens, it is zeros.
    pub open spec fn plans_prefill(
        self,
        plan: PrefillPlan,
        tokens: Seq<usize>,
        start: int,
        size: int,
    ) -> bool {
        match plan {
            PrefillPlan::Zeros { len } => tokens.len() == 0 && len == self.config.n_vocab,
            PrefillPlan::Gemv { staged, cmds } => {
                &&& tokens.len() > 0
                &&& staged@ == tokens
                &&& cmds@ == self.prefill_cmds(start, tokens.len() as int, size)
            },
            PrefillPlan::Gemm { .. } => false,
        }
    }

    /// The positions, byte offsets and set counts of a prompt of `n` tokens can be computed on
    /// this machine.
    pub open spec fn prefill_fits(self, n: int, start: int, size: int) -> bool {
        &&& n * self.config.n_embd * 4 <= usize::MAX
        &&& start + n <= usize::MAX
        &&& gemv_sets(self.config.n_layers as int, if size <= n { size } else { n }) <= u32::MAX
    }

    /// Whether a prompt of `n` tokens can be handed to `forward_gpu_prefill` with this chunk
    /// size.
    pub fn check_prefill(&self, n: usize, start_pos: usize, chunk: usize) -> (fits: bool)
        ensures
            fits == self.prefill_fits(
                n as int,
                start_pos as int,
                at_least_one(chunk),
            ),
    {
        let size: usize = if chunk == 0 { 1 } else { chunk };
        let most: usize = if size <= n { size } else { n };
        let rows = bounded_product(n, self.config.n_embd, usize::MAX / 4);
        let per_token: u128 = self.config.n_layers as u128 * 22 + 4;
        let sets_fit = most == 0 || per_token <= u32::MAX as u128 && within_sets(
            most as u128,
            per_token,
        );
        proof {
            let m = most as int;
            let per = self.config.n_layers * 22 + 4;
            assert(m >= 1 && per > u32::MAX ==> m * per * 2 > u32::MAX) by (nonlinear_arith);
            assert(m == 0 ==> m * per * 2 == 0) by (nonlinear_arith);
        }
        rows.is_some() && start_pos <= usize::MAX - n && sets_fit
    }
}

impl LlamaModel {
    /// Records all layers for the token at position `pos`.
    fn record_layers(&self, pos: usize, cmds: &mut Vec<GpuCmd>)
        requires
            self.on_gpu(),
            pos < usize::MAX,
        ensures
            final(cmds)@ == old(cmds)@ + super::llama::layers_cmds(
                self.config,
                self.gpu_w->0,
                self.gpu_acts->0,
                pos as int,
                self.config.n_layers as nat,
            ),
    {
        let ghost before = cmds@;
        let ghost (c, gw, ga) = (self.config, self.gpu_w->0, self.gpu_acts->0);
        assert(before =~= before + super::llama::layers_cmds(c, gw, ga, pos as int, 0));
        let mut l: usize = 0;
        while l < self.config.n_layers
            invariant
                self.on_gpu(),
                pos < usize::MAX,
                (c, gw, ga) == (self.config, self.gpu_w->0, self.gpu_acts->0),
                l <= self.config.n_layers,
                cmds@ == before + super::llama::layers_cmds(c, gw, ga, pos as int, l as nat),
            decreases self.config.n_layers - l,
        {
            self.record_layer_gpu(l, pos, cmds);
            proof {
                super::llama::lemma_grow(
                    before,
                    super::llama::layers_cmds(c, gw, ga, pos as int, l as nat),
                    super::record::layer_cmds(c, gw, ga, l as int, pos as int),
                );
            }
            l += 1;
        }
    }

    /// Records the tokens with index `from..to` of a prompt of `n` tokens.
    fn record_tokens(&self, start: usize, from: usize, to: usize, n: usize, cmds: &mut Vec<GpuCmd>)
        requires
            self.on_gpu(),
            from <= to <= n,
            start + n <= usize::MAX,
            n * self.config.n_embd * 4 <= usize::MAX,
        ensures
            final(cmds)@ == old(cmds)@ + self.tokens_cmds(start as int, from as int, to as int),
    {
        let ghost before = cmds@;
        assert(before =~= before + self.tokens_cmds(start as int, from as int, from as int));
        let mut i: usize = from;
        while i < to
            invariant
                self.on_gpu(),
                from <= i <= to <= n,
                start + n <= usize::MAX,
                n * self.config.n_embd * 4 <= usize::MAX,
                cmds@ == before + self.tokens_cmds(start as int, from as int, i as int),
            decreases to - i,
        {
            let ghost so_far = cmds@;
            let ghost width = self.config.n_embd as int;
            assert(0 <= i * width <= i * width * 4 <= n * width * 4) by (nonlinear_arith)
                requires
                    0 <= i <= n,
                    0 <= width,
            ;
            cmds.push(
                GpuCmd::CopyToAct {
                    dst: self.gpu_acts.as_ref().unwrap().x,
                    src: CopySource::Staging,
                    offset: (i * self.config.n_embd * 4) as u64,
                },
            );
            let ghost copied = cmds@.last();
            assert(cmds@ =~= so_far + seq![copied]);
            self.record_layers(start + i, cmds);
            proof {
                let layers = super::llama::layers_cmds(
                    self.config,
                    self.gpu_w->0,
                    self.gpu_acts->0,
                    start + i,
                    self.config.n_layers as nat,
                );
                super::llama::lemma_grow(so_far, seq![copied], layers);
                assert(seq![copied] + layers == self.token_cmds(start as int, i as int));
                super::llama::lemma_grow(
                    before,
                    self.tokens_cmds(start as int, from as int, i as int),
                    self.token_cmds(start as int, i as int),
                );
            }
            i += 1;
        }
    }

    /// Records the end of a chunk.
    pub(crate) fn record_close(&self, last: bool, cmds: &mut Vec<GpuCmd>)
        requires
            self.on_gpu(),
        ensures
            final(cmds)@ == old(cmds)@ + self.close_cmds(last),
    {
        let ghost before = cmds@;
        if last {
            let ga = self.gpu_acts.as_ref().unwrap();
            record_output(&self.config, self.gpu_w.as_ref().unwrap(), ga, cmds);
            let ghost output = super::record::output_cmds(
                self.config,
                self.gpu_w->0,
                self.gpu_acts->0,
            );
            let ghost recorded = cmds@;
            cmds.push(GpuCmd::SubmitWithReadback { logits: ga.logits, readback: ga.logits_rb });
            assert(cmds@ =~= recorded + seq![cmds@.last()]);
            proof {
                super::llama::lemma_grow(before, output, seq![cmds@.last()]);
            }
        } else {
            cmds.push(GpuCmd::SubmitNoReadback);
            assert(cmds@ =~= before + self.close_cmds(last));
        }
    }

    /// Records the chunk of the tokens `from..to`.
    fn record_chunk(&self, start: usize, from: usize, to: usize, n: usize, cmds: &mut Vec<GpuCmd>)
        requires
            self.on_gpu(),
            from <= to <= n,
            start + n <= usize::MAX,
            n * self.config.n_embd * 4 <= usize::MAX,
            gemv_sets(self.config.n_layers as int, to - from) <= u32::MAX,
            from < to,
        ensures
            final(cmds)@ == old(cmds)@ + self.chunk_cmds(
                start as int,
                from as int,
                to as int,
                n as int,
            ),
    {
        let ghost before = cmds@;
        let ghost tokens = to - from;
        let ghost per = self.config.n_layers * 22 + 4;
        assert(tokens <= tokens * per <= tokens * per * 2 && per <= tokens * per) by (
        nonlinear_arith)
            requires
                tokens >= 1,
                per >= 4,
        ;
        let tokens_in_chunk: u32 = (to - from) as u32;
        let ds_per_token: u32 = (self.config.n_layers as u32) * 22 + 4;
        cmds.push(GpuCmd::BeginForSets { sets: tokens_in_chunk * ds_per_token * 2 });
        let ghost begin = cmds@.last();
        assert(cmds@ =~= before + seq![begin]);
        self.record_tokens(start, from, to, n, cmds);
        self.record_close(to == n, cmds);
        proof {
            let body = self.tokens_cmds(start as int, from as int, to as int);
            super::llama::lemma_grow(before, seq![begin], body);
            super::llama::lemma_grow(before, seq![begin] + body, self.close_cmds(to == n));
        }
    }

    /// How a prompt that begins at position `start_pos` is evaluated in chunks of `chunk`
    /// tokens, one submission for each chunk. The logits are read back after the last token
    /// only.
    pub fn forward_gpu_prefill(
        &self,
        tokens: &[usize],
        start_pos: usize,
        chunk: usize,
    ) -> (plan: PrefillPlan)
        requires
            tokens@.len() > 0 ==> self.on_gpu() && self.prefill_fits(
                tokens@.len() as int,
                start_pos as int,
                at_least_one(chunk),
            ),
        ensures
            self.plans_prefill(plan, tokens@, start_pos as int, at_least_one(chunk)),
    {
        if tokens.is_empty() {
            return PrefillPlan::Zeros { len: self.config.n_vocab };
        }
        let size: usize = if chunk == 0 { 1 } else { chunk };
        let n: usize = tokens.len();
        let ghost whole = self.chunks_cmds(start_pos as int, 0, n as int, size as int);
        let mut cmds: Vec<GpuCmd> = Vec::new();
        assert(cmds@ + whole =~= whole);
        let mut from: usize = 0;
        while from < n
            invariant
                self.on_gpu(),
                self.prefill_fits(n as int, start_pos as int, size as int),
                size >= 1,
                from <= n,
                cmds@ + self.chunks_cmds(start_pos as int, from as int, n as int, size as int)
                    == whole,
            decreases n - from,
        {
            let to = end_of_chunk(from, size, n);
            let ghost before = cmds@;
            let ghost most = if size <= n { size as int } else { n as int };
            let ghost per = self.config.n_layers * 22 + 4;
            assert((to - from) * per * 2 <= most * per * 2) by (nonlinear_arith)
                requires
                    to - from <= most,
                    per >= 0,
            ;
            self.record_chunk(start_pos, from, to, n, &mut cmds);
            proof {
                super::llama::lemma_grow(
                    before,
                    self.chunk_cmds(start_pos as int, from as int, to as int, n as int),
                    self.chunks_cmds(start_pos as int, to as int, n as int, size as int),
                );
            }
            from = to;
        }
        assert(self.chunks_cmds(start_pos as int, n as int, n as int, size as int) =~= Seq::<
            GpuCmd,
        >::empty());
        assert(cmds@ =~= whole);
        let ga = self.gpu_acts.as_ref().unwrap();
        cmds.push(GpuCmd::FreeStaging);
        cmds.push(GpuCmd::ReadLogits { logits: ga.logits, readback: ga.logits_rb });
        assert(cmds@ =~= self.prefill_cmds(start_pos as int, n as int, size as int));
        PrefillPlan::Gemv { staged: staged_rows(tokens), cmds }
    }
}

/// The tokens whose embedding rows are staged.
pub(crate) fn staged_rows(tokens: &[usize]) -> (staged: Vec<usize>)
    ensures
        staged@ == tokens@,
{
    let mut staged: Vec<usize> = Vec::new();
    let mut i: usize = 0;
    while i < tokens.len()
        invariant
            i <= tokens@.len(),
            staged@ == tokens@.take(i as int),
        decreases tokens@.len() - i,
    {
        staged.push(tokens[i]);
        i += 1;
    }
    staged
}

/// Whether twice `per_token` descriptor sets for each of `tokens` tokens can be asked for.
fn within_sets(tokens: u128, per_token: u128) -> (fits: bool)
    requires
        tokens <= u64::MAX,
        per_token <= u32::MAX,
    ensures
        fits == (tokens * per_token * 2 <= u32::MAX),
{
    assert(tokens * per_token <= u64::MAX * u32::MAX) by (nonlinear_arith)
        requires
            tokens <= u64::MAX,
            per_token <= u32::MAX,
    ;
    tokens * per_token * 2 <= u32::MAX as u128
}

} // verus!
