//! What a GPU is asked to hold and to do.
//!
//! Nothing here touches a device. A buffer or a tensor on the device is named by a handle, and
//! work is a sequence of commands that whoever owns the device executes one by one.
use vstd::prelude::*;

verus! {

/// A weight tensor on the device: the upload with this number produced it.
#[derive(Clone, Copy, Debug, PartialEq, Eq, Structural)]
pub struct GpuTensor {
    pub id: usize,
}

/// An activation buffer on the device: the allocation with this number produced it.
#[derive(Clone, Copy, Debug, PartialEq, Eq, Structural)]
pub struct ActBuf {
    pub id: usize,
}

/// The weight tensors that are on the device. `None` means that a tensor could not be placed
/// there.
pub struct GpuWeights {
    pub output: Option<GpuTensor>,
    /// Fused query/key/value tensors; they are split on the host, so none is kept here.
    pub fused_qkv: Vec<Option<GpuTensor>>,
    pub attn_q: Vec<Option<GpuTensor>>,
    pub attn_k: Vec<Option<GpuTensor>>,
    pub attn_v: Vec<Option<GpuTensor>>,
    pub attn_out: Vec<Option<GpuTensor>>,
    pub ffn_gate: Vec<Option<GpuTensor>>,
    pub ffn_up: Vec<Option<GpuTensor>>,
    pub ffn_down: Vec<Option<GpuTensor>>,
}

impl GpuWeights {
    /// There is an entry for each of `n_layers` layers.
    pub open spec fn covers(self, n_layers: nat) -> bool {
        &&& self.attn_q@.len() == n_layers
        &&& self.attn_k@.len() == n_layers
        &&& self.attn_v@.len() == n_layers
        &&& self.attn_out@.len() == n_layers
        &&& self.ffn_gate@.len() == n_layers
        &&& self.ffn_up@.len() == n_layers
        &&& self.ffn_down@.len() == n_layers
    }

    /// All seven weights of layer `l` are on the device.
    pub open spec fn layer_resident(self, l: int) -> bool {
        &&& self.attn_q@[l] is Some
        &&& self.attn_k@[l] is Some
        &&& self.attn_v@[l] is Some
        &&& self.attn_out@[l] is Some
        &&& self.ffn_gate@[l] is Some
        &&& self.ffn_up@[l] is Some
        &&& self.ffn_down@[l] is Some
    }
}

/// The activation buffers on the device.
pub struct GpuActs {
    pub x: ActBuf,
    pub xn: ActBuf,
    pub q: ActBuf,
    pub k: ActBuf,
    pub v: ActBuf,
    pub attn_out: ActBuf,
    pub proj: ActBuf,
    pub gate: ActBuf,
    pub up: ActBuf,
    pub ff: ActBuf,
    pub logits: ActBuf,
    pub logits_rb: ActBuf,
    pub k_cache: Vec<ActBuf>,
    pub v_cache: Vec<ActBuf>,
    pub scores: ActBuf,
    pub ctx_len: usize,
    pub attn_norms: Vec<ActBuf>,
    pub ffn_norms: Vec<ActBuf>,
    pub out_norm: ActBuf,
    pub q_bias: Vec<Option<ActBuf>>,
    pub k_bias: Vec<Option<ActBuf>>,
    pub v_bias: Vec<Option<ActBuf>>,
    /// The batch buffers below hold this many tokens.
    pub max_batch: usize,
    pub x_batch: ActBuf,
    pub xn_batch: ActBuf,
    pub q_batch: ActBuf,
    pub k_batch: ActBuf,
    pub v_batch: ActBuf,
    pub ao_batch: ActBuf,
    pub proj_batch: ActBuf,
    pub gate_batch: ActBuf,
    pub up_batch: ActBuf,
    pub ff_batch: ActBuf,
}

impl GpuActs {
    /// There is an entry for each of `n_layers` layers.
    pub open spec fn covers(self, n_layers: nat) -> bool {
        &&& self.k_cache@.len() == n_layers
        &&& self.v_cache@.len() == n_layers
        &&& self.attn_norms@.len() == n_layers
        &&& self.ffn_norms@.len() == n_layers
        &&& self.q_bias@.len() == n_layers
        &&& self.k_bias@.len() == n_layers
        &&& self.v_bias@.len() == n_layers
    }
}

/// Where a copy into an activation buffer reads from.
#[derive(Clone, Copy, Debug, PartialEq, Eq, Structural)]
pub enum CopySource {
    /// The staged embedding rows of a prompt.
    Staging,
    /// Another activation buffer.
    Act(ActBuf),
}

/// One thing that the device is told to do. The dimensions are those that are handed to the
/// device, which takes 32-bit numbers.
#[allow(inconsistent_fields)]
#[derive(Clone, Copy, Debug, PartialEq, Eq, Structural)]
pub enum GpuCmd {
    /// Starts recording.
    Begin,
    /// Starts recording, with room for this many descriptor sets.
    BeginForSets { sets: u32 },
    /// Everything recorded so far is finished before what follows.
    Barrier,
    /// Takes a time stamp.
    Timestamp,
    /// Writes the embedding row of a token.
    UploadEmbedding { dst: ActBuf, token: usize },
    /// Copies from a byte offset of the source, filling `dst`.
    CopyToAct { dst: ActBuf, src: CopySource, offset: u64 },
    RmsNorm { src: ActBuf, weight: ActBuf, dst: ActBuf, n: u32 },
    /// Matrix times vector.
    Gemv { weight: GpuTensor, src: ActBuf, dst: ActBuf },
    /// Adds `src` to `dst`.
    Add { dst: ActBuf, src: ActBuf, n: u32 },
    Rope { q: ActBuf, k: ActBuf, n_heads: u32, n_kv_heads: u32, head_dim: u32, pos: u32 },
    KvWrite {
        k: ActBuf,
        v: ActBuf,
        k_cache: ActBuf,
        v_cache: ActBuf,
        pos: u32,
        n_kv_heads: u32,
        head_dim: u32,
    },
    Attention {
        q: ActBuf,
        k_cache: ActBuf,
        v_cache: ActBuf,
        dst: ActBuf,
        scores: ActBuf,
        n_heads: u32,
        n_kv_heads: u32,
        head_dim: u32,
        seq_len: u32,
        ctx_len: u32,
    },
    SwiGlu { gate: ActBuf, up: ActBuf, n: u32 },
    BatchRmsNorm { src: ActBuf, weight: ActBuf, dst: ActBuf, n: u32, batch: u32 },
    /// Matrix times matrix.
    Gemm { weight: GpuTensor, src: ActBuf, dst: ActBuf, batch: u32 },
    BatchBiasAdd { dst: ActBuf, bias: ActBuf, n: u32, batch: u32 },
    BatchRope {
        q: ActBuf,
        k: ActBuf,
        n_heads: u32,
        n_kv_heads: u32,
        head_dim: u32,
        pos: u32,
        batch: u32,
    },
    BatchKvWrite {
        k: ActBuf,
        v: ActBuf,
        k_cache: ActBuf,
        v_cache: ActBuf,
        pos: u32,
        n_kv_heads: u32,
        head_dim: u32,
        batch: u32,
    },
    BatchAttnItem {
        q: ActBuf,
        k_cache: ActBuf,
        v_cache: ActBuf,
        dst: ActBuf,
        scores: ActBuf,
        n_heads: u32,
        n_kv_heads: u32,
        head_dim: u32,
        seq_len: u32,
        ctx_len: u32,
        q_offset: u32,
        out_offset: u32,
    },
    BatchAdd { dst: ActBuf, src: ActBuf, n: u32, batch: u32 },
    BatchSwiGlu { gate: ActBuf, up: ActBuf, n: u32, batch: u32 },
    /// Runs what was recorded and copies the logits back to the host.
    SubmitWithReadback { logits: ActBuf, readback: ActBuf },
    /// Runs what was recorded.
    SubmitNoReadback,
    PrintTimestamps,
    /// Frees the staged embedding rows.
    FreeStaging,
    /// Hands the logits to the caller.
    ReadLogits { logits: ActBuf, readback: ActBuf },
}

impl GpuCmd {
    /// The command is a compute dispatch, which takes up a descriptor set.
    pub open spec fn dispatches(self) -> bool {
        match self {
            GpuCmd::RmsNorm { .. } => true,
            GpuCmd::Gemv { .. } => true,
            GpuCmd::Add { .. } => true,
            GpuCmd::Rope { .. } => true,
            GpuCmd::KvWrite { .. } => true,
            GpuCmd::Attention { .. } => true,
            GpuCmd::SwiGlu { .. } => true,
            GpuCmd::BatchRmsNorm { .. } => true,
            GpuCmd::Gemm { .. } => true,
            GpuCmd::BatchBiasAdd { .. } => true,
            GpuCmd::BatchRope { .. } => true,
            GpuCmd::BatchKvWrite { .. } => true,
            GpuCmd::BatchAttnItem { .. } => true,
            GpuCmd::BatchAdd { .. } => true,
            GpuCmd::BatchSwiGlu { .. } => true,
            _ => false,
        }
    }

    /// The command hands the recorded work to the device.
    pub open spec fn submits(self) -> bool {
        self is SubmitWithReadback || self is SubmitNoReadback
    }

    /// The command opens or closes a recording: everything else is work on data.
    pub open spec fn frames(self) -> bool {
        self is Begin || self is BeginForSets || self is SubmitNoReadback
    }
}

} // verus!
