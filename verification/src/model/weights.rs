//! Where the weights of a model come from.
use vstd::prelude::*;

verus! {

/// Rows `start..end` of a tensor, decoded to floats.
#[derive(Clone, Copy, Debug, PartialEq, Eq, Structural)]
pub struct RowSpan {
    pub tensor: usize,
    pub start: usize,
    pub end: usize,
}

/// A whole tensor decoded to floats: the number of the decoding that produced it, and how many
/// floats there are.
#[derive(Clone, Copy, Debug, PartialEq, Eq, Structural)]
pub struct FloatVec {
    pub fetch: usize,
    pub len: usize,
}

/// The weights of a model. A quantized tensor is named by its place in the tensor directory of
/// the model file.
pub struct Weights {
    pub token_embd: usize,
    pub output_norm: FloatVec,
    pub output: usize,
    pub attn_norm: Vec<FloatVec>,
    pub ffn_norm: Vec<FloatVec>,
    pub attn_q: Vec<usize>,
    pub attn_k: Vec<usize>,
    pub attn_v: Vec<usize>,
    pub attn_out: Vec<usize>,
    pub ffn_gate: Vec<usize>,
    pub ffn_up: Vec<usize>,
    pub ffn_down: Vec<usize>,
    pub attn_q_bias: Vec<Option<FloatVec>>,
    pub attn_k_bias: Vec<Option<FloatVec>>,
    pub attn_v_bias: Vec<Option<FloatVec>>,
    /// Float rows of a fused query/key/value tensor; `None` means that the quantized tensor is
    /// used.
    pub attn_q_f32: Vec<Option<RowSpan>>,
    pub attn_k_f32: Vec<Option<RowSpan>>,
    pub attn_v_f32: Vec<Option<RowSpan>>,
}

impl Weights {
    /// There is an entry for each of `n_layers` layers.
    pub open spec fn covers(self, n_layers: nat) -> bool {
        &&& self.attn_norm@.len() == n_layers
        &&& self.ffn_norm@.len() == n_layers
        &&& self.attn_q@.len() == n_layers
        &&& self.attn_k@.len() == n_layers
        &&& self.attn_v@.len() == n_layers
        &&& self.attn_out@.len() == n_layers
        &&& self.ffn_gate@.len() == n_layers
        &&& self.ffn_up@.len() == n_layers
        &&& self.ffn_down@.len() == n_layers
        &&& self.attn_q_bias@.len() == n_layers
        &&& self.attn_k_bias@.len() == n_layers
        &&& self.attn_v_bias@.len() == n_layers
        &&& self.attn_q_f32@.len() == n_layers
        &&& self.attn_k_f32@.len() == n_layers
        &&& self.attn_v_f32@.len() == n_layers
    }
}

} // verus!
