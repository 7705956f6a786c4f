//! The dimensions of a model.
use vstd::prelude::*;

verus! {

/// The dimensions of a llama-style transformer, as the model file states them.
///
/// The two floating-point constants of a model, the epsilon of its norms and the base of its
/// rotary embedding, take part in no decision; whoever executes the recorded work adds them.
#[derive(Clone, Copy, Debug, PartialEq, Eq, Structural)]
pub struct ModelConfig {
    pub n_layers: usize,
    pub n_embd: usize,
    pub n_heads: usize,
    pub n_kv_heads: usize,
    pub n_ff: usize,
    pub n_vocab: usize,
    pub n_ctx: usize,
    /// The width of one attention head.
    pub head_dim: usize,
}

impl ModelConfig {
    /// The width of the query vector: all query heads side by side.
    pub open spec fn q_width(self) -> nat {
        (self.n_heads * self.head_dim) as nat
    }

    /// The width of a key or value vector: all key/value heads side by side.
    pub open spec fn kv_width(self) -> nat {
        (self.n_kv_heads * self.head_dim) as nat
    }

    /// The widths of one layer's vectors can be computed on this machine.
    pub open spec fn widths_fit(self) -> bool {
        self.q_width() <= usize::MAX && self.kv_width() <= usize::MAX
    }

    /// The rows of a fused query/key/value tensor can be counted on this machine.
    pub open spec fn fused_rows_fit(self) -> bool {
        self.q_width() + 2 * self.kv_width() <= usize::MAX
    }

    /// The width of one attention head.
    pub fn head_dim(&self) -> (dim: usize)
        ensures
            dim == self.head_dim,
    {
        self.head_dim
    }

    /// Whether the widths of one layer's vectors can be computed on this machine.
    pub fn check_widths(&self) -> (fit: bool)
        ensures
            fit == self.widths_fit(),
    {
        self.n_heads.checked_mul(self.head_dim).is_some() && self.n_kv_heads.checked_mul(
            self.head_dim,
        ).is_some()
    }

    /// Whether the rows of a fused query/key/value tensor can be counted on this machine.
    pub fn check_fused_rows(&self) -> (fit: bool)
        ensures
            fit == self.fused_rows_fit(),
    {
        match (
            self.n_heads.checked_mul(self.head_dim),
            self.n_kv_heads.checked_mul(self.head_dim),
        ) {
            (Some(q), Some(kv)) => q as u128 + kv as u128 * 2 <= usize::MAX as u128,
            _ => false,
        }
    }

    /// The width of the query vector.
    pub fn q_dim(&self) -> (dim: usize)
        requires
            self.widths_fit(),
        ensures
            dim == self.q_width(),
    {
        self.n_heads * self.head_dim
    }

    /// The width of a key or value vector.
    pub fn kv_dim(&self) -> (dim: usize)
        requires
            self.widths_fit(),
        ensures
            dim == self.kv_width(),
    {
        self.n_kv_heads * self.head_dim
    }
}

} // verus!
