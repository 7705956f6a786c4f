//! Placing the weights of a model on a GPU.
//!
//! A list of uploads says what is sent to the device and in which order. The device takes what
//! it has room and a kernel for; a tensor on it is named by the number of its upload.
use vstd::prelude::*;

use super::config::ModelConfig;
use super::gpu::{GpuTensor, GpuWeights};
use super::weights::{RowSpan, Weights};

verus! {

/// A weight that is sent to the device.
#[derive(Clone, Copy, Debug, PartialEq, Eq, Structural)]
pub enum Upload {
    /// A quantized tensor, as it is in the file.
    Quant { tensor: usize },
    /// Rows that were decoded to floats, as a matrix of `rows` times `cols`.
    Floats { span: RowSpan, rows: u32, cols: u32 },
}

/// How a projection of a layer is sent: its float rows, where the layer is fused.
pub open spec fn projection(
    tensor: usize,
    span: Option<RowSpan>,
    rows: nat,
    cols: usize,
) -> Upload {
    match span {
        Some(span) => Upload::Floats { span, rows: rows as u32, cols: cols as u32 },
        None => Upload::Quant { tensor },
    }
}

/// One projection of all layers.
pub open spec fn projections(
    tensors: Seq<usize>,
    spans: Seq<Option<RowSpan>>,
    rows: nat,
    cols: usize,
) -> Seq<Upload> {
    Seq::new(tensors.len(), |l: int| projection(tensors[l], spans[l], rows, cols))
}

/// Quantized tensors, one after the other.
pub open spec fn plain_uploads(tensors: Seq<usize>) -> Seq<Upload> {
    Seq::new(tensors.len(), |l: int| Upload::Quant { tensor: tensors[l] })
}

/// The weights as they are sent: the output projection, then each weight of all layers.
pub open spec fn uploads_of(w: Weights, c: ModelConfig) -> Seq<Upload> {
    seq![Upload::Quant { tensor: w.output }] + projections(
        w.attn_q@,
        w.attn_q_f32@,
        c.q_width(),
        c.n_embd,
    ) + projections(w.attn_k@, w.attn_k_f32@, c.kv_width(), c.n_embd) + projections(
        w.attn_v@,
        w.attn_v_f32@,
        c.kv_width(),
        c.n_embd,
    ) + plain_uploads(w.attn_out@) + plain_uploads(w.ffn_gate@) + plain_uploads(w.ffn_up@)
        + plain_uploads(w.ffn_down@)
}

/// The tensor that an upload left on the device.
pub open spec fn placed_one(resident: Seq<bool>, i: int) -> Option<GpuTensor> {
    if resident[i] {
        Some(GpuTensor { id: i as usize })
    } else {
        None
    }
}

/// The tensors that `n` uploads left on the device, the first of them with number `first`.
pub open spec fn placed(resident: Seq<bool>, first: nat, n: nat) -> Seq<Option<GpuTensor>> {
    Seq::new(n, |l: int| placed_one(resident, first + l))
}

impl GpuWeights {
    /// What the uploads of a model with `n` layers left on the device.
    pub open spec fn is_placed(self, resident: Seq<bool>, n: nat) -> bool {
        &&& self.output == placed_one(resident, 0)
        &&& self.fused_qkv@.len() == 0
        &&& self.attn_q@ == placed(resident, 1, n)
        &&& self.attn_k@ == placed(resident, 1 + n, n)
        &&& self.attn_v@ == placed(resident, 1 + 2 * n, n)
        &&& self.attn_out@ == placed(resident, 1 + 3 * n, n)
        &&& self.ffn_gate@ == placed(resident, 1 + 4 * n, n)
        &&& self.ffn_up@ == placed(resident, 1 + 5 * n, n)
        &&& self.ffn_down@ == placed(resident, 1 + 6 * n, n)
    }
}

fn add_projections(
    uploads: &mut Vec<Upload>,
    tensors: &Vec<usize>,
    spans: &Vec<Option<RowSpan>>,
    rows: usize,
    cols: usize,
)
    requires
        spans@.len() == tensors@.len(),
    ensures
        final(uploads)@ == old(uploads)@ + projections(tensors@, spans@, rows as nat, cols),
{
    let ghost before = uploads@;
    let mut l: usize = 0;
    while l < tensors.len()
        invariant
            spans@.len() == tensors@.len(),
            l <= tensors@.len(),
            uploads@ == before + projections(tensors@, spans@, rows as nat, cols).take(l as int),
        decreases tensors@.len() - l,
    {
        let upload = match spans[l] {
            Some(span) => Upload::Floats { span, rows: rows as u32, cols: cols as u32 },
            None => Upload::Quant { tensor: tensors[l] },
        };
        uploads.push(upload);
        l += 1;
        assert(uploads@ =~= before + projections(tensors@, spans@, rows as nat, cols).take(
            l as int,
        ));
    }
    assert(uploads@ =~= before + projections(tensors@, spans@, rows as nat, cols));
}

fn add_plain(uploads: &mut Vec<Upload>, tensors: &Vec<usize>)
    ensures
        final(uploads)@ == old(uploads)@ + plain_uploads(tensors@),
{
    let ghost before = uploads@;
    let mut l: usize = 0;
    while l < tensors.len()
        invariant
            l <= tensors@.len(),
            uploads@ == before + plain_uploads(tensors@).take(l as int),
        decreases tensors@.len() - l,
    {
        uploads.push(Upload::Quant { tensor: tensors[l] });
        l += 1;
        assert(uploads@ =~= before + plain_uploads(tensors@).take(l as int));
    }
    assert(uploads@ =~= before + plain_uploads(tensors@));
}

/// Lists what is sent to the device.
pub fn plan_uploads(w: &Weights, c: &ModelConfig) -> (uploads: Vec<Upload>)
    requires
        c.widths_fit(),
        w.covers(c.n_layers as nat),
    ensures
        uploads@ == uploads_of(*w, *c),
{
    let mut uploads: Vec<Upload> = Vec::new();
    uploads.push(Upload::Quant { tensor: w.output });
    assert(uploads@ =~= seq![Upload::Quant { tensor: w.output }]);
    add_projections(&mut uploads, &w.attn_q, &w.attn_q_f32, c.q_dim(), c.n_embd);
    add_projections(&mut uploads, &w.attn_k, &w.attn_k_f32, c.kv_dim(), c.n_embd);
    add_projections(&mut uploads, &w.attn_v, &w.attn_v_f32, c.kv_dim(), c.n_embd);
    add_plain(&mut uploads, &w.attn_out);
    add_plain(&mut uploads, &w.ffn_gate);
    add_plain(&mut uploads, &w.ffn_up);
    add_plain(&mut uploads, &w.ffn_down);
    uploads
}

fn tensor_at(resident: &Vec<bool>, i: usize) -> (tensor: Option<GpuTensor>)
    requires
        i < resident@.len(),
    ensures
        tensor == placed_one(resident@, i as int),
{
    if resident[i] {
        Some(GpuTensor { id: i })
    } else {
        None
    }
}

fn tensors_at(resident: &Vec<bool>, first: usize, n: usize) -> (tensors: Vec<Option<GpuTensor>>)
    requires
        first + n <= resident@.len(),
    ensures
        tensors@ == placed(resident@, first as nat, n as nat),
{
    let mut tensors: Vec<Option<GpuTensor>> = Vec::new();
    assert(resident@.len() == resident.len());
    let mut l: usize = 0;
    while l < n
        invariant
            first + n <= resident@.len(),
            resident@.len() <= usize::MAX,
            l <= n,
            tensors@ == placed(resident@, first as nat, l as nat),
        decreases n - l,
    {
        tensors.push(tensor_at(resident, first + l));
        l += 1;
        assert(tensors@ =~= placed(resident@, first as nat, l as nat));
    }
    tensors
}

/// The weights on the device, from what became of each upload.
pub fn place(resident: &Vec<bool>, n: usize) -> (gw: GpuWeights)
    requires
        resident@.len() == 1 + 7 * n,
    ensures
        gw.is_placed(resident@, n as nat),
        gw.covers(n as nat),
{
    assert(resident@.len() == resident.len());
    GpuWeights {
        output: tensor_at(resident, 0),
        fused_qkv: Vec::new(),
        attn_q: tensors_at(resident, 1, n),
        attn_k: tensors_at(resident, 1 + n, n),
        attn_v: tensors_at(resident, 1 + 2 * n, n),
        attn_out: tensors_at(resident, 1 + 3 * n, n),
        ffn_gate: tensors_at(resident, 1 + 4 * n, n),
        ffn_up: tensors_at(resident, 1 + 5 * n, n),
        ffn_down: tensors_at(resident, 1 + 6 * n, n),
    }
}

/// There are seven uploads for each layer, and one for the output projection.
pub proof fn law_upload_count(w: Weights, c: ModelConfig)
    requires
        w.covers(c.n_layers as nat),
    ensures
        uploads_of(w, c).len() == 1 + 7 * c.n_layers,
{
}

/// A handle names the upload of the very weight it stands for.
pub proof fn law_handles_name_their_weights(
    gw: GpuWeights,
    resident: Seq<bool>,
    w: Weights,
    c: ModelConfig,
    l: int,
)
    requires
        w.covers(c.n_layers as nat),
        gw.is_placed(resident, c.n_layers as nat),
        resident.len() == 1 + 7 * c.n_layers <= usize::MAX,
        0 <= l < c.n_layers,
    ensures
        gw.output matches Some(t) ==> uploads_of(w, c)[t.id as int] == (Upload::Quant {
            tensor: w.output,
        }),
        gw.attn_q@[l] matches Some(t) ==> uploads_of(w, c)[t.id as int] == projection(
            w.attn_q@[l],
            w.attn_q_f32@[l],
            c.q_width(),
            c.n_embd,
        ),
        gw.attn_k@[l] matches Some(t) ==> uploads_of(w, c)[t.id as int] == projection(
            w.attn_k@[l],
            w.attn_k_f32@[l],
            c.kv_width(),
            c.n_embd,
        ),
        gw.attn_v@[l] matches Some(t) ==> uploads_of(w, c)[t.id as int] == projection(
            w.attn_v@[l],
            w.attn_v_f32@[l],
            c.kv_width(),
            c.n_embd,
        ),
        gw.attn_out@[l] matches Some(t) ==> uploads_of(w, c)[t.id as int] == (Upload::Quant {
            tensor: w.attn_out@[l],
        }),
        gw.ffn_gate@[l] matches Some(t) ==> uploads_of(w, c)[t.id as int] == (Upload::Quant {
            tensor: w.ffn_gate@[l],
        }),
        gw.ffn_up@[l] matches Some(t) ==> uploads_of(w, c)[t.id as int] == (Upload::Quant {
            tensor: w.ffn_up@[l],
        }),
        gw.ffn_down@[l] matches Some(t) ==> uploads_of(w, c)[t.id as int] == (Upload::Quant {
            tensor: w.ffn_down@[l],
        }),
{
}

} // verus!
