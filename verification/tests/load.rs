use gguf_serve::model::acts::{check_acts, plan_acts, Alloc};
use gguf_serve::model::config::ModelConfig;
use gguf_serve::model::directory::{layer_tensor_name, TensorDirectory};
use gguf_serve::model::gpu::{ActBuf, GpuTensor};
use gguf_serve::model::llama::LlamaModel;
use gguf_serve::model::load::{check_splits, plan_load, Fetch, LoadError, LoadPlan};
use gguf_serve::model::loading::{device_after, DeviceOutcome};
use gguf_serve::model::settle::{next_fetch, settle};
use gguf_serve::model::slots::{has_fused_qkv, names_of, Slot};
use gguf_serve::model::uploads::{place, plan_uploads, Upload};
use gguf_serve::model::weights::{FloatVec, RowSpan, Weights};

fn strings(items: &[&str]) -> Vec<String> {
    items.iter().map(|s| s.to_string()).collect()
}

fn config(n_layers: usize) -> ModelConfig {
    ModelConfig {
        n_layers,
        n_embd: 4,
        n_heads: 2,
        n_kv_heads: 1,
        n_ff: 8,
        n_vocab: 10,
        n_ctx: 16,
        head_dim: 2,
    }
}

fn directory(names: &[&str]) -> TensorDirectory {
    TensorDirectory { names: strings(names) }
}

// Directory places: 0 token_embd, 1 output_norm, 2 output, then the layer.
fn one_layer() -> TensorDirectory {
    directory(&[
        "token_embd.weight",
        "output_norm.weight",
        "output.weight",
        "blk.0.attn_norm.weight",
        "blk.0.ffn_norm.weight",
        "blk.0.attn_q.weight",
        "blk.0.attn_k.weight",
        "blk.0.attn_v.weight",
        "blk.0.attn_output.weight",
        "blk.0.ffn_gate.weight",
        "blk.0.ffn_up.weight",
        "blk.0.ffn_down.weight",
    ])
}

fn fused_layer() -> TensorDirectory {
    directory(&[
        "token_embd.weight",
        "output_norm.weight",
        "blk.0.pre_attention_layernorm.weight",
        "blk.0.pre_ff_layernorm.weight",
        "blk.0.attn_qkv.weight",
        "blk.0.self_attn.o_proj.weight",
        "blk.0.mlp.gate_proj.weight",
        "blk.0.mlp.up_proj.weight",
        "blk.0.mlp.down_proj.weight",
        "blk.0.attn_q.bias",
        "blk.0.attn_v.bias",
    ])
}

fn weights_of(plan: LoadPlan, decoded: &Vec<Result<usize, String>>) -> Weights {
    match settle(plan, decoded) {
        Ok(w) => w,
        Err(e) => panic!("{}", e.message()),
    }
}

fn fused_weights() -> Weights {
    let plan = plan_load(&fused_layer(), &config(1));
    weights_of(plan, &vec![Ok(4), Ok(4), Ok(4), Ok(4), Err("bad block".to_string())])
}

#[test]
fn last_tensor_of_a_name_counts() {
    let dir = directory(&["a", "b", "a"]);
    assert_eq!(dir.find("a"), Some(2));
    assert_eq!(dir.find("b"), Some(1));
    assert_eq!(dir.find("c"), None);
    assert_eq!(dir.find_any(&strings(&["c", "b", "a"])), Some(1));
    assert_eq!(dir.find_any(&strings(&["c"])), None);
}

#[test]
fn similar_names_share_the_first_two_parts() {
    let dir = directory(&["blk.1.b", "blk.1.a", "blk.10.a", "blk.2.a", "output.weight", "blk.1.a"]);
    assert_eq!(dir.similar_names("blk.1.attn_q.weight"), strings(&["blk.1.a", "blk.1.b", "blk.10.a"]));
    assert_eq!(dir.similar_names("output.weight"), strings(&["output.weight"]));
    assert_eq!(dir.similar_names("none"), strings(&[]));
}

#[test]
fn at_most_eight_similar_names_are_listed() {
    let names: Vec<String> = (0..12).map(|i| format!("blk.0.t{}", i)).collect();
    let dir = TensorDirectory { names };
    assert_eq!(dir.similar_names("blk.0.x").len(), 8);
}

#[test]
fn layer_names_carry_the_layer() {
    assert_eq!(layer_tensor_name(0, "attn_q.weight"), "blk.0.attn_q.weight");
    assert_eq!(layer_tensor_name(31, "ffn_up.weight"), "blk.31.ffn_up.weight");
    assert_ne!(layer_tensor_name(1, "1.x"), layer_tensor_name(11, "x"));
}

#[test]
fn slots_have_their_names() {
    assert_eq!(
        names_of(3, Slot::FfnNorm, false),
        strings(&[
            "blk.3.ffn_norm.weight",
            "blk.3.post_attention_layernorm.weight",
            "blk.3.post_attention_norm.weight",
            "blk.3.pre_ff_layernorm.weight",
        ])
    );
    assert_eq!(
        names_of(0, Slot::Key, false),
        strings(&["blk.0.attn_k.weight", "blk.0.self_attn.k_proj.weight"])
    );
    assert_eq!(names_of(0, Slot::Key, true), strings(&["blk.0.attn_qkv.weight"]));
}

#[test]
fn fused_layers_are_told_apart() {
    assert!(has_fused_qkv(&fused_layer(), 0));
    assert!(!has_fused_qkv(&one_layer(), 0));
    let all = directory(&[
        "blk.0.attn_qkv.weight",
        "blk.0.attn_q.weight",
        "blk.0.self_attn.k_proj.weight",
        "blk.0.attn_v.weight",
    ]);
    assert!(!has_fused_qkv(&all, 0));
    assert!(!has_fused_qkv(&directory(&["blk.0.attn_q.weight"]), 0));
}

// The fused layer with some of the separate tensors beside the fused one.
fn partly_separate(separate: &[&str]) -> TensorDirectory {
    let mut dir = fused_layer();
    dir.names.extend(strings(separate));
    dir
}

fn assert_fused(dir: &TensorDirectory) {
    assert!(has_fused_qkv(dir, 0));
    let plan = plan_load(dir, &config(1));
    let decoded: Vec<Result<usize, String>> = vec![Ok(4); plan.fetches.len()];
    let w = weights_of(plan, &decoded);
    assert_eq!((w.attn_q, w.attn_k, w.attn_v), (vec![4], vec![4], vec![4]));
    assert_eq!(w.attn_q_f32, vec![Some(RowSpan { tensor: 4, start: 0, end: 4 })]);
    assert_eq!(w.attn_k_f32, vec![Some(RowSpan { tensor: 4, start: 4, end: 6 })]);
    assert_eq!(w.attn_v_f32, vec![Some(RowSpan { tensor: 4, start: 6, end: 8 })]);
}

#[test]
fn fused_tensor_serves_where_only_a_projection_is_separate() {
    assert_fused(&partly_separate(&["blk.0.self_attn.q_proj.weight"]));
    assert_fused(&partly_separate(&[
        "blk.0.self_attn.q_proj.weight",
        "blk.0.self_attn.k_proj.weight",
    ]));
}

#[test]
fn fused_tensor_serves_where_only_a_query_is_separate() {
    assert_fused(&partly_separate(&["blk.0.attn_q.weight"]));
    assert_fused(&partly_separate(&["blk.0.attn_q.weight", "blk.0.attn_v.weight"]));
}

#[test]
fn separate_tensors_may_lack_a_fused_one_only_together() {
    let mut dir = one_layer();
    dir.names.retain(|n| n != "blk.0.attn_k.weight");
    assert!(plan_load(&dir, &config(1)).found.is_err());
    dir.names.push("blk.0.attn_qkv.weight".to_string());
    assert!(plan_load(&dir, &config(1)).found.is_ok());
}

#[test]
fn only_fused_layers_have_to_be_countable() {
    let mut c = config(1);
    c.n_heads = usize::MAX / 2;
    c.n_kv_heads = usize::MAX / 2;
    c.head_dim = 1;
    assert!(c.check_widths());
    assert!(!c.check_fused_rows());
    assert!(check_splits(&one_layer(), &c));
    assert!(!check_splits(&fused_layer(), &c));
    assert!(check_splits(&fused_layer(), &config(1)));
}

#[test]
fn model_goes_to_a_device_that_starts() {
    assert!(device_after(true, false));
    assert!(!device_after(true, true));
    assert!(!device_after(false, false));
}

#[test]
fn separate_projections_come_before_a_fused_tensor() {
    let dir = directory(&[
        "token_embd.weight",
        "output_norm.weight",
        "blk.0.attn_norm.weight",
        "blk.0.ffn_norm.weight",
        "blk.0.attn_qkv.weight",
        "blk.0.self_attn.q_proj.weight",
        "blk.0.self_attn.k_proj.weight",
        "blk.0.self_attn.v_proj.weight",
        "blk.0.attn_output.weight",
        "blk.0.ffn_gate.weight",
        "blk.0.ffn_up.weight",
        "blk.0.ffn_down.weight",
    ]);
    assert!(!has_fused_qkv(&dir, 0));
    let w = weights_of(plan_load(&dir, &config(1)), &vec![Ok(4), Ok(4), Ok(4)]);
    assert_eq!(w.attn_q, vec![5]);
    assert_eq!(w.attn_k, vec![6]);
    assert_eq!(w.attn_v, vec![7]);
    assert_eq!(w.attn_q_f32, vec![None]);
    assert_eq!(w.attn_k_f32, vec![None]);
    assert_eq!(w.attn_v_f32, vec![None]);
}

fn assert_same(before: &Weights, after: &Weights, p: usize) {
    let moved = |t: &usize| if *t >= p { *t + 1 } else { *t };
    let all = |ts: &Vec<usize>| ts.iter().map(moved).collect::<Vec<usize>>();
    assert_eq!(after.token_embd, moved(&before.token_embd));
    assert_eq!(after.output, moved(&before.output));
    assert_eq!(after.output_norm, before.output_norm);
    assert_eq!(after.attn_norm, before.attn_norm);
    assert_eq!(after.ffn_norm, before.ffn_norm);
    assert_eq!(after.attn_q, all(&before.attn_q));
    assert_eq!(after.attn_k, all(&before.attn_k));
    assert_eq!(after.attn_v, all(&before.attn_v));
    assert_eq!(after.attn_out, all(&before.attn_out));
    assert_eq!(after.ffn_gate, all(&before.ffn_gate));
    assert_eq!(after.ffn_up, all(&before.ffn_up));
    assert_eq!(after.ffn_down, all(&before.ffn_down));
    assert_eq!(after.attn_q_bias, before.attn_q_bias);
    assert_eq!(after.attn_q_f32, before.attn_q_f32);
}

#[test]
fn later_alias_changes_nothing() {
    let decoded: Vec<Result<usize, String>> = vec![Ok(4), Ok(4), Ok(4)];
    let before = weights_of(plan_load(&one_layer(), &config(1)), &decoded);
    let later = [
        "blk.0.pre_attention_layernorm.weight",
        "blk.0.post_attention_norm.weight",
        "blk.0.self_attn.q_proj.weight",
        "blk.0.attn_qkv.weight",
        "blk.0.self_attn.v_proj.weight",
        "blk.0.mlp.down_proj.weight",
    ];
    for alias in later {
        for p in [0, 4, 12] {
            let mut dir = one_layer();
            dir.names.insert(p, alias.to_string());
            let plan = plan_load(&dir, &config(1));
            let first: usize = if p <= 1 { 2 } else { 1 };
            assert_eq!(plan.fetches[0], Fetch { tensor: first, required: true });
            assert_same(&before, &weights_of(plan, &decoded), p);
        }
    }
}

#[test]
fn plan_lists_what_is_decoded() {
    let plan = plan_load(&one_layer(), &config(1));
    assert_eq!(
        plan.fetches,
        vec![
            Fetch { tensor: 1, required: true },
            Fetch { tensor: 3, required: true },
            Fetch { tensor: 4, required: true },
        ]
    );
    let w = weights_of(plan, &vec![Ok(4), Ok(4), Ok(4)]);
    assert_eq!(w.token_embd, 0);
    assert_eq!(w.output, 2);
    assert_eq!(w.output_norm, FloatVec { fetch: 0, len: 4 });
    assert_eq!(w.attn_norm, vec![FloatVec { fetch: 1, len: 4 }]);
    assert_eq!(w.ffn_norm, vec![FloatVec { fetch: 2, len: 4 }]);
    assert_eq!(w.attn_q, vec![5]);
    assert_eq!(w.attn_k, vec![6]);
    assert_eq!(w.attn_v, vec![7]);
    assert_eq!(w.attn_out, vec![8]);
    assert_eq!(w.ffn_gate, vec![9]);
    assert_eq!(w.ffn_up, vec![10]);
    assert_eq!(w.ffn_down, vec![11]);
    assert_eq!(w.attn_q_bias, vec![None]);
    assert_eq!(w.attn_q_f32, vec![None]);
}

#[test]
fn fused_layer_is_split_by_rows() {
    let w = fused_weights();
    // Without an output projection the token embedding serves as one.
    assert_eq!(w.output, 0);
    assert_eq!(w.attn_q, vec![4]);
    assert_eq!(w.attn_k, vec![4]);
    assert_eq!(w.attn_v, vec![4]);
    assert_eq!(w.attn_q_f32, vec![Some(RowSpan { tensor: 4, start: 0, end: 4 })]);
    assert_eq!(w.attn_k_f32, vec![Some(RowSpan { tensor: 4, start: 4, end: 6 })]);
    assert_eq!(w.attn_v_f32, vec![Some(RowSpan { tensor: 4, start: 6, end: 8 })]);
}

#[test]
fn bias_that_cannot_be_decoded_is_left_out() {
    let w = fused_weights();
    assert_eq!(w.attn_q_bias, vec![Some(FloatVec { fetch: 3, len: 4 })]);
    assert_eq!(w.attn_k_bias, vec![None]);
    assert_eq!(w.attn_v_bias, vec![None]);
}

#[test]
fn required_vector_that_cannot_be_decoded_ends_loading() {
    let plan = plan_load(&one_layer(), &config(1));
    let outcome = settle(plan, &vec![Ok(4), Err("unknown type".to_string())]);
    match outcome {
        Err(LoadError::Undecodable { fetch, reason }) => {
            assert_eq!(fetch, 1);
            assert_eq!(reason, "unknown type");
        }
        _ => panic!("loaded"),
    }
}

#[test]
fn decoding_stops_at_a_required_failure() {
    let fetches = plan_load(&fused_layer(), &config(1)).fetches;
    assert_eq!(fetches.len(), 5);
    let mut decoded: Vec<Result<usize, String>> = vec![];
    while let Some(f) = next_fetch(&fetches, &decoded) {
        assert_eq!(f, fetches[decoded.len()]);
        decoded.push(if f.required { Ok(4) } else { Err("no".to_string()) });
    }
    assert_eq!(decoded.len(), 5);
    let short = vec![Ok(4), Err("no".to_string())];
    assert_eq!(next_fetch(&fetches, &short), None);
}

#[test]
fn missing_embedding_is_reported() {
    let plan = plan_load(&directory(&["token_embd.bias", "other"]), &config(1));
    assert_eq!(plan.fetches, vec![]);
    match settle(plan, &vec![]) {
        Err(e) => {
            assert!(matches!(e, LoadError::Missing { .. }));
            assert_eq!(e.message(), "Missing tensor: token_embd.weight\n  Similar: ");
        }
        Ok(_) => panic!("loaded"),
    }
}

#[test]
fn missing_output_norm_is_reported() {
    let plan = plan_load(&directory(&["token_embd.weight"]), &config(0));
    match settle(plan, &vec![]) {
        Err(e) => assert_eq!(e.message(), "Missing tensor: output_norm.weight\n  Similar: "),
        Ok(_) => panic!("loaded"),
    }
}

#[test]
fn missing_layer_weight_names_what_was_tried() {
    let mut dir = one_layer();
    dir.names.remove(6);
    let plan = plan_load(&dir, &config(1));
    assert_eq!(plan.fetches.len(), 3);
    match settle(plan, &vec![Ok(4), Ok(4), Ok(4)]) {
        Err(e) => {
            assert!(matches!(e, LoadError::MissingAny { .. }));
            assert_eq!(
                e.message(),
                "Missing tensor (tried: blk.0.attn_k.weight, blk.0.self_attn.k_proj.weight)\n  \
                 Similar: blk.0.attn_norm.weight, blk.0.attn_output.weight, blk.0.attn_q.weight, \
                 blk.0.attn_v.weight, blk.0.ffn_down.weight, blk.0.ffn_gate.weight, \
                 blk.0.ffn_norm.weight, blk.0.ffn_up.weight"
            );
        }
        Ok(_) => panic!("loaded"),
    }
}

#[test]
fn decoding_failure_comes_before_a_later_gap() {
    let mut dir = one_layer();
    dir.names.remove(6);
    let plan = plan_load(&dir, &config(1));
    let outcome = settle(plan, &vec![Ok(4), Ok(4), Err("short".to_string())]);
    assert!(matches!(outcome, Err(LoadError::Undecodable { fetch: 2, .. })));
}

#[test]
fn uploads_follow_the_order_of_the_weights() {
    let w = fused_weights();
    let uploads = plan_uploads(&w, &config(1));
    assert_eq!(
        uploads,
        vec![
            Upload::Quant { tensor: 0 },
            Upload::Floats { span: RowSpan { tensor: 4, start: 0, end: 4 }, rows: 4, cols: 4 },
            Upload::Floats { span: RowSpan { tensor: 4, start: 4, end: 6 }, rows: 2, cols: 4 },
            Upload::Floats { span: RowSpan { tensor: 4, start: 6, end: 8 }, rows: 2, cols: 4 },
            Upload::Quant { tensor: 5 },
            Upload::Quant { tensor: 6 },
            Upload::Quant { tensor: 7 },
            Upload::Quant { tensor: 8 },
        ]
    );
}

#[test]
fn uploads_that_the_device_refused_have_no_handle() {
    let gw = place(&vec![true, true, false, true, true, true, true, false], 1);
    assert_eq!(gw.output, Some(GpuTensor { id: 0 }));
    assert_eq!(gw.attn_q, vec![Some(GpuTensor { id: 1 })]);
    assert_eq!(gw.attn_k, vec![None]);
    assert_eq!(gw.attn_v, vec![Some(GpuTensor { id: 3 })]);
    assert_eq!(gw.ffn_up, vec![Some(GpuTensor { id: 6 })]);
    assert_eq!(gw.ffn_down, vec![None]);
    assert_eq!(gw.fused_qkv, vec![]);
}

#[test]
fn buffers_have_their_sizes() {
    let w = fused_weights();
    let c = config(1);
    assert!(check_acts(&w, &c, 16));
    let plan = plan_acts(&w, &c, 16);
    let bytes: Vec<u64> = plan.allocs.iter().map(|a| a.bytes).collect();
    assert_eq!(
        bytes,
        vec![
            128, 128, // caches: 16 positions of 2 floats
            128, // scores: 2 heads of 16 positions
            16, 16, 16, // norms
            16, // query bias
            16, 16, 16, 8, 8, 16, 16, 32, 32, 16, 40, 40, // one token
            256, 256, 256, 128, 128, 256, 256, 512, 512, 256, // 16 tokens
        ]
    );
    assert_eq!(plan.acts.k_cache, vec![ActBuf { id: 0 }]);
    assert_eq!(plan.acts.v_cache, vec![ActBuf { id: 1 }]);
    assert_eq!(plan.acts.scores, ActBuf { id: 2 });
    assert_eq!(plan.acts.out_norm, ActBuf { id: 5 });
    assert_eq!(plan.acts.q_bias, vec![Some(ActBuf { id: 6 })]);
    assert_eq!(plan.acts.k_bias, vec![None]);
    assert_eq!(plan.acts.x, ActBuf { id: 7 });
    assert_eq!(plan.acts.logits_rb, ActBuf { id: 18 });
    assert_eq!(plan.acts.ff_batch, ActBuf { id: 28 });
    assert_eq!(plan.acts.ctx_len, 16);
    assert_eq!(plan.acts.max_batch, 16);
    assert_eq!(
        plan.allocs[3],
        Alloc { bytes: 16, readback: false, init: Some(FloatVec { fetch: 1, len: 4 }) }
    );
    assert_eq!(plan.allocs[18], Alloc { bytes: 40, readback: true, init: None });
}

#[test]
fn batch_buffers_hold_at_most_512_tokens() {
    let w = fused_weights();
    let plan = plan_acts(&w, &config(1), 4096);
    assert_eq!(plan.acts.max_batch, 512);
    assert_eq!(plan.allocs[plan.acts.gate_batch.id].bytes, 512 * 8 * 4);
    assert_eq!(plan.allocs[plan.acts.k_cache[0].id].bytes, 4096 * 2 * 4);
}

#[test]
fn buffers_that_cannot_be_sized_are_refused() {
    let w = fused_weights();
    assert!(!check_acts(&w, &config(1), usize::MAX));
    let mut wide = config(1);
    wide.head_dim = usize::MAX;
    assert!(!check_acts(&w, &wide, 16));
    assert!(!wide.check_widths());
    assert!(!wide.check_fused_rows());
    wide.head_dim = usize::MAX / 2;
    wide.n_heads = 1;
    assert!(wide.check_widths());
    assert!(!wide.check_fused_rows());
}

#[test]
fn model_without_a_device_has_no_handles() {
    match LlamaModel::load(config(1), fused_weights(), 16, None) {
        Ok(m) => {
            assert!(m.gpu_w.is_none());
            assert!(m.gpu_acts.is_none());
            assert_eq!(m.config, config(1));
        }
        Err(e) => panic!("{}", e.message()),
    }
}

#[test]
fn model_on_a_device_has_both_kinds_of_handles() {
    let device = DeviceOutcome { resident: vec![true; 8], failure: None };
    match LlamaModel::load(config(1), fused_weights(), 16, Some(&device)) {
        Ok(m) => {
            assert_eq!(m.gpu_w.unwrap().ffn_down, vec![Some(GpuTensor { id: 7 })]);
            assert_eq!(m.gpu_acts.unwrap().x, ActBuf { id: 7 });
        }
        Err(e) => panic!("{}", e.message()),
    }
}

#[test]
fn failed_allocation_ends_loading() {
    let device = DeviceOutcome {
        resident: vec![true; 8],
        failure: Some("out of memory".to_string()),
    };
    match LlamaModel::load(config(1), fused_weights(), 16, Some(&device)) {
        Err(e) => {
            assert!(matches!(e, LoadError::Device { .. }));
            assert_eq!(e.message(), "out of memory");
        }
        Ok(_) => panic!("loaded"),
    }
}
