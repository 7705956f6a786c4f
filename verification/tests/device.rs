use gguf_serve::model::config::ModelConfig;
use gguf_serve::model::gpu::{ActBuf, CopySource, GpuActs, GpuCmd, GpuTensor};
use gguf_serve::model::llama::LlamaModel;
use gguf_serve::model::loading::DeviceOutcome;
use gguf_serve::model::prefill::PrefillPlan;
use gguf_serve::model::weights::{FloatVec, Weights};

fn config(n_layers: usize) -> ModelConfig {
    ModelConfig {
        n_layers,
        n_embd: 4,
        n_heads: 2,
        n_kv_heads: 1,
        n_ff: 8,
        n_vocab: 10,
        n_ctx: 16,
        head_dim: 2,
    }
}

fn weights(n_layers: usize, biased: bool) -> Weights {
    let vec4 = |i: usize| FloatVec { fetch: i, len: 4 };
    let tensors = |base: usize| (0..n_layers).map(|l| base + 10 * l).collect::<Vec<usize>>();
    Weights {
        token_embd: 0,
        output_norm: vec4(0),
        output: 1,
        attn_norm: (0..n_layers).map(vec4).collect(),
        ffn_norm: (0..n_layers).map(vec4).collect(),
        attn_q: tensors(2),
        attn_k: tensors(3),
        attn_v: tensors(4),
        attn_out: tensors(5),
        ffn_gate: tensors(6),
        ffn_up: tensors(7),
        ffn_down: tensors(8),
        attn_q_bias: (0..n_layers).map(|l| if biased { Some(vec4(l)) } else { None }).collect(),
        attn_k_bias: vec![None; n_layers],
        attn_v_bias: vec![None; n_layers],
        attn_q_f32: vec![None; n_layers],
        attn_k_f32: vec![None; n_layers],
        attn_v_f32: vec![None; n_layers],
    }
}

fn model(n_layers: usize, biased: bool, resident: Vec<bool>) -> LlamaModel {
    let device = DeviceOutcome { resident, failure: None };
    match LlamaModel::load(config(n_layers), weights(n_layers, biased), 16, Some(&device)) {
        Ok(m) => m,
        Err(e) => panic!("{}", e.message()),
    }
}

fn whole(n_layers: usize) -> LlamaModel {
    model(n_layers, false, vec![true; 1 + 7 * n_layers])
}

fn acts(m: &LlamaModel) -> &GpuActs {
    m.gpu_acts.as_ref().unwrap()
}

fn count(cmds: &[GpuCmd], keep: fn(&GpuCmd) -> bool) -> usize {
    cmds.iter().filter(|c| keep(c)).count()
}

fn is_gemv(c: &GpuCmd) -> bool {
    matches!(c, GpuCmd::Gemv { .. })
}

fn is_gemm(c: &GpuCmd) -> bool {
    matches!(c, GpuCmd::Gemm { .. })
}

fn is_submit(c: &GpuCmd) -> bool {
    matches!(c, GpuCmd::SubmitWithReadback { .. } | GpuCmd::SubmitNoReadback)
}

fn is_begin(c: &GpuCmd) -> bool {
    matches!(c, GpuCmd::BeginForSets { .. })
}

fn is_barrier(c: &GpuCmd) -> bool {
    matches!(c, GpuCmd::Barrier)
}

fn is_work(c: &GpuCmd) -> bool {
    !matches!(
        c,
        GpuCmd::Begin | GpuCmd::BeginForSets { .. } | GpuCmd::SubmitNoReadback
    )
}

fn dispatches(c: &GpuCmd) -> bool {
    !matches!(
        c,
        GpuCmd::Begin
            | GpuCmd::BeginForSets { .. }
            | GpuCmd::Barrier
            | GpuCmd::Timestamp
            | GpuCmd::UploadEmbedding { .. }
            | GpuCmd::CopyToAct { .. }
            | GpuCmd::SubmitWithReadback { .. }
            | GpuCmd::SubmitNoReadback
            | GpuCmd::PrintTimestamps
            | GpuCmd::FreeStaging
            | GpuCmd::ReadLogits { .. }
    )
}

fn gemv(m: &LlamaModel, tokens: &[usize], chunk: usize) -> Vec<GpuCmd> {
    match m.forward_gpu_prefill(tokens, 0, chunk) {
        PrefillPlan::Gemv { staged, cmds } => {
            assert_eq!(staged, tokens.to_vec());
            cmds
        }
        _ => panic!("not one by one"),
    }
}

fn gemm(m: &LlamaModel, tokens: &[usize], chunk: usize) -> Vec<GpuCmd> {
    match m.forward_gpu_prefill_gemm(tokens, 0, chunk) {
        PrefillPlan::Gemm { staged, cmds } => {
            assert_eq!(staged, tokens.to_vec());
            cmds
        }
        _ => panic!("not in batches"),
    }
}

#[test]
fn one_token_on_the_device() {
    let m = whole(1);
    let a = acts(&m);
    let t = |id: usize| GpuTensor { id };
    let cmds = m.forward_gpu(7, 3);
    assert_eq!(
        cmds,
        vec![
            GpuCmd::Begin,
            GpuCmd::UploadEmbedding { dst: a.x, token: 7 },
            GpuCmd::Timestamp,
            GpuCmd::RmsNorm { src: a.x, weight: a.attn_norms[0], dst: a.xn, n: 4 },
            GpuCmd::Barrier,
            GpuCmd::Timestamp,
            GpuCmd::Gemv { weight: t(1), src: a.xn, dst: a.q },
            GpuCmd::Gemv { weight: t(2), src: a.xn, dst: a.k },
            GpuCmd::Gemv { weight: t(3), src: a.xn, dst: a.v },
            GpuCmd::Barrier,
            GpuCmd::Timestamp,
            GpuCmd::Rope { q: a.q, k: a.k, n_heads: 2, n_kv_heads: 1, head_dim: 2, pos: 3 },
            GpuCmd::Barrier,
            GpuCmd::KvWrite {
                k: a.k,
                v: a.v,
                k_cache: a.k_cache[0],
                v_cache: a.v_cache[0],
                pos: 3,
                n_kv_heads: 1,
                head_dim: 2,
            },
            GpuCmd::Barrier,
            GpuCmd::Attention {
                q: a.q,
                k_cache: a.k_cache[0],
                v_cache: a.v_cache[0],
                dst: a.attn_out,
                scores: a.scores,
                n_heads: 2,
                n_kv_heads: 1,
                head_dim: 2,
                seq_len: 4,
                ctx_len: 16,
            },
            GpuCmd::Barrier,
            GpuCmd::Timestamp,
            GpuCmd::Gemv { weight: t(4), src: a.attn_out, dst: a.proj },
            GpuCmd::Barrier,
            GpuCmd::Add { dst: a.x, src: a.proj, n: 4 },
            GpuCmd::Barrier,
            GpuCmd::RmsNorm { src: a.x, weight: a.ffn_norms[0], dst: a.xn, n: 4 },
            GpuCmd::Barrier,
            GpuCmd::Gemv { weight: t(5), src: a.xn, dst: a.gate },
            GpuCmd::Gemv { weight: t(6), src: a.xn, dst: a.up },
            GpuCmd::Barrier,
            GpuCmd::Timestamp,
            GpuCmd::SwiGlu { gate: a.gate, up: a.up, n: 8 },
            GpuCmd::Barrier,
            GpuCmd::Gemv { weight: t(7), src: a.gate, dst: a.ff },
            GpuCmd::Barrier,
            GpuCmd::Timestamp,
            GpuCmd::Add { dst: a.x, src: a.ff, n: 4 },
            GpuCmd::Timestamp,
            GpuCmd::RmsNorm { src: a.x, weight: a.out_norm, dst: a.xn, n: 4 },
            GpuCmd::Barrier,
            GpuCmd::Gemv { weight: t(0), src: a.xn, dst: a.logits },
            GpuCmd::Timestamp,
            GpuCmd::SubmitWithReadback { logits: a.logits, readback: a.logits_rb },
            GpuCmd::PrintTimestamps,
            GpuCmd::ReadLogits { logits: a.logits, readback: a.logits_rb },
        ]
    );
}

#[test]
fn only_the_first_layer_is_timed_and_only_the_last_has_no_barrier() {
    let m = whole(2);
    let cmds = m.forward_gpu(0, 0);
    assert_eq!(count(&cmds, |c| matches!(c, GpuCmd::Timestamp)), 8);
    let last_add = cmds.iter().rposition(|c| matches!(c, GpuCmd::Add { .. })).unwrap();
    assert_eq!(cmds[last_add + 1], GpuCmd::Timestamp);
    assert_eq!(count(&cmds, is_gemv), 15);
}

#[test]
fn biases_are_added_with_a_barrier() {
    let m = model(1, true, vec![true; 8]);
    let a = acts(&m);
    let cmds = m.forward_gpu(0, 0);
    let at = cmds
        .iter()
        .position(|c| *c == GpuCmd::Add { dst: a.q, src: a.q_bias[0].unwrap(), n: 4 })
        .unwrap();
    assert_eq!(cmds[at + 1], GpuCmd::Barrier);
    let plain = whole(1).forward_gpu(0, 0);
    assert_eq!(count(&cmds, is_barrier), count(&plain, is_barrier) + 1);
}

#[test]
fn weights_that_are_not_on_the_device_are_skipped() {
    let m = model(1, false, vec![false, true, true, true, true, true, true, false]);
    let cmds = m.forward_gpu(0, 0);
    assert_eq!(count(&cmds, is_gemv), 6);
}

#[test]
fn no_tokens_give_zeros() {
    let m = whole(1);
    assert!(matches!(m.forward_gpu_prefill(&[], 0, 4), PrefillPlan::Zeros { len: 10 }));
    assert!(matches!(m.forward_gpu_prefill_gemm(&[], 0, 4), PrefillPlan::Zeros { len: 10 }));
}

#[test]
fn prompt_is_submitted_once_per_chunk() {
    let m = whole(2);
    let tokens: Vec<usize> = (0..7).collect();
    let cmds = gemv(&m, &tokens, 3);
    assert_eq!(count(&cmds, is_submit), 3);
    assert_eq!(count(&cmds, is_begin), 3);
    assert_eq!(count(&cmds, |c| matches!(c, GpuCmd::SubmitWithReadback { .. })), 1);
    assert_eq!(cmds[0], GpuCmd::BeginForSets { sets: 3 * (2 * 22 + 4) * 2 });
    assert_eq!(cmds[1], GpuCmd::CopyToAct { dst: acts(&m).x, src: CopySource::Staging, offset: 0 });
    let copies: Vec<u64> = cmds
        .iter()
        .filter_map(|c| match c {
            GpuCmd::CopyToAct { offset, .. } => Some(*offset),
            _ => None,
        })
        .collect();
    assert_eq!(copies, vec![0, 16, 32, 48, 64, 80, 96]);
    assert_eq!(
        cmds[cmds.len() - 2..].to_vec(),
        vec![
            GpuCmd::FreeStaging,
            GpuCmd::ReadLogits { logits: acts(&m).logits, readback: acts(&m).logits_rb },
        ]
    );
}

#[test]
fn chunk_size_does_not_change_the_work() {
    let m = whole(2);
    let tokens: Vec<usize> = (0..5).collect();
    let one: Vec<GpuCmd> = gemv(&m, &tokens, 5).into_iter().filter(is_work).collect();
    for chunk in 0..5 {
        let many: Vec<GpuCmd> = gemv(&m, &tokens, chunk).into_iter().filter(is_work).collect();
        assert_eq!(one, many);
    }
}

#[test]
fn descriptor_sets_suffice_for_every_chunk() {
    let m = model(2, true, vec![true; 15]);
    let tokens: Vec<usize> = (0..7).collect();
    for cmds in [gemv(&m, &tokens, 3), gemm(&m, &tokens, 3)] {
        let mut left: u32 = 0;
        for c in &cmds {
            if let GpuCmd::BeginForSets { sets } = c {
                left = *sets;
            }
            if dispatches(c) {
                assert!(left > 0);
                left -= 1;
            }
        }
    }
}

#[test]
fn prompt_of_one_token_is_its_evaluation() {
    let m = whole(2);
    let keep = |c: &GpuCmd| dispatches(c);
    let prompt: Vec<GpuCmd> = gemv(&m, &[4], 8).into_iter().filter(keep).collect();
    let token: Vec<GpuCmd> = m.forward_gpu(4, 0).into_iter().filter(keep).collect();
    assert_eq!(prompt, token);
}

#[test]
fn batches_multiply_once_per_weight_and_chunk() {
    let m = whole(2);
    let tokens: Vec<usize> = (0..7).collect();
    let batched = gemm(&m, &tokens, 3);
    assert_eq!(count(&batched, is_gemm), 3 * 2 * 7);
    assert_eq!(count(&batched, is_gemv), 1);
    assert_eq!(count(&batched, is_submit), 3);
    let single = gemv(&m, &tokens, 3);
    assert_eq!(count(&single, is_gemv), 7 * 2 * 7 + 1);
}

#[test]
fn batched_attention_is_causal() {
    let m = whole(1);
    let a = acts(&m);
    let cmds = gemm(&m, &[5, 6, 7], 2);
    let items: Vec<(u32, u32, u32)> = cmds
        .iter()
        .filter_map(|c| match c {
            GpuCmd::BatchAttnItem { seq_len, q_offset, out_offset, .. } => {
                Some((*seq_len, *q_offset, *out_offset))
            }
            _ => None,
        })
        .collect();
    assert_eq!(items, vec![(1, 0, 0), (2, 4, 4), (3, 0, 0)]);
    assert_eq!(cmds[0], GpuCmd::BeginForSets { sets: 2 * 22 * 2 + 2 + 64 });
    assert_eq!(
        cmds[1],
        GpuCmd::CopyToAct { dst: a.x_batch, src: CopySource::Staging, offset: 0 }
    );
    assert!(cmds.contains(&GpuCmd::CopyToAct {
        dst: a.xn,
        src: CopySource::Act(a.x_batch),
        offset: 0
    }));
}

#[test]
fn batches_are_no_larger_than_their_buffers() {
    let m = whole(1);
    let tokens: Vec<usize> = (0..20).collect();
    // The context of 16 tokens bounds a batch, whatever is asked for.
    let cmds = gemm(&m, &tokens, 1000);
    assert_eq!(count(&cmds, is_begin), 2);
}

#[test]
fn missing_layer_weight_falls_back_to_single_tokens() {
    let m = model(1, false, vec![true, true, true, true, true, true, true, false]);
    assert!(!m.fully_resident());
    match m.forward_gpu_prefill_gemm(&[1, 2], 0, 4) {
        PrefillPlan::Gemv { staged, cmds } => {
            assert_eq!(staged, vec![1, 2]);
            assert_eq!(cmds, gemv(&m, &[1, 2], 4));
        }
        _ => panic!("no fallback"),
    }
    // The output projection is not a weight of a layer.
    let m = model(1, false, vec![false, true, true, true, true, true, true, true]);
    assert!(m.fully_resident());
    assert!(matches!(m.forward_gpu_prefill_gemm(&[1, 2], 0, 4), PrefillPlan::Gemm { .. }));
}

#[test]
fn prompts_are_multiplied_by_the_matrices_of_all_layers() {
    let m = whole(2);
    let tokens: Vec<usize> = (0..5).collect();
    let ids = |cmds: Vec<GpuCmd>| -> Vec<usize> {
        cmds.iter()
            .filter_map(|c| match c {
                GpuCmd::Gemv { weight, .. } => Some(weight.id),
                GpuCmd::Gemm { weight, .. } => Some(weight.id),
                _ => None,
            })
            .collect()
    };
    // Uploads: the output projection, then each of the seven weights for both layers.
    let layers = vec![1, 3, 5, 7, 9, 11, 13, 2, 4, 6, 8, 10, 12, 14];
    let passes = |k: usize| {
        let mut all = Vec::new();
        for _ in 0..k {
            all.extend_from_slice(&layers);
        }
        all.push(0);
        all
    };
    assert_eq!(ids(m.forward_gpu(0, 0)), passes(1));
    assert_eq!(ids(gemv(&m, &tokens, 2)), passes(5));
    assert_eq!(ids(gemm(&m, &tokens, 2)), passes(3));
}

#[test]
fn prompts_fill_the_cache_position_by_position() {
    let m = whole(2);
    let tokens: Vec<usize> = (0..5).collect();
    let written = |plan: PrefillPlan, layer: usize| -> Vec<u32> {
        let cmds = match plan {
            PrefillPlan::Gemv { cmds, .. } => cmds,
            PrefillPlan::Gemm { cmds, .. } => cmds,
            PrefillPlan::Zeros { .. } => vec![],
        };
        let mut all = Vec::new();
        for c in cmds {
            match c {
                GpuCmd::KvWrite { k_cache, pos, .. } if k_cache == acts(&m).k_cache[layer] => {
                    all.push(pos)
                }
                GpuCmd::BatchKvWrite { k_cache, pos, batch, .. }
                    if k_cache == acts(&m).k_cache[layer] =>
                {
                    all.extend(pos..pos + batch)
                }
                _ => {}
            }
        }
        all
    };
    for layer in 0..2 {
        assert_eq!(written(m.forward_gpu_prefill(&tokens, 3, 2), layer), vec![3, 4, 5, 6, 7]);
        assert_eq!(written(m.forward_gpu_prefill_gemm(&tokens, 3, 2), layer), vec![3, 4, 5, 6, 7]);
    }
}

#[test]
fn prompts_that_cannot_be_counted_are_refused() {
    let m = whole(1);
    assert!(m.check_prefill(7, 0, 3));
    assert!(!m.check_prefill(7, usize::MAX - 3, 3));
    assert!(m.check_prefill_gemm(7, 0, 3));
    assert!(!m.check_prefill_gemm(7, usize::MAX - 3, 3));
}

#[test]
fn handles_are_compared_by_number() {
    assert_eq!(ActBuf { id: 3 }, ActBuf { id: 3 });
    assert_ne!(GpuTensor { id: 3 }, GpuTensor { id: 4 });
}

// A device on which everything that is read leaves its mark.
fn mixed(what: &str, inputs: &[u64]) -> u64 {
    let mut h: u64 = 1469598103934665603;
    for b in what.bytes() {
        h = (h ^ b as u64).wrapping_mul(1099511628211);
    }
    for x in inputs {
        h = (h ^ *x).wrapping_mul(1099511628211);
    }
    h
}

fn carry_out(plan: &PrefillPlan, n_embd: usize, bufs: &mut Vec<u64>) {
    let (staged, cmds) = match plan {
        PrefillPlan::Gemv { staged, cmds } => (staged, cmds),
        _ => return,
    };
    for cmd in cmds {
        let (reads, writes): (Vec<ActBuf>, Vec<ActBuf>) = match *cmd {
            GpuCmd::CopyToAct { dst, src: CopySource::Staging, offset } => {
                let token = staged[offset as usize / (n_embd * 4)];
                bufs[dst.id] = mixed("row", &[token as u64]);
                continue;
            }
            GpuCmd::RmsNorm { src, weight, dst, .. } => (vec![src, weight], vec![dst]),
            GpuCmd::Gemv { src, dst, .. } => (vec![src], vec![dst]),
            GpuCmd::Add { dst, src, .. } => (vec![dst, src], vec![dst]),
            GpuCmd::Rope { q, k, .. } => (vec![q, k], vec![q, k]),
            GpuCmd::KvWrite { k, v, k_cache, v_cache, .. } => {
                (vec![k, v, k_cache, v_cache], vec![k_cache, v_cache])
            }
            GpuCmd::Attention { q, k_cache, v_cache, dst, scores, .. } => {
                (vec![q, k_cache, v_cache, dst, scores], vec![dst, scores])
            }
            GpuCmd::SwiGlu { gate, up, .. } => (vec![gate, up], vec![gate]),
            GpuCmd::SubmitWithReadback { logits, readback } => (vec![logits], vec![readback]),
            _ => continue,
        };
        let inputs: Vec<u64> = reads.iter().map(|b| bufs[b.id]).collect();
        for b in writes {
            bufs[b.id] = mixed(&format!("{:?} {:?}", cmd, b), &inputs);
        }
    }
}

#[test]
fn prompt_in_two_parts_leaves_what_the_whole_leaves() {
    let mut resident = vec![true; 15];
    resident[0] = false;
    for m in [whole(2), whole(0), model(2, true, resident)] {
        for (front, chunk) in [(0, 1), (1, 1), (3, 2), (4, 8)] {
            let tokens = [7, 8, 9, 7, 6];
            let mut one: Vec<u64> = (0..64).collect();
            let mut two = one.clone();
            carry_out(&m.forward_gpu_prefill(&tokens, 2, 3), 4, &mut one);
            carry_out(&m.forward_gpu_prefill(&tokens[..front], 2, chunk), 4, &mut two);
            carry_out(&m.forward_gpu_prefill(&tokens[front..], 2 + front, 2), 4, &mut two);
            assert_eq!(one, two);
        }
    }
}

#[test]
fn second_part_of_a_prompt_needs_the_first() {
    let m = whole(2);
    let mut one: Vec<u64> = (0..64).collect();
    let mut two = one.clone();
    carry_out(&m.forward_gpu_prefill(&[7, 8], 0, 4), 4, &mut one);
    carry_out(&m.forward_gpu_prefill(&[8], 1, 4), 4, &mut two);
    assert_ne!(one[acts(&m).logits.id], two[acts(&m).logits.id]);
}
