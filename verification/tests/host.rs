use gguf_serve::model::config::ModelConfig;
use gguf_serve::model::cpu::{check_forward_cpu, CpuBuf, CpuMatrix, CpuOp};
use gguf_serve::model::gpu::GpuCmd;
use gguf_serve::model::kv_cache::KvCache;
use gguf_serve::model::llama::LlamaModel;
use gguf_serve::model::loading::DeviceOutcome;
use gguf_serve::model::uploads::{plan_uploads, Upload};
use gguf_serve::model::weights::{FloatVec, RowSpan, Weights};

fn config() -> ModelConfig {
    ModelConfig {
        n_layers: 1,
        n_embd: 8,
        n_heads: 4,
        n_kv_heads: 2,
        n_ff: 16,
        n_vocab: 10,
        n_ctx: 4,
        head_dim: 2,
    }
}

fn weights() -> Weights {
    Weights {
        token_embd: 0,
        output_norm: FloatVec { fetch: 0, len: 8 },
        output: 1,
        attn_norm: vec![FloatVec { fetch: 1, len: 8 }],
        ffn_norm: vec![FloatVec { fetch: 2, len: 8 }],
        attn_q: vec![2],
        attn_k: vec![3],
        attn_v: vec![4],
        attn_out: vec![5],
        ffn_gate: vec![6],
        ffn_up: vec![7],
        ffn_down: vec![8],
        attn_q_bias: vec![None],
        attn_k_bias: vec![Some(FloatVec { fetch: 3, len: 4 })],
        attn_v_bias: vec![None],
        attn_q_f32: vec![Some(RowSpan { tensor: 2, start: 0, end: 8 })],
        attn_k_f32: vec![None],
        attn_v_f32: vec![None],
    }
}

fn model() -> LlamaModel {
    match LlamaModel::load(config(), weights(), 4, None) {
        Ok(m) => m,
        Err(e) => panic!("{}", e.message()),
    }
}

#[test]
fn one_token_on_the_host() {
    let ops = model().forward_cpu(9, 2);
    let zeros = |buf: CpuBuf, len: usize| CpuOp::Zeros { buf, len };
    let quant = |dst: CpuBuf, src: CpuBuf, tensor: usize| CpuOp::MatVec {
        dst,
        src,
        matrix: CpuMatrix::Quant { tensor },
    };
    let head = |h: usize, offset: usize| CpuOp::Attend {
        layer: 0,
        start: h * 2,
        head_dim: 2,
        scores: h * 3,
        n: 3,
        kv_width: 4,
        offset,
    };
    assert_eq!(
        ops,
        vec![
            CpuOp::Embed { token: 9 },
            zeros(CpuBuf::Xn, 8),
            zeros(CpuBuf::Q, 8),
            zeros(CpuBuf::K, 4),
            zeros(CpuBuf::V, 4),
            CpuOp::Scores { len: 12 },
            zeros(CpuBuf::Attn, 8),
            zeros(CpuBuf::Proj, 8),
            zeros(CpuBuf::Gate, 16),
            zeros(CpuBuf::Up, 16),
            zeros(CpuBuf::Ff, 8),
            CpuOp::Copy { dst: CpuBuf::Xn, src: CpuBuf::X },
            CpuOp::RmsNorm { buf: CpuBuf::Xn, weight: FloatVec { fetch: 1, len: 8 } },
            CpuOp::MatVec {
                dst: CpuBuf::Q,
                src: CpuBuf::Xn,
                matrix: CpuMatrix::Floats {
                    span: RowSpan { tensor: 2, start: 0, end: 8 },
                    cols: 8,
                },
            },
            quant(CpuBuf::K, CpuBuf::Xn, 3),
            quant(CpuBuf::V, CpuBuf::Xn, 4),
            CpuOp::AddBias { dst: CpuBuf::K, bias: FloatVec { fetch: 3, len: 4 } },
            CpuOp::Rope { pos: 2, head_dim: 2, n_heads: 4, n_kv_heads: 2 },
            CpuOp::StoreKv { layer: 0, start: 8 },
            CpuOp::Clear { buf: CpuBuf::Attn },
            head(0, 0),
            head(1, 0),
            head(2, 2),
            head(3, 2),
            quant(CpuBuf::Proj, CpuBuf::Attn, 5),
            CpuOp::AddBuf { dst: CpuBuf::X, src: CpuBuf::Proj },
            CpuOp::Copy { dst: CpuBuf::Xn, src: CpuBuf::X },
            CpuOp::RmsNorm { buf: CpuBuf::Xn, weight: FloatVec { fetch: 2, len: 8 } },
            quant(CpuBuf::Gate, CpuBuf::Xn, 6),
            quant(CpuBuf::Up, CpuBuf::Xn, 7),
            CpuOp::SwiGlu { n: 16 },
            quant(CpuBuf::Ff, CpuBuf::Gate, 8),
            CpuOp::AddBuf { dst: CpuBuf::X, src: CpuBuf::Ff },
            CpuOp::RmsNorm { buf: CpuBuf::X, weight: FloatVec { fetch: 0, len: 8 } },
            zeros(CpuBuf::Logits, 10),
            quant(CpuBuf::Logits, CpuBuf::X, 1),
        ]
    );
}

#[test]
fn device_multiplies_by_the_matrices_of_the_host() {
    let device = DeviceOutcome { resident: vec![true; 8], failure: None };
    let m = match LlamaModel::load(config(), weights(), 4, Some(&device)) {
        Ok(m) => m,
        Err(e) => panic!("{}", e.message()),
    };
    let uploads = plan_uploads(&m.weights, &m.config);
    let on_host: Vec<CpuMatrix> = m
        .forward_cpu(1, 0)
        .iter()
        .filter_map(|op| match op {
            CpuOp::MatVec { matrix, .. } => Some(*matrix),
            _ => None,
        })
        .collect();
    let on_device: Vec<CpuMatrix> = m
        .forward_gpu(1, 0)
        .iter()
        .filter_map(|cmd| match cmd {
            GpuCmd::Gemv { weight, .. } => Some(match uploads[weight.id] {
                Upload::Quant { tensor } => CpuMatrix::Quant { tensor },
                Upload::Floats { span, .. } => CpuMatrix::Floats { span, cols: 8 },
            }),
            _ => None,
        })
        .collect();
    assert_eq!(on_host, on_device);
    assert_eq!(on_host.len(), 8);
}

#[test]
fn evaluations_that_cannot_be_counted_are_refused() {
    assert!(check_forward_cpu(&config(), 3));
    assert!(!check_forward_cpu(&config(), usize::MAX));
    let mut c = config();
    c.n_kv_heads = 0;
    assert!(!check_forward_cpu(&c, 0));
    let mut c = config();
    c.n_kv_heads = 8;
    assert!(!check_forward_cpu(&c, 0));
    let mut c = config();
    c.n_embd = 7;
    assert!(!check_forward_cpu(&c, 0));
    c.n_layers = 0;
    assert!(check_forward_cpu(&c, 0));
}

#[test]
fn new_cache_holds_zeros() {
    let cache = KvCache::new(2, 4, 2, 2, 0.0f32);
    assert_eq!(cache.k, vec![vec![0.0f32; 16]; 2]);
    assert_eq!(cache.v, vec![vec![0.0f32; 16]; 2]);
    let none = KvCache::new(0, 4, 2, 2, 0u8);
    assert!(none.k.is_empty());
}

#[test]
fn stored_rows_are_read_back() {
    let mut cache = KvCache::new(2, 3, 2, 2, 0u8);
    cache.store(1, 4, &vec![1, 2, 3, 4], &vec![5, 6, 7, 8]);
    assert_eq!(cache.key_head(1, 1, 4, 0, 2).to_vec(), vec![1, 2]);
    assert_eq!(cache.key_head(1, 1, 4, 2, 2).to_vec(), vec![3, 4]);
    assert_eq!(cache.value_head(1, 1, 4, 2, 2).to_vec(), vec![7, 8]);
}

#[test]
fn other_rows_stay_as_they_were() {
    let mut cache = KvCache::new(2, 3, 1, 2, 0u8);
    cache.store(0, 0, &vec![1, 2], &vec![3, 4]);
    cache.store(0, 4, &vec![5, 6], &vec![7, 8]);
    assert_eq!(cache.k[0], vec![1, 2, 0, 0, 5, 6]);
    assert_eq!(cache.v[0], vec![3, 4, 0, 0, 7, 8]);
    assert_eq!(cache.k[1], vec![0; 6]);
    cache.store(0, 2, &vec![9, 9], &vec![9, 9]);
    assert_eq!(cache.key_head(0, 0, 2, 0, 2).to_vec(), vec![1, 2]);
    assert_eq!(cache.key_head(0, 2, 2, 0, 2).to_vec(), vec![5, 6]);
}

#[test]
fn heads_share_evenly_and_read_within_the_cache() {
    let c = config();
    let cache = KvCache::new(1, c.n_ctx, c.n_kv_heads, c.head_dim, 0u8);
    for op in model().forward_cpu(0, c.n_ctx - 1) {
        if let CpuOp::Attend { layer, start, head_dim, n, kv_width, offset, .. } = op {
            assert!(start + head_dim <= 8);
            assert!(offset + head_dim <= kv_width);
            for p in 0..n {
                assert_eq!(cache.key_head(layer, p, kv_width, offset, head_dim).len(), 2);
            }
        }
    }
}

// Arithmetic on which every number that is read leaves its mark.
fn mixed(op: &CpuOp, inputs: &[Vec<u64>], j: u64, i: usize) -> u64 {
    let mut h: u64 = 1469598103934665603;
    for b in format!("{:?} {} {}", op, j, i).bytes() {
        h = (h ^ b as u64).wrapping_mul(1099511628211);
    }
    for x in inputs.iter().flatten() {
        h = (h ^ *x).wrapping_mul(1099511628211);
    }
    h
}

struct Host {
    bufs: Vec<(CpuBuf, Vec<u64>)>,
    scores: Vec<u64>,
}

impl Host {
    fn get(&self, buf: CpuBuf) -> Vec<u64> {
        match self.bufs.iter().find(|b| b.0 == buf) {
            Some(b) => b.1.clone(),
            None => vec![],
        }
    }

    fn put(&mut self, buf: CpuBuf, content: Vec<u64>) {
        self.bufs.retain(|b| b.0 != buf);
        self.bufs.push((buf, content));
    }

    fn works(&mut self, op: &CpuOp, buf: CpuBuf, others: &[CpuBuf]) {
        let mut inputs = vec![self.get(buf)];
        inputs.extend(others.iter().map(|b| self.get(*b)));
        let new = (0..inputs[0].len()).map(|i| mixed(op, &inputs, 0, i)).collect();
        self.put(buf, new);
    }

    fn step(&mut self, op: &CpuOp, cache: &mut KvCache<u64>) {
        match *op {
            CpuOp::Embed { token } => {
                self.put(CpuBuf::X, (0..8).map(|i| mixed(op, &[], token as u64, i)).collect())
            }
            CpuOp::Zeros { buf, len } => self.put(buf, vec![0; len]),
            CpuOp::Scores { len } => self.scores = vec![0; len],
            CpuOp::Copy { dst, src } => {
                let content = self.get(src);
                self.put(dst, content)
            }
            CpuOp::RmsNorm { buf, .. } => self.works(op, buf, &[]),
            CpuOp::MatVec { dst, src, .. } => self.works(op, dst, &[src]),
            CpuOp::AddBias { dst, .. } => self.works(op, dst, &[]),
            CpuOp::AddBuf { dst, src } => self.works(op, dst, &[src]),
            CpuOp::Rope { .. } => {
                let inputs = vec![self.get(CpuBuf::Q), self.get(CpuBuf::K)];
                let q = (0..inputs[0].len()).map(|i| mixed(op, &inputs, 0, i)).collect();
                let k = (0..inputs[1].len()).map(|i| mixed(op, &inputs, 1, i)).collect();
                self.put(CpuBuf::Q, q);
                self.put(CpuBuf::K, k);
            }
            CpuOp::StoreKv { layer, start } => {
                cache.store(layer, start, &self.get(CpuBuf::K), &self.get(CpuBuf::V))
            }
            CpuOp::Clear { buf } => {
                let len = self.get(buf).len();
                self.put(buf, vec![0; len])
            }
            CpuOp::Attend { layer, head_dim, n, kv_width, offset, .. } => {
                let mut inputs =
                    vec![self.get(CpuBuf::Attn), self.scores.clone(), self.get(CpuBuf::Q)];
                for p in 0..n {
                    inputs.push(cache.key_head(layer, p, kv_width, offset, head_dim).to_vec());
                }
                for p in 0..n {
                    inputs.push(cache.value_head(layer, p, kv_width, offset, head_dim).to_vec());
                }
                let attn = (0..inputs[0].len()).map(|i| mixed(op, &inputs, 0, i)).collect();
                self.scores = (0..inputs[1].len()).map(|i| mixed(op, &inputs, 1, i)).collect();
                self.put(CpuBuf::Attn, attn);
            }
            CpuOp::SwiGlu { .. } => self.works(op, CpuBuf::Gate, &[CpuBuf::Up]),
        }
    }
}

fn evaluate(token: usize, pos: usize, cache: &mut KvCache<u64>) -> Vec<u64> {
    let mut host = Host { bufs: vec![], scores: vec![] };
    for op in model().forward_cpu(token, pos) {
        host.step(&op, cache);
    }
    host.get(CpuBuf::Logits)
}

#[test]
fn later_rows_of_the_cache_do_not_matter() {
    let mut one = KvCache::new(1, 4, 2, 2, 0u64);
    let mut two = KvCache::new(1, 4, 2, 2, 7u64);
    for pos in 0..4 {
        assert_eq!(evaluate(5, pos, &mut one), evaluate(5, pos, &mut two));
        let end = (pos + 1) * 4;
        assert_eq!(one.k[0][..end], two.k[0][..end]);
        assert_eq!(one.v[0][..end], two.v[0][..end]);
    }
    // An earlier row does matter.
    two.k[0][0] += 1;
    assert_ne!(evaluate(5, 3, &mut one), evaluate(5, 3, &mut two));
}

#[test]
fn second_evaluation_changes_nothing() {
    let mut cache = KvCache::new(1, 4, 2, 2, 0u64);
    evaluate(3, 0, &mut cache);
    let once = evaluate(4, 1, &mut cache);
    let (k, v) = (cache.k.clone(), cache.v.clone());
    assert_eq!(evaluate(4, 1, &mut cache), once);
    assert_eq!(cache.k, k);
    assert_eq!(cache.v, v);
}
