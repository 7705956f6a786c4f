//! Loading a model and running it: which tensors are used, which buffers are allocated, and
//! which operations are performed in which order.
pub mod acts;
pub mod config;
pub mod cpu;
pub mod directory;
pub mod gpu;
pub mod kv_cache;
pub mod laws;
pub mod laws_acts;
pub mod laws_aliases;
pub mod laws_batches;
pub mod laws_biases;
pub mod laws_cache;
pub mod laws_cpu;
pub mod laws_device;
pub mod laws_fences;
pub mod laws_gemm;
pub mod laws_host;
pub mod laws_named;
pub mod laws_numbers;
pub mod laws_parts;
pub mod laws_paths;
pub mod laws_products;
pub mod laws_rows;
pub mod laws_sizes;
pub mod laws_turns;
pub mod llama;
pub mod load;
pub mod loading;
pub mod maths;
pub mod prefill;
pub mod prefill_gemm;
pub mod record;
pub mod settle;
pub mod slots;
pub mod uploads;
pub mod weights;
