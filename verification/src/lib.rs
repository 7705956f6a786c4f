//! The decisions behind a server that answers chat completions with llama-style models.
//!
//! * [`model`] finds the weights of a model in its file, places them on a GPU, and lists the
//!   work that evaluating tokens takes, on a GPU or on the host.
//! * [`server`] picks and swaps models, checks keys, builds prompts, runs the loop that writes
//!   a completion, and builds replies.
//! * [`text`] and [`order`] hold the operations on strings that both need.
//!
//! Nothing here reads a file, talks to a device or computes with floating-point numbers. What
//! has to be done outside is handed out as plain values, and what came of it is taken back as
//! plain values.
pub mod model;
pub mod order;
pub mod server;
pub mod text;
