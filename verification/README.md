# gguf_serve

The decisions behind a server that answers chat completions with llama-style models, written
in Verus: every function of the library states what it does, and the statements are proved.

* `src/model` finds the weights of a model in its file, places them on a GPU, plans the
  activation buffers, and lists the work that evaluating tokens takes, on a GPU or on the host.
* `src/server` picks and swaps models, checks keys, builds prompts, runs the loop that writes a
  completion, and builds replies.
* `src/text.rs` and `src/order.rs` hold the operations on strings that both need.
* `tests` runs the library on concrete values.
* `app` is the server around the library: HTTP, the configuration file, the model file, the GPU
  and the arithmetic on floats. It needs the `gguf_rs` engine for the last three.

The proof functions whose names begin with `law_` state what holds of several functions
together. What the library takes on trust is marked `external_body` or `assume_specification`,
with a comment that says what is claimed: the clock, lower-casing, UUIDs, header values and JSON
values.
