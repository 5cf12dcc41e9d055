# ember

A CPU inference engine for Qwen2.5-style decoder models: RMSNorm, RoPE,
grouped-query attention with a key/value cache, a SwiGLU MLP, and row-wise
INT8/INT4 weight quantization.

The crate is split in two.

- `src/` is a library verified with Verus. It holds what the engine decides
  with integers and structure: the model's shape arithmetic (`config`), the
  key/value cache and its write cursor (`attention`), the packing of INT8/INT4
  codes with their per-row scales (`quant`), the xorshift generator and the
  greedy choice (`sample`), the ChatML prompt layout (`chat`), the
  generation loop's stop and position decisions and the sampler's seed
  (`generate`), and, in `model`, reading a safetensors archive into the little-endian
  words of each tensor, naming and shaping each block's tensors, holding the
  weights and counting their resident bytes. Floating-point values are carried as the
  bit patterns of their `f32` values.
- `app/` is the command-line program: argument parsing, file reading and
  memory mapping, the tokenizer, and every floating-point kernel (mat-vec,
  normalisation, RoPE, softmax, attention scores, quantization scales,
  top-p sampling, `f16`/`bf16` conversion).

`tests/` exercises the library on concrete values.
