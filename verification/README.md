# ocelotl

The kernels and model loaders of a small inference engine, as a library whose
behaviour is stated in contracts and proved by Verus.

- `src/` is the library. `error`, `types`, `values` and `text` hold the plain
  data; `arith`, `expr` and `grid` hold the model of scalars and of row-major
  matrices; `dense`, `linear`, `lanes`, `partition`, `attention`,
  `attention_modes`, `decoder`, `norms`, `softmax`, `rope`, `mlp`,
  `activation`, `conv`, `recurrent`, `relpos`, `pooling`, `layout`, `modes` and
  `cpu_backend` are the kernels; `tensor` and `kv_cache` place data; `launch`
  plans the work of a device; `bytes`, `half`, `k_blocks`, `k_quant`, `gguf`,
  `gguf_values`, `safetensors_header`, `safetensors_values` and `config` read
  models. The proof functions of `attention_laws`, `gguf_laws`, `lane_laws`,
  `loading_laws` and of most other modules state what holds across functions.
- `app/` opens files, spreads work over threads, launches device kernels and
  carries the derives of other crates.
- `tests/` runs the library with `f32`.

Scalars are a type parameter `T` with an `Arith<T>`, whose methods promise
nothing. A contract says which operations are applied to which values, in which
order; it does not say what a sum of two floats is.
