# onnx_service

A prediction service for ONNX models. For each model the service keeps the last values of every
sensor and covariate, runs the model on them, and feeds the predictions back into the sensor
histories.

- `src/` is the verified library: the rules of the exchange with a client, stated in contracts
  and proved with Verus. `handler.rs` is the state machine that serves a request, `input.rs` the
  cached histories, `shape.rs` which models are accepted, `model.rs` the loading of models, and
  `laws.rs` what holds of the service as a whole. The calls into `ort` and `anyhow` are trusted;
  they are in `model.rs`, each with what is claimed of it.
- `app/` is the program around it: HTTP, the model cache, and everything that touches
  floating-point numbers, JSON parsing and inference among it.
- `tests/` runs the library on concrete values.

At run time `ort` loads ONNX Runtime from the machine (`libonnxruntime.so`, or the file that
`ORT_DYLIB_PATH` names).
