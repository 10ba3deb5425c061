# rust_core

Control core of a self-hosted LLM inference gateway in front of a single
`llama-server` (llama.cpp) process.

- `src/` is the verified library (Verus): configuration from environment
  values, launch arguments, the health wait, the model listing, the runtime
  state, and the load and generate request flows as step functions.
- `app/` is the HTTP service (axum, tokio, reqwest) that performs the I/O the
  library's steps ask for: reading the environment and the models directory,
  starting and stopping the process, probing and calling `llama-server`.
- `tests/` runs the library on concrete inputs.

Endpoints: `GET /health`, `GET /models`, `POST /load`, `POST /generate`,
`POST /unload`.
