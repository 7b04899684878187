# local_models

Local model support for a coding assistant: discovering models that a local
OpenAI-compatible server serves or that lie on disk as MLX checkpoints,
downloading pinned checkpoints with resumable, verified transfers, supervising
one MLX server per endpoint, the native provider picker, and a hardware panel.

- `src/` is the library, written in Verus. Each module states its rules as
  contracts and proves them: `local_models`, `mlx_models`, `mlx_catalog`,
  `model_download`, `served`, `runtime`, `picker`, `hardware`, `telemetry`, with
  `model_info`, `sorting`, `path`, `order` and `text` beneath them.
- `tests/` runs the library on concrete cases.
- `app/` is ordinary Rust that reads the environment, the file system, the
  network and the SMC, formats floating-point readings, draws the panel, and
  carries out what the library's protocols decide.
