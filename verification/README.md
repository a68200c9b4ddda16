# mlx

Safe Rust bindings to [MLX](https://github.com/ml-explore/mlx), split in two:

- `src/` is the verified library. Every rule the bindings apply on their own
  side of the FFI boundary lives here with a contract: the shape, layout and
  dtype checks of host transfers (`array`, `dtype`), the quantization modes and
  their argument rules (`ops`), the error type and the slot that holds what MLX
  reported (`error`), the parameter trees of modules and their
  declaration-ordered flattening (`module`), the names the op attributes derive
  (`naming`) and what they make of a `*_device` signature, the default-stream
  twin and the named-argument macro (`expand`), and the native build's rules for locating sources, naming and
  configuring the CMake tree and ordering the link line (`build`). `text` holds
  the character-level helpers these share.
- `app/` holds the calls into mlx-c and the build tools: arrays and streams,
  the ops (with their default-stream twins written out), saving and loading,
  function transforms, the token side of the op attributes (`macros`, which a
  proc-macro crate's entry points call), and the build steps that run CMake,
  walk the build tree and generate the bindings.
