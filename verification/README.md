# ulua_rt

The embedding layer of the ulua Lua runtime, written as a Verus library.

- `src/` is the verified library. Lua values are plain data (`value.rs`);
  reference types are carried by the identity of their object, and the
  objects the embedding layer keeps (tables, buffers, strings, userdata
  cells, the registry, app data, module caches) are modelled by their own
  types, each viewed as a mathematical value (`Map`, `Seq`). Every public
  function states its result over those views; the laws that relate several
  functions are public proof functions named `law_*`.
- `src/resolve.rs` resolves the argument of a `require` to one of the
  modules given to a module-aware check, for the path shapes host scripts
  use (`script.Parent.X`, `game:GetService("S").X`, constant names).
- `src/serialize/` holds the serde rules: what a Rust item serializes into,
  what a Lua value emits when serialized, and how values and tables are read
  back (`de.rs`), with serde's own error texts (`messages.rs`).
- `app/` is ordinary Rust around the library: the error and metamethod types
  with their derived traits (`thiserror`, `strum`), `std::io` over buffer
  cursors, the floating-point conversions, `futures` streams over driven
  coroutines, serde's `Serialize`/`Deserializer` over the library's
  readers, and the making of VMs, each with an identity of its own.
- `tests/` runs the library on concrete values.

Floating-point numbers are not part of the model; the VM itself (the
interpreter, the compiler and the type analysis) lies outside the library,
which holds the decisions taken around it.
