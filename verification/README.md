# uniffi_jni_core

Pieces of the UniFFI runtime and of its Kotlin JNI bindings generator, with their behaviour
stated in Verus contracts and proved.

- `src/slab.rs`: the handle-based slab. Handles carry an index, a slab id, a foreign bit and a
  generation counter; each entry has a lock word. Laws: a value reads back as inserted, a removed
  handle is a use after free, a stale handle is caught until its entry has been re-used 256
  times, handles of other slabs and foreign handles are refused.
- `src/rustfuture.rs`: the scheduling state machine of a future that the foreign code awaits.
  Each event (startup, wake, cancel, the steps of `do_wake`) gives the next state and the action
  to perform.
- `src/ffitypes.rs`, `src/types.rs`, `src/nodes.rs`, `src/callables.rs`, `src/callbacks.rs`,
  `src/records.rs`, `src/enums.rs`, `src/deconstruct.rs`, `src/context.rs`,
  `src/packages.rs`: how types cross the JNI boundary (primitive, deconstructed into primitive
  values, or in a buffer), how FFI arguments are allocated, and the names that the generated
  Kotlin and Rust code uses.
- `src/export.rs`: the checks that exporting a function, constructor, method or trait makes.
- `src/codetype.rs`, `src/version_mismatch.rs`: Kotlin code type names, and the check of a
  version-mismatch script's output.
- `src/names.rs`: case conversions by the `heck` crate (trusted wrappers).

`app/lib.rs` holds what is not verified: a slab with a random id, the panicking slab calls, the
driver that runs a real future by the state machine's decisions, and log output.
