# utls

TLS ClientHello fingerprints, and the decisions of a TLS context and its
connections, as a verified library. The TLS engine itself is BoringSSL; the
library never calls it, but says which calls to make and what their results
mean.

- `src/` is the library, verified with Verus. Four small wrappers are trusted:
  `decode_lossy`, `decode_strict` and `quote` in `text.rs` call the standard
  library, and `decode_brotli` in `decompress.rs` calls the crate `brotli`. Each
  says what is claimed of the call it makes. Every other function is proved.
  - `fingerprint/spec.rs`: what a fingerprint holds, its builder and its
    dictionary form.
  - `fingerprint/capture.rs`: reading a fingerprint out of a captured
    ClientHello.
  - `fingerprint/wire.rs`: how a ClientHello is written, and what capturing one
    gives back.
  - `fingerprint/apply.rs`: what a fingerprint asks of the engine.
  - `plan.rs`: calls in order, what their failures mean, and carrying them out.
  - `context.rs`, `store.rs`, `chain.rs`, `wrap.rs`, `connection.rs`: settings,
    trusted certificates, certificate chains, making and using connections.
  - `alpn.rs`, `sni.rs`, `registry.rs`, `decompress.rs`: what the engine's
    callbacks answer.
  - `bindings.rs`: what the Python module makes of its arguments.
- `tests/` runs the library on concrete values.
- `app/` is the Python extension module: BoringSSL and Python around the
  library.
