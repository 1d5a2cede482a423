# arm64jit

The host-side runtime pieces of an AArch64 JIT that runs an Android game
client on a desktop Linux host, as a Verus-verified library.

- `src/` — the verified core:
  - `signals` — guest sigsets, `rt_sigprocmask`, the action table,
    handler frames and `rt_sigreturn`;
  - `aaudio` — the fake libaaudio bridge (handles, builders, streams,
    symbol slots, WAV header and sink accounting);
  - `fsmap` — guest path remapping under a persistent host root;
  - `session` — the ordered session substrate and per-atom ABI vectors;
  - `printf` — the guarded printf renderer behind the guest `*printf`
    shims and its AAPCS64 `va_list` stepping;
  - `shims` and `resolver` — the bionic/NDK shim decisions and the
    import-name registry;
  - `ainput` — touch-event marshalling into the guest input ABI;
  - `bytes` — little-endian encodings and byte-string helpers.
- `app/` — ordinary Rust around the core: process-wide state, the
  `extern "C"` entry points the guest imports bind to, guest memory
  access, environment gates, files, libc calls and the X11 window.
- `tests/` — tests of the library.
