# liblzma

XZ and raw LZMA2 compression, with the logic around the compressor verified
by Verus.

- `src/lib.rs`: `encode_all` / `decode_all` on byte slices; `encode_all`'s
  contract states that it always succeeds and that `decode_all` gives its
  input back (resting on the trusted contracts of `src/engine.rs`).
- `src/stream.rs`: presets, LZMA2 options with a preset dictionary, filter
  chains, raw LZMA2 encoder and decoder.
- `src/bufread/buffered.rs`: the read buffer of the streaming readers, as a
  state machine that the I/O layer drives; a ghost record of the bytes
  taken in and handed out shows that none is lost or repeated.
- `src/wasm_shim.rs`: `memcmp`, `memchr`, `memset`, `memcpy` on slices.
- `src/engine.rs`: the trusted calls into `lzma_rust2`, which does the
  compression itself.
- `app/`: the `std::io` layer (`decode_all`/`encode_all` over readers,
  `copy_encode`/`copy_decode`, a `BufRead` over the buffer, the C shim's
  `extern "C"` entry points).
