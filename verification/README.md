# ithmb_core

A decoder (and test-frame encoder) for Apple `.ithmb` thumbnail-cache files,
written in Verus. The library's logic in `src/` is verified against its
contracts; the calls into outside code go through trusted wrappers (see
below), and a few of them state nothing of their results: reading the
cancellation flag, the JPEG decoder's pixel values, and the platform path
helpers beyond what their documentation guarantees.

## Layout

- `src/pipeline.rs`, `src/open.rs` — the entry points: profile selection by
  the 4-byte prefix (with the nearest-frame-size and embedded-JPEG
  fallbacks), decoding, post-processing, and PhotoDB/ArtworkDB containers.
- `src/rgb16.rs`, `rgb565.rs`, `rgb555.rs`, `reordered_rgb555.rs`, `uyvy.rs`,
  `ycbcr420.rs`, `cl.rs`, `clcl.rs`, `yuv.rs`, `jpeg.rs`, `exif.rs` — the pixel
  decoders; `src/enc/` — the encoders.
- `src/post_process.rs` — dimension swap, crop and rotation, with the properties proved of them.
- `src/profile*.rs`, `src/profile_parser/` — profiles, the built-in profile
  table and the `profiles.json` parser.
- `src/photodb/` — the PhotoDB chunk-tree parser.
- `src/cache.rs`, `src/metrics.rs` — the LRU decode cache and timing counters.
- `src/layout.rs`, `src/output.rs`, `src/status.rs` — the decisions behind the
  command-line tool and the C interface.
- `app/` — the command-line tool and the C interface themselves (file I/O,
  PNG output, argument parsing, raw pointers).
- `tests/` — tests of the library on concrete inputs.

Calls into `zune-jpeg` and `lru` (and a few `std` functions without a Verus
specification) go through small trusted wrappers whose contracts restate
what those libraries document, and no more.
