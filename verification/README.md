# wasi_sensor

A verified core for a WASI sensor host and its guest application.

- `src/` (Verus): the data model of the `wasi:buffer-pool` and `wasi:sensor`
  interfaces (`types`), the frame pool (`pool`, over a bounded `tokio` channel
  in `frame_queue`, stamped by `clock`), the host's pool resource (`host`),
  structured `group:device` names (`names`), the host's name registry
  (`registry`), the dummy camera and its streaming steps (`dummy_device`),
  cutting YUY2 images into per-pixel samples (`yuv`) and the guest's image
  preparation and control values (`guest`).
- `app/`: the wasmtime host program (`main.rs`), the shared pool and the
  streaming thread of the dummy camera, and the guest component (`guest.rs`,
  with the single-precision colour conversion).
- `extras/wit/`: the WIT world `sensing` that the host and the guest bind to.
- `tests/`: tests of the library.
