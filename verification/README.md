# epi

Backend-agnostic interface for writing apps using `egui`, with its logic
verified by Verus.

- `src/lib.rs`: the frame an app is handed each update (`Frame`), native
  window options, integration information, the texture allocator, repaint
  signal and storage traits, and `DummyStorage`.
- `src/backend.rs`: what a backend builds a `Frame` from, and the commands an
  app gives back (`AppOutput`).
- `src/http.rs`: building `GET`/`POST` requests and reading responses.
- `src/headers.rs`: the header map, kept sorted by name in the byte order of
  `String`, with the proofs about that order.
- `app/lib.rs`: the `App` trait, RON persistence, handing requests to the
  backend's HTTP client, and the floating-point readings of
  `IntegrationInfo`.
