# makepad_platform

The platform layer of a UI toolkit, written in Verus. Every function in
`src/` carries a contract; Verus proves each of them, except the contracts of
the few functions marked `#[verifier::external_body]` (calls into serde_json
and std: JSON quoting and parsing, lossy UTF-8 decoding, the clock and
`Duration::from_secs`) and of the `assume_specification` items for std, which
are taken as given.

- `native_host`, `native_views`, `native_host_schema`: the queue of native
  view mutations (created, laid out, updated, commanded, closed) and how a
  flush coalesces it into platform operations; the schema of the native
  components and its generated manifest.
- `cx`, `cx_api`, `action`, `os_op`, `passes`: the context the app talks to,
  the platform operations it queues, redraw bookkeeping over the draw pass
  tree, camera and permission flows, and actions raised by background threads.
- `window`, `macos_glass`: native glass batches (validation against the
  per-window limits, install order, results) and the window substrate events.
- `octos`, `octos_backend`: clients of the octos agent host: endpoint
  normalisation, request bodies, the server-sent-event reply and the turn and
  request bookkeeping.
- `oh_network`, `ohos_backend`: the OpenHarmony HTTP bridge registry and its
  flat header encoding.
- `envelope`, `json`, `text`, `ids`: canvas envelopes, JSON and text helpers,
  identifiers.
- Modules whose names end in `_laws` state and prove properties that span
  several functions.

The context models the parts that these operations touch. Methods that only
forward to parts it does not hold (key focus, finger and scroll locks, drag and
drop, globals, the spawner, HTTP requests, resources, text input placement) are
not part of it.

The macOS and iOS native views and glass installers call AppKit and UIKit
through Objective-C; those calls, and the decisions woven into them, are not
part of this crate. What can be parted from them (batch validation, install
order and outcome, style values, probe settings) is in `macos_glass`.

`app/` holds what stays outside the proofs: reading the environment, the
worker thread of the octos provider, the global action channel, and the
floating-point layout helpers. `tests/` exercises the library on concrete
values.
