# whisper_api

A verified library for two speech-to-text services — a batch transcription
API and a streaming ingest service — and the programs that run them.

- `src/` is the library. Its functions are checked by Verus against their
  `requires`/`ensures` contracts, except the trusted items below.
  - `text.rs`: decimal rendering, trimming, case-insensitive comparison and
    character search.
  - `backend/`: the batch service: configuration and its rules, API models
    (subtitle cues and their time stamps, the model catalog, request
    statistics, error codes), file-size texts and container detection, the
    summary of a probed file (track choice, how the packet reading ended,
    packet totals), the language
    table, the assembly of a decoder run's result, and the request rules of
    the HTTP handlers (upload limits, form fields, memory reading).
  - `realtime/`: the streaming service: configuration rules and client version
    checks, token checks and the session table with its expiry, the signaling
    state, transport profiles and bandwidth caps, the ingest route parser,
    PCM decoding and event-stream steps, framing of audio, the mock
    recogniser, the state of a local recognition stream and a whole mock
    session, and the sending, closing and forwarding rules of the pipeline
    task.
- `tests/` exercises the library on concrete values.
- `app/` holds the servers: HTTP (axum, hyper), the WebSocket signaling
  channel, the QUIC transport, file and network I/O, the symphonia probe and
  decoder and the resampler, the speech engine, floating-point signal
  processing, the pipeline and recognition tasks, and serde forms of the
  library's types. symphonia's probe is called there rather than from the
  library: its readers panic on some crafted headers (a zero sample rate, a
  zero Matroska time scale, ADPCM block sizes whose arithmetic overflows),
  and no contract short of restating the readers could leave exactly those
  files out; the probe runs on the transcription worker thread, whose
  failure the handler answers as an internal error.

## Trusted items

Verus takes the contracts of these items as given; each doc comment says
what is claimed of the outside code.

- Wrappers (`#[verifier::external_body]`): `extension_of`
  (`Path::extension`) and `lowercase_of` (`str::to_lowercase`), in
  `backend/audio.rs`; `instant_now`, `instant_after_secs`, `nanos_since`
  (`std::time::Instant`) and `new_session_id` (`uuid::Uuid::new_v4`), in
  `realtime/signaling.rs`; `duration_from_millis` (`Duration::from_millis`)
  and `compare_versions` (`version_compare::compare`), in
  `realtime/config.rs`.
- The specification of `Instant::clone`, in `realtime/signaling.rs`.
- Declared outside types: `std::time::Instant`, `anyhow::Error`,
  `std::io::Error`.
- Names for outside results (`uninterp spec fn`): `path_extension`,
  `unicode_lowercase`, `millis_duration`, `version_order`.

## Not here

- The gRPC recognition client and server need generated protocol code and
  tonic, which this project does not carry; the local recognition service in
  `app/` runs over in-process channels, with the library's `RecognizeStream`
  holding each stream's state.
- The WebRTC transport is not part of this project (its crate is not
  available); the realtime program serves HTTP ingest with the mock
  recogniser.
