# translate

Verified core of a real-time, two-way voice translation pipeline: the
microphone is captured, cut into frames, filtered by voice activity
detection and sent to Gemini Live Translate; the translated audio comes
back and is played on a (possibly virtual) output device.

## Layout

- `src/` — the library, written in Verus and verified:
  - `audio` — PCM frames and their little-endian bytes, the sample ring
    buffer, device descriptions and the backend interface;
  - `dsp::vad` — energy and zero-crossing voice activity detection with
    attack, hangover and an adaptive noise floor;
  - `devices` — device classification, snapshots, snapshot diffs and the
    projection of devices lost while in use, the device manager;
  - `diagnostics` — frame energy, the structural isolation check of the
    routes, the loop-guard hysteresis;
  - `engine` — session states, route matrix, reconnect budget, bounded
    queues, the loop-guard windows and the decisions of the audio pump;
  - `gemini` — protocol messages, the PCM ↔ base64 codec, lossy frame
    queues and the reconnection backoff;
  - `cli` — command-line argument lookup.
- `tests/` — tests of the library.
- `app/` — the command-line program: the CPAL audio backend, resampling,
  the floating-point loop detector, the WebSocket session, the per-link
  tasks and the orchestrator, and the JSON forms of the messages.
