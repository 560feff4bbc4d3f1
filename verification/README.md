# padfx

The control core of a pad sampler with two effect buses, verified with Verus.

`src/` is the verified library:

- `effects` — the effect catalog (`EffectType`, parameter descriptors held as
  exact thousandths, the implemented set, identifier parsing) and the generic
  four-slot `EffectChain`.
- `state` — bus routing, the messages to the audio thread, and the persisted
  effect configuration with the rules for assigning, tuning, mixing and
  removing effects.
- `engine` — the audio thread's state machine: applying commands to buffers,
  voices and effect slots, mute-group choking, removing finished voices,
  buffer read positions, the resampling capture, and the laws that keep the
  persisted configuration and the live chains in agreement.
- `project` — the directory-listing order and the debouncing autosave.
- `audio_files` — which files and WAV sample layouts can be loaded.
- `ipc` — identifiers and labels exchanged with the frontend.

`app/` holds what the library cannot: device and file I/O, threads and ring
buffers, serde forms of the library's types, the desktop shell, and the
floating-point signal processing (effects, compressor, mixing).
