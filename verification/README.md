# HamHawk

A receive-only monitoring workstation for internet SDRs (KiwiSDR, OpenWebRX)
and internet audio feeds: it streams audio, draws waterfalls, transcribes
voice with Whisper, decodes CW, RTTY, PSK31 and FT8/FT4, raises keyword
alerts, records, and exports what it heard as an ADIF or CSV logbook.

## Layout

- `src/` — the library, verified with Verus: the ADPCM codecs of both
  servers, the frame readers and session decisions of each source, the
  speech segmenter and slot windows, the Morse/Baudot/varicode text readers,
  receiver routing and the session cap, reconnect backoff, settings storage,
  the transcript query text, alerts, the logbook export, recording names and
  folders, and the pacing of workers, meters and downloads. Each public
  function states its result in its `ensures`; the `lemma_*` proof functions
  state the laws that relate several calls.
- `tests/` — tests of the library on concrete values.
- `app/` — the program around it: WebSocket and HTTP I/O, SQLite, tasks,
  floating-point signal processing, Whisper, and a command-line front end
  that prints events as JSON lines (`hamhawk help`).
