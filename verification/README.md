# tvoice

Offline voice dictation for Windows: hold (or press) a hotkey, speak, and the
recognized text is typed at the caret. Recognition runs locally with
whisper.cpp and its ggml models.

## Layout

- `src/` — the verified library (Verus): the decisions and the data of the
  program, each public function with a contract.
  - `streaming` — streaming dictation: the draft of the phrase corrected in
    place (frozen start, edits that never begin with a space, commit on
    interference), and the tick-by-tick decisions of the streaming loop.
  - `vad` — the speech/silence switch (hysteresis, rise, ringing) and the
    reading of its marks; `wav` — PCM16 WAV headers, samples, mix-down.
  - `hotkey` — combinations, key names, capture and press/release edges.
  - `inject` — insertion settings and queue, corrections, keyboard plans in
    UTF-16 that never split a surrogate pair.
  - `download`, `models` — resuming downloads, release assets, engine install.
  - `server`, `transcribe`, `bench` — whisper-server routing, command lines,
    the request body, text clean-up, word errors.
  - `permission`, `mic`, `sound`, `tray`, `overlay`, `caret`, `userinput`,
    `control`, `dictation`, `config`, `lang`, `log`, `autostart`, `hud`.
  - `text`, `words` — text primitives over `Seq<char>`.
- `tests/` — tests of the library on concrete values.
- `app/` — the Windows program around the library: WASAPI capture, the hotkey
  and input hooks, `SendInput` and the clipboard, processes and HTTP, files,
  and the float signal work (energy, resampling, fades).

## What the program here does, and what it lacks

The program in `app/` runs the dictation engine in the background (hotkey,
capture, streaming or one-shot recognition, insertion, start/stop cues) and
these commands:

```bash
tvoice                                      # the engine; Ctrl+C to quit
tvoice --probe                              # microphone permissions and devices
tvoice --vad-file <file.wav>                # voice activity over a file
tvoice --idle-test [file.wav]               # the 10-second auto-stop, in real time
tvoice --sound-test [n]                     # start/stop cues and their latency
tvoice --stt-bench <wav> <reference text>   # recognition quality
tvoice --rewrite-sim <draft> <draft> …      # how much text a refinement rewrites
tvoice --transcribe <file.wav> [model]      # recognize one file
tvoice --download <model> | --install-engine [--gpu]
tvoice --autostart status|on|off
tvoice --set-hotkey                         # capture a new hotkey, then run
```

It has no settings window, no tray icon and no caret indicator. The settings
window was drawn with egui and eframe, which are not among the dependencies.
The tray icon and the indicator pill near the caret are windows of their own,
drawn with the `windows` crate and floating-point pixel work (pulsing rings,
blending, anti-aliased shapes); that drawing, and the UI Automation caret
lookup, were not carried over. The decisions those parts make (`tray`,
`overlay`, `caret`, `hud`) are in the library, with their contracts, but
nothing in `app/` calls them yet.
