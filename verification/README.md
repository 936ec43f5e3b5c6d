# Open Screen

A screenshot tool, screen recorder and text reader for the desktop, in two parts.

- `src/` is the library `open_screen`: its rules, formats and state machines, verified
  with Verus. It does no input or output.
- `app/` is the desktop program around it: windows, tray, hotkeys, files, the network,
  and the devices of the system.

## The library

| Module | What it holds |
| --- | --- |
| `settings`, `merge` | the user's settings, their defaults, and saved settings over them |
| `hotkeys`, `control` | hotkeys, the tray's menu, the windows, and what each does |
| `screens`, `screenshot`, `picture`, `encoding` | monitors, regions, stitching captures, picture files, base64 |
| `history`, `order` | the history of screenshots, and lists of dated things |
| `ocr` | finding the reader, its language data, and what it answers |
| `recorder` | recording and the instant replay: parameters, commands, state, files, history |
| `mp4info`, `mp4mux` | reading MP4 files, and joining segments on one timeline |
| `audio`, `nativerec`, `wgc`, `mfhw` | sound, capture of whole monitors, and encoders in hardware |
| `text`, `paths`, `clock` | text, paths, dates and fresh identities |

What every module promises stands in the `ensures` of its functions. What relates several
functions stands in public proof functions whose names begin with `law_`.

Where the library calls another crate or a part of the standard library that Verus does
not know, the call stands in a small function of its own, marked
`#[verifier::external_body]`. Its doc comment says what is taken on trust.
