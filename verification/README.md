# MoonClip

MoonClip keeps the last moments of a game: an embedded OBS runs a replay buffer
in the background, and a hotkey writes it to a clip.

This crate holds the rules of the recorder, verified with Verus:

- `src/` is the library. It decides and computes; it opens no file and starts no
  process. Each function states in its contract what it returns, and functions
  whose names start with `law_` state what holds of several of them together.
- `tests/` runs the library on chosen values, with the crates it calls.
- `app/` is the desktop program around it, in ordinary Rust: processes, files,
  sockets, the window and the tray.

The modules of the library:

| module | what it is about |
| --- | --- |
| `encoder_tables`, `encoder_options`, `encoder_custom` | encoders, their options, and the values a user may give them |
| `settings`, `changes`, `capture` | stored settings, changes of them, and the configuration of a start |
| `profile`, `render`, `obs_files` | what OBS starts from: its profile, scene and websocket files |
| `engine`, `session`, `hardware_test`, `frame_rate` | following a start, a save and a test recording |
| `clips`, `hotkey`, `options` | clip names and lengths, the shortcut, the settings page |
| `detect` | telling games apart from other processes, and when the buffer follows them |
| `linux`, `os` | audio devices, GPU, paths and processes of Linux |
| `json`, `records`, `text`, `paths`, `api` | documents, records, texts, paths and shared types |

What the library takes from other crates and from the standard library without
proof is marked `#[verifier::external_body]` or `assume_specification`, and the
comment above each says what is claimed of it.
