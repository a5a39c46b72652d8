# Zoog

A sound browser, macro controller and phrase looper for the Arturia
MiniLab 3 and CLAP instruments.

`src/` is the library. Everything in it is verified with Verus: what a
function does is stated in its `requires` and `ensures`, and the `law_`
proof functions state what holds of several of them together.

| module | what it does |
| --- | --- |
| `midi` | decoding and mapping of messages, SysEx, captures, ports, rate limiting, the device trait and its mock |
| `engine` | plugin selection, presets, events, timers, port layouts, mixing, stream negotiation, callback counters |
| `library` | the preset library: statements, rows, rescans |
| `app_core` | loops and their playback, browsing, macro mappings, soft takeover, the control and host threads' logic |
| `gui` | the window's state and what it shows |
| `cli` | arguments and output of the programs |
| `text`, `time`, `paths` | helpers |

`app/` is the program around it: threads, the audio stream, the plugin host,
the database, the window and the `labctl` debug tool. Numbers that are
floating point (parameter values, levels, screen positions) are worked out
there; the library carries them as values of a type parameter.

`tests/` runs the library from outside.
