# procnet

A recorder of the network traffic of processes, with its logic verified by Verus.

- `src/` is the library. It groups network events into flows and curves, joins them with the
  processes of the system, watches for risky activity, records sessions, decides what is stored of
  them, and renders what is shown, exported and reported. Every function states in its contract what
  it returns, and Verus proves it. What holds across functions stands as proof functions whose names
  begin with `law_`.
- `app/` is ordinary Rust round the library: the command line tool, the window, the traffic fixture,
  the threads, the calls into Windows, and the SQLite file.
- `tests/` runs the library on concrete values.

## Modules

- Values: `model`, `address`, `duration`, `calendar`, `text`, `wide`, `quoting`, `labels`, `captions`.
- Collections: `ordered`.
- Traffic: `aggregator`, `curve`, `tracker`, `snapshot`, `runtime`.
- Capture: `etw`, `cleanup`, `system`, `tables`, `icons`, `launch`.
- Risk and recording: `alert`, `risk`, `recording`, `journal`, `controller`, `settings`,
  `session`.
- Storage: `storage` (rows), `database` (what each operation changes and answers).
- Output: `export`, `session_export`, `report`, `options`.
- Window: `window`, `rows`, `plot`, `picture`.
- Fixture: `fixture`, `fixture_tcp`, `fixture_udp`.
