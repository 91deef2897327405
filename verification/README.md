# efact_hardware_agent

Local hardware agent that bridges a web point of sale to a thermal printer
and an RS-232 scale. The library under `src/` holds the agent's logic,
verified with Verus:

- `text` — character-level operations (trim, ASCII case, search, words)
  specified over `Seq<char>`.
- `config`, `config_store` — the configuration, its defaults, partial
  updates and the stored configuration.
- `paths` — where configuration and logs are kept, from the environment
  values the caller reads.
- `icon`, `tray` — tray icon style names and the status line.
- `cors` — the cross-origin headers of the local API.
- `scale::protocols` — the weight-line parsers of every supported scale
  protocol; weights are kept as decimal literals.
- `scale::reader` — framing of the serial byte stream into lines and samples.
- `scale::manager` — the supervisor's decisions, serial settings, status
  and reading bookkeeping, and weight stability.

`app/` is the program around it: the HTTP API (axum), the tray (tray-icon,
winit), file and serial I/O, threads, and the floating-point parts (unit
conversion, stability tolerance, icon drawing).
