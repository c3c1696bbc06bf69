# iperf_rust

A graphical front end for `iperf3` (GTK4 + libadwaita). The program launches
the system's `iperf3`, reads its human-readable output line by line while the
test runs (`--forceflush`, one report per second) and moves an analog meter.

Layout:

- `src/` — the verified library (Verus):
  - `text.rs`: whitespace, trimming, substring search, decimal rendering;
  - `rate.rs`: the `"<number> <prefix>bits/sec"` readings, with the grammar of
    the numbers that float parsing accepts;
  - `parser.rs`: the state machine from output lines to events, and its laws;
  - `config.rs`: client/server settings and the exact iperf3 command lines;
  - `messages.rs`: error-output cleaning and launch-failure messages;
  - `monitor.rs`: what the interface does for each event and each button click.
- `app/` — the program: windows and widgets, the meter (floating point
  animation and drawing), the `iperf3` process and its reader threads.
- `tests/` — tests of the library on concrete lines and settings.
