# macstate

macOS system signals (network path, power source, battery level, Low Power
Mode, energy mode) as JSON: a command-line tool around a verified library.

- `src/` is the library, verified with Verus. It turns what the system
  reports into the signals: `nwpath` (path status, interface probing),
  `network`, `power` (power source, battery level), `pmset` (the energy mode
  in the text of `pmset -g`) and `text` (whitespace, trimming, lines and
  fields with the meaning of `str::trim`, `str::lines` and
  `str::split_whitespace`). `State::collect` puts them together.
- `app/` is the command-line tool: it reads the system (Network.framework,
  IOKit, `NSProcessInfo`, `pmset -g`; macOS only), hands the readings to the
  library, and prints the result as JSON, a single value at a dotted path
  (`-q`), or an exit code (`--check`).
- `tests/` runs the library on concrete readings.
