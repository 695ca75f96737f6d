# pi_smart_clock

The computing core of a Roman-numeral desk clock, written in Verus. The
functions under `src/` carry contracts that Verus proves, except a few small
trusted wrappers, marked `#[verifier::external_body]`, whose contracts are
taken on trust: the chrono date calls in `calendar` (`from_ymd_opt`,
`weekday`, `pred_opt`, `checked_sub_days`, `checked_add_days`),
`String::push` in `text`, `Path::file_name` in `platform::linux_audio`, and
`Path`'s `==` in `storage::linux`.

- `calendar`, `modules::holidays` — civil dates (through chrono), Easter and
  weekday rules, per-country holiday tables, the holidays panel.
- `modules::weather` — weather configuration lines, WMO codes, air quality,
  cache validity, and the weather panel's refresh decisions.
- `modules::{config, faces, zodiac, calendar, venus_pentagram, bar, ...}` —
  panel configuration files, face configuration and artwork placement, the
  simpler panels and where the panel bar puts its text.
- `storage` — logical paths, their XDG and SD-card locations, and the
  ordered candidate lists for configuration and media files.
- `platform` — DVI scanline geometry (integer square root, discs, thick
  points, run-length encoded rows), the Pico wall clock, desktop input.
- `runtime` — the UI modes and the decisions of one run-loop tick.
- `timing`, `time_util`, `text`, `conf` — shared helpers.

`app/` is the desktop program around the library: SDL2 window and drawing,
HTTP requests, JSON cache files, floating-point astronomy and scaling.
`tests/` exercises the library on concrete values.
