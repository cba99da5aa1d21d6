# alvr_core

Verified core logic of the ALVR streamer's tooling and telemetry, written in
Verus.

- `src/` — the library. Every function carries a contract that Verus proves,
  except small wrappers around outside calls (`String::push`,
  `str::to_lowercase`, `semver::Version::parse`, and `serde_json`'s
  `from_str`, `from_slice` and `to_vec_pretty` with their value
  conversions), whose contracts are assumed:
  text and number handling (`text`, `num`), `nvidia-smi` and
  LibreHardwareMonitor decoding and reading precedence (`nvsmi`, `lhm`,
  `readings`), headset procfs parsing and
  load samplers (`procfs`), the runtime selector in `session.json`
  (`session`), launcher release bookkeeping (`launcher`), setting paths and
  extension blobs (`packets`), exporter window counters (`metrics`),
  host telemetry records (`hwmon`), panel text (`readout`), Android glue
  decisions (`android`), OpenXR build and registration decisions
  (`buildplan`) and event labels (`events`). Public `law_*` proof functions
  state properties that span several operations.
- `tests/` — executable tests of the library.
- `app/` — unverified glue: file, process and network I/O, threads, and the
  floating-point arithmetic around the library.
