# opm — a verified peripheral manager core

`opm` is the library behind `pmctl`, a vendor-agnostic peripheral manager
for HID devices. The functions in `src/` are verified with Verus against
their `requires`/`ensures` contracts, except one trusted wrapper around
the `hidreport` report-descriptor parser
(`discovery::descriptor::parse_report_id_fields`), whose contract is
assumed. The traits `Device`, `Driver` and the capability traits are
implemented outside `src/`; what they promise is stated on the traits
and relied on, not checked.

## Layout

- `src/capability.rs`, `identity.rs`, `device.rs`, `driver.rs`,
  `registry.rs`, `preset.rs`, `error.rs`, `transport.rs` — the device and
  driver model: capabilities with their names, identities, the driver
  registry, presets, and the transport vocabulary.
- `src/discovery/` — grouping raw HID enumeration entries into physical
  devices (deduplication by path, grouping by USB topology), report IDs
  from report descriptors (parsed with `hidreport`), and classification.
- `src/frames.rs` — report framing, Feature-request values, timeouts and
  interrupt-endpoint lookup for the HID and USB transports.
- `src/ak820/` — the Ajazz AK820 driver: packet layout, which interface
  to open, and the transport steps that set a color.
- `src/cli/` — the command-line front end's logic: selector parsing,
  device selection, per-command actions and their failures, the
  discovery table and report, presets on disk, dates, host details.
- `app/` — `pmctl` itself: argument parsing with `clap`, the `hidapi` and
  `rusb` transports, sysfs reads, JSON through `serde`, printing and exit
  codes.
- `tests/` — executable tests of the library.
