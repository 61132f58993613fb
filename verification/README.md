# carbide

Verified core logic of the bare-metal provisioning services, written in
Verus: each public function states its result in its contract, and the
properties that span several calls are proved as lemmas.

Layout:

- `src/` — the verified library.
  - `dns`, `negative_cache` — reverse-DNS names and the negative-answer cache.
  - `flavor` — the DPU flavor and its content-derived name.
  - `nvue`, `nvue_config`, `gnmi` — switch health collection over REST and gNMI.
  - `health_report`, `site_explorer` — operator-facing rendering.
  - `switch`, `dpa`, `compute_tray`, `machine`, `firmware` — controller decisions.
  - `secrets`, `secrets_metrics`, `measured_boot` — the secrets journal and
    measured-boot conversions.
  - `text`, `clock` — string helpers with their specifications, and the clock.
- `tests/` — tests of the library on concrete values.
- `app/` — the services around it: serde forms, network and JSON conversions,
  float readings, Prometheus instruments, table output and host commands, and
  the loops that run database, vault and RMS calls between the library's
  decisions.
