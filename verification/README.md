# harvester_core

The decision library of an ESP32 firmware that passively harvests BTHome v2
BLE advertisements from temperature/humidity sensors and serves them to
Prometheus, with a JSON API for a dashboard. The library is written in Verus:
its functions carry contracts and are proved against them. One item is
trusted rather than proved: `frame::ccm_open_prefix`, the wrapper around the
`ccm` crate's AES-CCM decryption, whose contract (stated over the name
`frame::ccm_open` for the decrypted bytes) Verus believes as written.

- `src/` — the verified library: advert decoding and AES-CCM frame
  decryption (`advert`, `parse`, `frame`), per-device state (`registry`),
  the radio-wedge verdict (`wedge`), the sparkline and log rings (`spark`,
  `logring`), the HTTP bodies (`render`), and the sweep, Wi-Fi, boot and OTA
  decisions (`housekeeping`, `wifi`, `effects`, `ota`, `config`), and the
  site's device table (`site`). `laws`
  states and proves the properties that span calls.
- `tests/` — scenario tests with concrete inputs and golden outputs.
- `app/` — the firmware around the library: ESP-IDF Wi-Fi, NimBLE scanning,
  the HTTP server, NVS and restarts. It performs what the library decides.
