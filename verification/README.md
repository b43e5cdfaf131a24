# Cegel Print Bridge

A local daemon that receives ESC/POS jobs from the Cegel web app on
`127.0.0.1:9101` and sends them to the thermal printer attached to the
machine (network, USB or serial), opens the cash drawer, and pairs the
machine with a Cegel business.

## Layout

- `src/` — the library, written in Verus and verified:
  - `config` — the persisted configuration, printer management and the
    completion of stored origins with the default ones;
  - `server` — who may call the bridge, how a print job is checked and
    resolved, printer configuration, test and drawer jobs, health and CORS;
  - `adapters` — the transport that a connection names, refused addresses,
    serial path rules, USB endpoint choice and write checks;
  - `win_usb` — device path matching and pipe choice for native Windows USB;
  - `usb_scan` — the USB printer list (dedup and ordering);
  - `pairing` — the pairing state machine, heartbeat and unpairing;
  - `ticket` — the ESC/POS test ticket and drawer pulse;
  - `commands` — the decisions behind the desktop window commands;
  - `text`, `types` — text helpers with exact specifications and the job
    and answer types.
- `app/` — the program around the library: HTTP server, JSON, file storage,
  TCP/USB/serial I/O and the pairing and heartbeat loops.
- `tests/` — tests of the library.
