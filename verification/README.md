# denki

Control of TP-Link Kasa and Tapo smart devices on the local network — no
cloud. The library in `src/` is written in Verus: its functions carry
contracts and Verus proves that the code meets them.

## Layout

- `src/` — the verified library
  - `cipher` — the XOR autokey cipher of the legacy Kasa protocol
  - `klap`, `http` — the KLAP handshake and AES session of Tapo devices, and
    the HTTP heads it reads and writes
  - `json` — JSON values as the devices exchange them
  - `ops` — the request of every device operation
  - `classify`, `devices` — device kinds, the model registry, capability
    guards and hints
  - `bulb`, `plug`, `dimmer`, `strip`, `tapo` — device state
  - `hosts` — the alias registry (sorted, one entry per name)
  - `resolve`, `group`, `scan`, `doctor`, `effects`, `display`, `hints`,
    `admin`, `creds`, `transport`, `fmt`, `text` — command decisions,
    messages and formatting
- `tests/` — tests of the library
- `app/` — the `denki` command line: argument parsing, files, sockets and
  colored output around the library

## Laws proved

Among the public proof functions: decoding undoes the cipher
(`cipher::law_decode_undoes_encode`), a saved alias is found again
(`hosts::law_lookup_after_set`), a removed one is not
(`hosts::law_get_after_remove`), normalizing a name twice changes nothing
(`hosts::law_normalize_idempotent`), the registry agrees with the capability
guards (`devices::law_registry_matches_guards`), a device that knows the
auth hash passes the KLAP handshake (`klap::law_honest_device_passes`), and a
KLAP request reads back as the session's own reply (the contract of
`KlapSession::encrypt`).
