# librepods

Presence of AirPods over Bluetooth LE, with machine-checked rules.

While no AirPods are connected to this adapter, the application listens for
proximity-pairing advertisements. It resolves the rotating private address of
each advertiser with the stored identity keys, reads wear and battery state
from the advertisements of its own devices, and connects to buds that somebody
wears. A guard on the session bus keeps a second instance from running.

- `src/`: the rules, verified with Verus. The trusted boundary is small: two AES
  calls and `hex::decode` in `crypto.rs`, the JSON reader in `preferences.rs`,
  and the clock types of the standard library in `cooldown.rs`.
- `tests/`: tests of the rules with the real outside crates.
- `app/`: the surroundings, in ordinary Rust: Bluetooth stack, session bus,
  tray and files.
