# splitway

Split-DNS for VPNs: names under the configured domains are resolved through the
VPN's resolver, and everything else goes direct. A daemon watches the VPN and
installs or removes the rules; a command-line client talks to it over a unix
socket.

## Layout

- `src/`: the library. All that is decided or computed, written in Verus and
  proved against its contracts. Nothing here performs an effect: where one is
  needed, a function returns a step that names it, and another takes up its
  outcome.
  - `daemon/`: the state owner (`model` what it does, `state` the code, `laws`
    what holds of it), the control socket (`ipc`) and starting up (`startup`).
  - `backend/`: installing and removing rules, with `resolvectl` on Linux and
    with resolver files and `scutil` on macOS.
  - `detector/`: noticing a VPN, through NetworkManager, through OpenVPN's
    management interface, and by the macOS resolver configuration.
  - `command`, `cli`: the daemon's arguments, and what the client prints.
  - `config`, `platform`, `wire`: the data that the rest works on.
  - `interfaces`, `resolve`, `exec`: classifying interfaces, the resolver of a
    device, and how outside programs end.
  - `text`, `lists`, `paths`: strings, lists and paths, and their models.
- `tests/`: the library, run.
- `app/`: the programs around it, in ordinary Rust. They carry out the steps.
  Besides the crates in `Cargo.toml` they use `splitway_shared`, which holds the
  configuration file, the protocol and the rules for host names that all of the
  project's programs have in common.

Proof functions whose names begin with `law_` state what holds across several
functions.
