# noip_duc

The logic of the No-IP dynamic update client, written in Verus and proved
against its contracts.

- `src/update.rs`: building an update request (query percent-encoding, Basic
  credentials), classifying the endpoint's answer, and the retry back-off.
- `src/hostnames.rs`: the comma separated list of hostnames and group names.
- `src/cli.rs`: log level, accepted check interval, duration arguments.
- `src/config.rs`: the desktop client's settings: its ordered set of
  hostnames and which secrets go to the credential store.
- `src/secrets.rs`, `src/service.rs`: credential-store entries, the
  background service's command lines and files.
- `src/hosts_api.rs`: the hostnames an API listing names.
- `src/dashboard.rs`: the desktop client's window as a state machine: what
  each button and each report of the background work does to its state, and
  the outside work (saving, credential store, updater, service) it asks for.
- `src/clock.rs`, `src/text.rs`: time-of-day text and character helpers.

`app/` holds the command line program and the file, process, network and
credential-store work around the library; `app/window.rs` runs the outside
work the window's decisions ask for (its drawing is not part of this crate). `tests/` runs the library.
