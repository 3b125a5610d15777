# stark-backend

The decision logic of the stark-bot backend, written in Verus and proved
against its contracts.

- `src/` — the verified library: amount conversion, URL and JSON handling,
  the agent registry and its sync with the remote account, command routing,
  the gateway's authentication exchange, the keystore restore steps, the
  credits and x402 payment flows, the seed configuration file, the pack
  seeding decisions and the provisioning of the seed's agents. Calls into `serde_json`, `uuid`, `url`, `hex`,
  `base64` and `chrono` go through small trusted wrappers whose contracts
  say what those crates return.
- `tests/` — tests of the library on concrete values.
- `app/` — the program around it: environment and files, the SQLite store,
  and the seeding tool's command line.

Each `law_*` proof function states a property that spans several
functions (round trips, read-after-write, idempotence of the seeding tool).

Parts of the service that need crates this build cannot have stay out of
both `src/` and `app/`: the HTTP server and WebSocket plumbing (actix,
tokio), wallet signing and chain calls (ethers), the Starflask and keystore
HTTP clients (reqwest and the Starflask SDK), and pack publishing
(axoniac). Where the library decides what such code does — the gateway's
authentication exchange, the keystore restore, the session polling, the
agent sync and provisioning, the credits and payment flows — the decisions
are verified state machines or functions here, and the outside work is left
to whatever runs them.
