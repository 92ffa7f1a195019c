# LuuxCraft launcher, verified core

The launcher engine's decisions, written in Verus and proved against their
contracts: the client pack and the provisioning block it is identified by,
the central and per-tenant configuration, the panel's answers (configuration,
instances, articles, links) and how a snapshot is put together when some of
them fail, accounts and session renewal, sign-in checks, the skin library and
its textures, settings (merged over the defaults, clamped, validated), Java
detection and version parsing, engine updates (manifest, download checks,
the swap and its put-back), the desktop entry, the game's
run state and output, and the errors the interface is shown.

Layout:

- `src/` — the library; every module is verified. `json.rs` copies
  `serde_json`'s documents into the library's own `Json`; `text.rs` and
  `paths.rs` hold the string and path operations the rest is stated over.
  Each module ends with its laws: public proof functions stating what holds
  across calls (sorting, the account store's lookups, settings clamping,
  redaction, the panel origin of an update, ...).
- `tests/` — the tests, run against the compiled library.
- `app/` — the files, environment and processes around the library: reading
  and writing `settings.json`, `accounts.json`, the provisioning files and
  the desktop entry, finding the client pack, probing Java, starting the
  game and batching its output, storing and swapping a downloaded engine.

Outside crates: `serde_json` (parsing), `sha2` (install keys and update
digests) and `base64` (skins, provisioning) are called from the library
through a few trusted wrappers whose contracts name their results; `serde`
derives live in `app/` only.
