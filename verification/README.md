# modelwire_server

The server of ModelWire, a relay for model APIs. Clients speak the Responses
protocol to it; it picks an upstream target for the model they ask for, speaks
that target's protocol, falls back to the next target where that is allowed,
and keeps what is needed to continue a conversation. Administrators change
providers, routes and targets through an API of their own.

The decisions stand in `src/` and are verified with Verus. Network, database
and archive are ordinary Rust under `app/`, which hands the library plain values
and does what it answers.

## Layout

- `src/relay/` relays requests: reading a request (`request`), the targets of a
  route (`target`) and the walk over them (`selection`), the context window
  (`context`), earlier responses (`continuation`), one call (`attempt`), streams
  (`streaming`), answers (`response`), what is stored (`persist`) and archived
  (`archive`), compaction (`compaction`) and the search for a target's protocol
  (`probe`).
- `src/middleware/` admits requests: client keys and limits, administrators,
  origins, request ids, what is logged of a request.
- `src/admin/` is the administration of providers, routes and targets, of imports
  and of what is shown of logs and probes.
- `src/routes/` answers the remaining requests of clients.
- `src/request_limiter.rs`, `src/secrets.rs`, `src/janitor.rs`, `src/server.rs`,
  `src/runtime_config.rs` and `src/cli.rs` hold the limits, the protection of
  stored keys, the cleanup of the store, the conditions of a start, the first
  filling of the store and the command line.
- `src/json.rs`, `src/text.rs`, `src/clock.rs` and `src/ids.rs` hold what the rest
  builds on.
- `tests/` runs the library, `app/` is the server itself.

## What is proved

Each public function says in `ensures` what it returns, over a spec function that
gives the result from the views of the arguments. What holds across functions is
stated by public proof functions beside them: a conversation continues only where
it began (`handle_stays_where_it_was_made`), a stream that has begun is never
handed to another target (`commit_is_final`), a request that does not fit the
context window of a target is not sent to it (`overflow_is_never_sent`), a key
reaches only the models and providers it is meant for
(`keys_stay_within_their_scope`), a living conversation is not cleaned away
(`living_chains_are_kept`), and more.

What the library has from other crates (JSON, AES-GCM, Argon2, SHA-256, base64,
the clock, random ids, the concurrent map, the command line parser) it calls
through small functions marked `#[verifier::external_body]`. Their doc comments
name the function called and say what is taken for granted of it.
