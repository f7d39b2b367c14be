# axus

The decisions and data layouts of the Axus peer-to-peer daemon, written in
Verus and proved against their contracts.

`src/` is the library:

- `session_registry`, `node_connector`, `node_finder`: which of two sessions with
  the same node is kept, the registry of sessions, the choice and reservation of
  the next node to dial, the handshake checks, where an asset can be found.
- `codec`, `api`, `session_message`, `node_finder_message`, `data_message`,
  `model_codec`: the field layout of each message and of the hashes, asset
  keys, file references and Merkle levels it carries, as maps of numbered
  fields, with the law that reading what was written gives it back.
- `block_split`, `file_publish`, `file_subscribe`, `hash_model`, `encoder_jobs`:
  cutting a file into blocks, the levels of its Merkle tree, how a file is
  committed, the files being encoded, and how a download progresses.
- `error`, `error_source`, `daemon_error`, `api_error_kind`: the error kinds,
  their texts, and how failures become errors.
- `config`, `executor`, `server`, `tcp_connector`, `tcp_accepter`,
  `node_finder_option`: the daemon's configuration and the choices of its
  entry point, API server and TCP transport.

`app/` is the `axus-daemon` program: the command line, the lock on the
configuration directory, reading the configuration file, logging, and waiting
for a termination signal.
