# oxy

Oxy is a remote access tool designed to resist man-in-the-middle attacks:
a server only listens for TCP connections after a client has knocked with a
time-based value derived from a shared secret, and both ends authenticate
with long-term keys and a pre-shared key.

This crate holds the logic of the tool as a library whose behaviour is
stated in `requires` / `ensures` contracts and proved with Verus.

## Layout

- `src/value.rs`: the document model of configuration files (TOML values).
- `src/config.rs`: instance configs, merging and layering them.
- `src/conf.rs`: reading keys, ports and settings out of the client and
  server configuration files.
- `src/peers.rs`: editing configuration files: learning and forgetting
  clients and servers, naming clients, fresh server files.
- `src/sealed.rs`: passphrase encryption of whole configuration files.
- `src/keys.rs`: knock values, their cache, the knock port, and finding a
  client by its public key.
- `src/admission.rs`: knocks admitting addresses at the server.
- `src/message.rs`, `src/handler.rs`: the protocol's messages and what each
  end does with them.
- `src/metacommand.rs`: the grammar of the client's prompt commands.
- `src/transfer.rs`: file copies: locations, the copy queue, chunks and
  progress.
- `src/ui.rs`: the client's terminal: escape keys and the progress bar.
- `src/tunnel.rs`: the request that attaches a tunnel device.
- `src/noise.rs`: the Noise handshake that authenticates both ends.
- `src/session.rs`, `src/socks.rs`, `src/entry.rs`, `src/cli.rs`: sessions,
  the SOCKS5 proxy, starting instances, and command line decisions.
- `src/crypto.rs`, `src/base32.rs`, `src/util.rs`, `src/paths.rs`: the
  calls into `ring`, `snow`, `data-encoding`, `byteorder` and std, numbers,
  and paths.
- `app/`: the `oxy` command: argument parsing, configuration files, key
  generation, and the server's packet loop.
- `tests/`: tests of the library on concrete values.
