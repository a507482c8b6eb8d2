# ssh_migrator

Verified core of a tool that moves an `~/.ssh` directory between two machines
over an end-to-end encrypted Noise (`NNpsk2`) session keyed by a six-digit
pairing code, directly or through a relay that pairs peers by a separate
rendezvous room and never sees the code.

`src/` is the library, checked by Verus:

- `protocol` — constants, control messages, pairing codes, the HKDF-derived
  pre-shared key and its wiping.
- `framing` — the 4-byte big-endian length framing and its size limit.
- `transport` — the Noise handshake and session on top of `snow`, with a
  record of the messages each side wrote and read.
- `transfer` — the sender and receiver state machines after the handshake:
  key confirmation, the user's decision, `Meta`, chunks, `Done`,
  acknowledgement.
- `receive` — the receiver's per-address rate limit, address masking, banners,
  confirmation prompt and answer.
- `relay` — rendezvous rooms, the greeting line, the relay's table of waiting
  peers, and its logging helpers.
- `archive` — zstd compression of the tar archive, the listing of its entry
  paths, and which of them may be extracted.
- `address`, `text` — address and number formatting.

`app/` holds the command-line program: sockets, files, the terminal, the tar
walk and extraction, JSON for control messages, and the lock that shares the
relay's pairing table between connections.

## Relay command

Through a relay the sender gives the rendezvous room as well as the code:

```bash
sshmigrate receive --relay relay.exemple.fr:8443
sshmigrate send --relay relay.exemple.fr:8443 --to relay.exemple.fr:8443 --room 704316958 --code 482915
```

The receiver's relay banner has six lines: the mode, the pairing code, the
relay, the room (`Relay room: 704316958`), and the command above to run on
the source machine. The command differs from a plain
`send --relay R --to R --code C` by `--room`, on purpose: the relay pairs the
two ends by the room, a random nine-digit number, and the greeting each end
sends it (`HELLO <room>`) holds the room only. Were the ends paired by the
pairing code, the relay would hold the one secret the session's pre-shared key
is derived from, and could complete a handshake with each end and read the
traffic; the trust model, under which the relay is untrusted and only ever
forwards ciphertext, rules that out.

The relay itself runs as `sshmigrate relay` (port from `PORT`, 8443 by
default).
