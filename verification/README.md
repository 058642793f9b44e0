# inertia-core

The core of Inertia, a small peer-to-peer social network: friends exchange
signed, end-to-end encrypted messages, posts and comments over libp2p relay
circuits, and everything expires after a week.

The library under `src/` is written in Verus. Every function carries a
contract that Verus proves:

- `identity`, `crypto`, `hex`, `base64url`: keys, signatures, sealed boxes
  and their text encodings. Calls into ed25519-dalek, x25519-dalek,
  chacha20poly1305, sha2 and base64 sit behind small trusted wrappers whose
  contracts name what those crates compute.
- `invite`: friend invites — signing, the JSON payload, the share link,
  decoding and verification.
- `content`, `storage`, `expiry`, `time`, `uid`, `json`, `text`: envelopes,
  stored records and the helpers they are built from.
- `engine`: the decisions of the running node — relay lists and dial order,
  presence, invite readiness, outbox delivery, feed merging, media fetch
  progress, the activity log and the connection status shown to the user.
- `api`, `shell`: request checks of the local HTTP API and the start-up
  decisions of the desktop shell.

Laws that span several functions (round trips of encodings and encryption,
sign/verify, order-independence of relay lists, ordering of feeds and
conversations, dial order) are public proof functions next to the code they
speak of.

`app/` is a small command-line front end that feeds the library values from
the environment and the command line; `tests/` exercises the library on
concrete values.
