# MicroTAK server

A small TAK server: it relays cursor-on-target events between clients, enrolls
devices with certificates of its own authority, keeps missions and uploaded
content, and serves the part of the Marti REST surface that clients need.

The server is split in two.

- `src/` is the library: every decision the server takes, as functions over
  plain values with contracts that Verus proves. It does no I/O.
- `app/` is the daemon around it: sockets, TLS, HTTP, files, JSON, XML and TOML.

## The library

| Module | What it holds |
|---|---|
| `transport::codec` | Cutting a byte stream into events |
| `transport::hub`, `transport::relay` | Who gets which event, and what a connection does next |
| `transport::connections` | Who is connected |
| `cot` | Events and whom they are addressed to |
| `registry` | Devices, their uids and their revocation |
| `missions` | Missions, their history, subscribers and roles |
| `enrollment_tokens`, `users` | Invitations and accounts |
| `pki` | The certificate authority |
| `content_store`, `backup` | Where content goes, and what a backup pass copies |
| `eventlog` | The format of the logs that the stores are rebuilt from |
| `config`, `app` | Settings and what they mean |
| `marti` | What each HTTP request is answered |
| `digest`, `encoding`, `hex`, `random` | Digests, Base64, JSON, hexadecimal and random bytes |
| `table`, `dated`, `text`, `bytes`, `search`, `views` | What the others are made of |

A store never changes on its own. A request is first answered with an event,
the event is appended to the store's log, and only then is it applied; the same
reducer rebuilds the store from its log at start. Functions named `propose_*`
or `begin` decide, functions named `commit`, `finish` or after what happened
take the log's result.

Proof functions named `law_*` state what holds across calls: that it does not
matter how a stream is cut into packets, that no uid has two owners, that a
revocation is permanent, that a mission always has an owner, that an invitation
works once, that a log reads back what was written to it, and so on.

## What is believed

Functions marked `#[verifier::external_body]` call into other crates (`argon2`,
`base64`, `getrandom`, `pem`, `rcgen`, `serde_json`, `sha2`, `x509-parser`) or
into the standard library. The comment above each says what is believed of the
call. Specification functions without a body name results that are only known
to be functions of their arguments.
