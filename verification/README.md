# rfp

A tunnel that exposes services behind a firewall on the ports of a public
server. A client keeps a control channel to the server and registers proxies;
each user connection to a registered port travels through a tunnel of its own,
over TCP or as a stream of one QUIC connection.

The library under `src/` holds the protocol and its rules, written and proved in
Verus. It performs no network or file access: callers hand it bytes and events
and carry out the actions that it returns.

| Module | Content |
|---|---|
| `msg`, `json`, `frame` | control messages, their JSON form, length-prefixed frames |
| `describe`, `fault` | messages and wrong values in reports |
| `fingerprint`, `clock` | certificate fingerprints, time stamps |
| `server::auth`, `server::config` | tokens, users, port ranges, virtual hosts |
| `server::state`, `server::session` | registry of proxies, waiting user connections, control sessions |
| `server::tls` | where the server's certificate is kept and how it is made |
| `client::config`, `client::session` | configuration, handshake, registration, established session |
| `client::tls`, `client::tunnel` | trust in the server, local services behind tunnels |
| `protocol` | laws of client and server together |

`app/` is the program around the library: sockets, TLS and QUIC endpoints,
configuration files and the event loops.

```
rfp server -c rfps.toml
rfp client -c rfpc.toml
```

Public functions named `law_...` are theorems about the library. What is taken
on trust are the contracts of the functions marked `external_body`: each wraps
one piece of work by other crates (`serde_json`, `sha2`, `uuid`, `rustls`,
`rustls-webpki`, `rustls-pemfile`, `rustls-pki-types`, `rcgen`), made of one call
or of a few in a row, or reads the system clock. Its comment names the calls and
says what is assumed of them. Of the standard library, `String::push` and the
quoting of strings are given contracts in `text`.
