# lager

A client library for Lager boxes: the HTTP/JSON API on port 9000 (net
commands, discovery, health, locks, USB enumeration, safety limits), the
debug service on port 8765, the box's Socket.IO streaming namespaces and the
authenticating gateway that may sit in front of a box.

## Layout

- `src/` is the verified library. Every request the clients send is built
  here, every reply is parsed here, and every decision the transports take
  (which token to attach, when to resolve the auth server, when to retry a
  denied request, how a refused tunnel is answered) is a function from state
  and event to the next step, with a contract proved by Verus.
  - `text`, `codec`, `json`: strings, hex/base64 and the JSON value model.
  - `render`: how a JSON value reads in an error message.
  - `error`: the crate's single error type.
  - `wire`: request builders and reply parsers for the box API.
  - `auth`: gateway authentication, the token store format and refresh.
  - `transport`: the request/retry state machine shared by both clients.
  - `tunnel`: HTTP `CONNECT` tunnels to the raw debug ports.
  - `nets/`: one module per net type and box-level capability.
  - `client`: builder settings shared by the blocking and async clients.
- `app/` holds what performs I/O: the blocking client over `ureq`, the async
  client over `reqwest`/tokio, the Socket.IO sessions, the token store on
  disk, serde record types and the measurements that carry floats. It only
  hands plain values to the library and acts on what comes back.
- `tests/` exercise the library from outside, against recorded box replies.
