# big_totoro

The core of a chat service: an HTTP API that hands out login tokens, and
WebSocket servers that find each other through etcd.

- `src/` is the library, verified with Verus: reading the settings
  (`config`, with `decimal` and `text` for numbers and comma lists), the
  errors and their HTTP answers (`result`), the login tokens (`token`), the
  registry of servers kept from etcd (`etcd`), the connected clients
  (`client`, `state`) and the decisions of a WebSocket connection (`ws`),
  plus the message and user types (`message`, `user_relationship`).
- `app/` is the program around it: reading the environment, the axum
  routes and handlers, the etcd sessions and the WebSocket tasks. Run it
  with `api` for the HTTP API; without an argument it is the WebSocket
  server.
- `tests/` exercises the library on concrete values.
