# juno

An agent registration and message relay server. Agents register themselves
(hostname and address) and post status messages; browsers watch the messages
over a websocket.

- `src/` is the verified library (Verus): the relay of messages to sessions
  (`agent_server`), the websocket session (`ws`), the agent records and the
  registration run against the database (`models`, `db`), the replies of the
  routes (`handlers`, `http`) and the routing table (`routes`).
- `app/` is the server binary: actix actors, the HTTP handlers' I/O, Postgres
  through diesel, and the tera templates. It hands the library plain values and
  performs what the library decides.
- `tests/` exercises the library on concrete values.
