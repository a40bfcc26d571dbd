# jellyswarrm_proxy

The verified core of a proxy that federates several media servers behind one
login.

- `src/` is the library. Verus checks its functions against their contracts; the
  few wrappers around outside crates are trusted, and say so.
  - `client_ip`, `headers`: who a request comes from.
  - `login_rate_limit_service`: counting failed logins and blocking clients.
  - `console_admin_service`, `password_hash`, `ui::auth`: operator accounts and
    their sessions.
  - `handlers::login`, `handlers::users`: a client's login, tried on every
    server.
  - `federated_users`: creating and deleting accounts on the servers.
  - `ui::admin`: the decisions behind the management pages.
- `app/` runs the library: HTTP handlers, SQL, and calls to the servers.
- `tests/` run the library on concrete values.

A flow that needs the outside world is a state that names the work to do next.
The caller does that work and hands the outcome back as an event; the library
answers with the next state. What a flow can never do, whatever the outcomes
are, is proved by induction over the events.
