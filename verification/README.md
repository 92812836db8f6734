# tool_runtime

A runtime for tools that a gateway manages on behalf of model clients: it rewrites the tools that a
client declares, authorizes and carries out the calls that a model makes, bounds what the model is
told of them, and reports what happened. Everything that decides is in `src/`, with its behaviour
stated in contracts and proved; `app/` is the asynchronous shell around it.

## Layout

- `json`, `serde_value`, `schema`, `text`, `table`, `time`, `uri`, `url`: values and what the rest is
  built on. `serde_value`, `schema`, `uri` and `url` hold the calls into other libraries.
- `config`, `registry`, `mapper`, `decode`, `fields`, `request`, `conversation`, `runtime`: from the
  operator's configuration and a client's declarations to a prepared request (Responses format).
- `messages/`: the same for the Messages format, with its streams and usage.
- `calls`, `program`, `output`, `streaming`, `usage`: what models ask for and what they and clients
  are told.
- `budget`, `operations`, `direct`, `rounds`, `runner`, `telemetry`: limits, batches, the calls of
  one answer, the rounds of a request in turn, and what is observed.
- `http_backend`, `e2b`, `sandbox_run`, `address`, `discovery`, `remote_client`, `remote_tool`: the
  backends, as far as they decide.
- `gateway`: small decisions around managed requests.

The modules that wait for something outside (`sandbox_run`, `operations`, `direct`, `rounds`,
`runner`, `remote_client`) are functions from a state and an event to the next state and an action.
`app/` performs the action and reports the event.

Public proof functions state what holds across functions: that a batch answers every call in its
place, that rounds are counted once and told in order, that a sandbox that was made is cleaned up,
that bounded output fits, that a recorded event is never observed again, that a catalog put together
tool by tool is counted as a whole, that a final message counts all rounds, and others.
