# dockrs

A Docker management service: a web API over one local Docker engine and
any number of remote engines reached through agents, with a verified core.

- `src/` is the library, verified with Verus. Each module states in its
  contracts what the service decides: request validation (`resources`,
  `environments`), the answers built for environments, containers, images,
  volumes, networks and swarm stacks (`environments`, `resources`,
  `stacks`, `overview`), engine snapshot bookkeeping (`snapshot`,
  `docker`), the agent protocol and its pending-command table (`agent`,
  `agent_client`), sign-in decisions over Argon2id hashes (`auth`), start-up
  settings (`settings`), and the small key-tagged map the caches and
  registries are built on (`tagged_map`). `text` holds the character-level
  helpers with their specifications.
- `app/` is the program around it: the HTTP server (axum, sessions, SQLite),
  the Docker engine calls (bollard), the agents' websocket streams and the
  agent process itself (`dockrs agent`).
- `tests/` exercises the library on concrete values.
