# aiman

Skill management for AI agent applications, verified with Verus.

`src/` is the library: the skill domain and its views, manifest
normalisation, the timestamp text, agent discovery (allow and deny lists,
hidden application folders, ordering and de-duplication), the plan of skill
links, the store index, the text encoding of install states and the local
record store, and the services that decide what installing, toggling and
editing a skill writes and shows. Each function carries a contract; the
laws (round trips, read-after-write, ordering, idempotence) are proof
functions beside the code they speak of.

`app/` is the application around it: the file system under `~/.aiman`, the
Turso database, the server functions and the dioxus pages. It reads and
writes, hands what it saw to the library, and does what the library decides.

`tests/` runs the library on concrete values.
