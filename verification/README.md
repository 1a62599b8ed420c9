# herdr runtime

The runtime of a terminal multiplexer that hosts coding agents: what it decides, apart
from the terminals, files and threads it decides about. The library under `src/` is
verified with Verus; `app/` connects it to the outside.

- Wait leases (`wait_lease`, `protocol`, `refusal`, `revocations`, `leases`,
  `lease_sync`, `lease_round`, `lease_laws`): an agent that leaves work running in the
  background holds a lease on its pane. The server hands leases out and takes them
  back; a token that was given up is not accepted again.
- The exchange of requests and answers through files (`client`, `exchange`, `text`).
- Timers (`schedule`, `timers`, `tasks`, `task_laws`): when the loop wakes up, and what
  it does then, one task after the other.
- Git status (`git_refresh`): workspaces of one repository are asked about once.
- Input, requests and events (`input`, `api`, `events`, `selection`, `runtimes`).
- The state they share (`app`, `layout`, `terminal`, `names`, `sequences`, `bytes`).

Functions that need the outside in the middle of their work are split: the library
names what it needs and goes on when it is handed the outcome. Work that a decision
leaves to the rest of the program is queued as an `Effect`.
