# airmash-server

Game logic of an airmash server, verified with Verus.

- `src/` is the verified library: the upgrade command (`upgrade`), the
  clean-up after a kill (`killed_cleanup`), the answer to a failed login
  (`login_fail`), the routing of queued messages to connections
  (`poll_complete`), the hand-off of delayed timer events (`future`, `delayed`), the
  component storages and event channels they work on (`storage`), the
  connection table (`connection`), and properties that span calls (`laws`).
- `app/` is the program: logging, panic and interrupt handling, the frame
  loop that runs the systems, and delayed tasks on a tokio runtime.
- `tests/` runs the library on concrete inputs.
