# swaperooni

Hot-reload a child process without tearing down the parent PID, and proxy
the common termination signals into the child.

- If the child exits, swaperooni exits with the same code.
- If a swap is requested, the child is torn down (SIGTERM, then SIGKILL after
  five seconds) and the new command is started in its place.

Swap requests arrive one of two ways:

- `ipc`: a child writes a newline-terminated command line
  (`program arg arg ...`) to the Unix socket at `SOCKET_PATH`.
- `poll`: the modification time of an executable is watched; when it
  changes (to a later or an earlier time), the executable is run again
  with the arguments given after it.

## Layout

- `src/` is the verified library (Verus). It holds the decisions: parsing
  swap requests (`ipc`), the first command and the listener choice (`init`),
  the modification-time watch (`poll`), waiting for a new child's pid and
  the `kill` arguments (`swap`), the supervisor's state machine
  (`supervisor`), and version counting (`version`).
- `app/` is the program around it: command-line parsing with clap, tokio
  processes and sockets, signal registration with signal-hook, and the loop
  that performs the supervisor's actions.
- `tests/` runs the library on concrete inputs.
