# running-process

A library for starting, watching and ending child processes, and for the daemon
and the helpers around them. The decisions stand in `src/`, where Verus proves
that each function does what its contract says. The system calls stand in `app/`.

- `src/native_process.rs`, `src/capture.rs`, `src/output_log.rs`: a child process,
  the capture of its output and a bounded log with cursors.
- `src/independent_*.rs`: launches outside the caller's containment, through a
  service manager, a scheduler or a broker.
- `src/frame_v1.rs`, `src/daemon_frame_v1.rs`, `src/protobuf.rs`: the frames of the
  wire.
- `src/observer*`: lifecycle events, descendants and process watches.
- `src/daemon*`: sessions, request handlers, tees, observers and registration.
- `src/probe*`: registration with the diagnostic daemon and cooperative captures.
- `src/client*`, `src/cleanup*`, `src/maintenance*`: paths, deadlines and
  maintenance commands.
- `src/native_path.rs`, `src/unix_path.rs`, `src/windows_path.rs`: paths as the
  operating system holds them, and what their parts are.

Functions named `law_*` state what holds across several functions.

`app/` performs the actions that the library names and reports back what
happened. Logs, registries, watches and cancellation flags that threads share are
behind a lock there. Decisions that differ between operating systems take the host
or its numbers (`src/host.rs`); `app/host.rs` picks those of the build. What only a
host can do is behind the trait `Host`.
