# tokio_process_tools

Tools for consuming the output of child processes: reading stdout and stderr in chunks, cutting them
into lines, collecting, inspecting or forwarding them, waiting for a line, and naming and
configuring the processes themselves.

The decisions are verified with Verus and live in `src/`. Nothing in there does I/O. Where the
outside world has to act, a type says what to do next and is told how it went:

| Module                             | Decides                                                   | Laws                              |
|------------------------------------|-----------------------------------------------------------|-----------------------------------|
| `output_stream::line::parser`      | where lines begin and end, and what a limit cuts off      | `line::laws`, `line::splitting`   |
| `output_stream::line::adapter`     | which visitor sees which line                             | `output_stream::consumption`      |
| `output_stream::line::dispatch`    | the same for visitors that wait between lines             | `output_stream::forwarding`       |
| `output_stream::single_subscriber` | when to read, send, drop a chunk or announce a gap        | `output_stream::delivery`         |
| `output_stream::collection`        | what is retained of collected output                      | `output_stream::retention`        |
| `output_stream::visitors`          | what inspecting, collecting, writing and waiting do       | `consumption`, `forwarding`       |
| `output_stream::config`, `policy`  | which stream configurations are valid                     | `output_stream::config`           |
| `output_stream::consumer`          | what the results of consumer tasks mean                   | contracts                         |
| `process`                          | how processes are named and configured                    | `process::name`                   |

`src/buffers.rs` holds what is trusted of the `bytes` crate. Other trusted items stand where they are
used, each with a doc comment that says what it claims.

`app/` runs these decisions on tokio: it spawns the tasks, reads and writes, and waits. `tests/` runs
the library on concrete values.
