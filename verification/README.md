# anyvmd

A remote-access agent for Redox OS, which ships none. It is a telnet server on
port 23 that runs command lines and moves tar streams.

- A command line goes to `/bin/ion -c` on a pseudo terminal, and what the shell
  writes goes back over the connection. Nothing that came in is echoed.
- A line with `tar -xf -` or `tar x` unpacks the archive that follows into the
  directory in single quotes. The agent answers `anyvm-tar-done` once that went
  well, and closes the connection either way.
- A line with `tar -cf -` or `tar c` sends that directory as an archive and closes
  the connection.

The archiver gets the socket itself, because a terminal must not carry an archive.
The shell gets a terminal, because on a socket it would wait forever for an answer
about the terminal.

## Layout

`src/` is the verified library. It holds everything that the agent decides, and
makes no system call. Each part hands out the next action as a value and takes in
what became of it:

| module     | what it is about                                                |
|------------|-----------------------------------------------------------------|
| `server`   | taking the port, the terminal, one connection behind the other  |
| `session`  | one connection: what is read, answered and run                  |
| `telnet`   | the framing in both directions, and negotiation                 |
| `commands` | cutting a stream into command lines                             |
| `dispatch` | what a command line asks for, and the plan to do it             |
| `launch`   | how a program is started: arguments, environment, stack         |
| `spawn`    | making a child, step by step, and waiting for it                |
| `search`   | finding text in a line                                          |
| `arena`    | the heap                                                        |
| `line`, `report` | what is written to the console                            |
| `kernel`, `text` | system calls as values, and literals as bytes             |

The proof functions whose names begin with `law_` state what holds of the agent as
a whole: that framing loses no byte, that every line is run once and in order, that
no descriptor leaks on any path, and so on.

`app/` is the program: the entry point, the heap behind raw pointers, and the loops
that make the system calls. On Redox it also links `redox-rt`, the runtime crate
that makes processes, which comes with the sources of the C library there.

`tests/` runs the library on concrete values.
