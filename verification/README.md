# chico

A web server and load balancer configured by a small text format, with its
logic written in Verus and proved against specifications.

- `src/` is the verified library:
  - `text`, `hints`: character-sequence utilities with their specifications;
  - `grammar` (the configuration format as specification functions) and
    `parser` (the executable parser, proved to follow it); `config_file` and
    `report` are the entry points on text, with the messages that explain a
    parse failure (`diagnostics`);
  - `types`, `uri`: the configuration model and the URI parts it reads;
  - `validate`: the checks applied before serving (duplicates, ports);
  - `respond`, `handlers`, `balance`, `plan`: fixed responses, the decisions
    of the file, redirect and proxy handlers, upstream balancing, and the
    routing of a request to its handler;
  - `daemon`: starting and stopping the background server as a sequence of
    steps.
- `tests/` exercises the library on concrete inputs.
- `app/` is the `chico` command: argument handling, file and network I/O,
  and the loop that carries out the daemon steps.
