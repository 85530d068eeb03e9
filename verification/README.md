# warp-keeper

Keeps a WARP connection alive: checks it through its network interface (`ping`, `tcp` or `http`),
renews it by running commands once it has failed often enough in a row, and verifies it then.

- `src/` is the library, verified with Verus. It holds the rules: configuration and its validity,
  the detection of clients, the choice of the interface, what each check asks and how its answer is
  judged, the order of connection attempts and of reconnect commands, the watch as a state machine,
  and the lines of the log. It computes and decides, and does no input or output.
- `app/` is the program around it: the command line, the configuration file in TOML, sockets,
  commands, the clock and the log file.
- `tests/` runs the library.

One item of the library is trusted rather than proved: `decode::decode_lossy`, which calls
`String::from_utf8_lossy`.
