# rust-tcp-file-transfer, verified core

A TCP file-transfer tool (server or client, sender or receiver). The library in
`src/` holds the program's logic, proved with Verus; `app/main.rs` is the
program around it: arguments, sockets, files and console output.

- `args`: the command line and the settings it produces.
- `decimal`: the decimal header fields (entry code, size), read and written.
- `framing`: newline-framed headers and the echo that confirms each one.
- `chunks`: the layout of the file's bytes in fixed-size chunks on the wire.
- `session`: the state of one side of a transfer and its decisions.
- `paths`: the two `std::path` operations the transfer relies on.
- `connection`: the `ip:port` address of a connection.
- `text`: comparing texts by their bytes.
