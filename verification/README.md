# world_host_server

A relay server for players who announce their worlds to their friends over WebSocket.

- `src/` is the verified library: the byte codecs of client and server messages
  (`wire`, `c2s_message`, `in_message`, `out_message`, `s2c_message`), the registry of
  open connections and the decision taken on each received frame (`connection`), the
  identifiers (`ids`), decimal rendering for error texts (`text`) and the settings
  (`config`).
- `app/` is the program around it: option parsing, logging, the listener, and one task
  per client that performs the handshake, feeds each frame to
  `connection::handle_message` and sends what it decides.
- `tests/` runs the library on concrete frames and registries.
