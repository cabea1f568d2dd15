# VR lab server

The server that relays the instructor app's commands to the VR headsets of a lab and
reports on the headsets' connections.

- `src/` is the verified library: the commands and replies (`models`), the state kept
  per headset and for the whole server (`models`, `registry`), the connection protocol's
  decisions — handshake, receive and send loops, session names (`server`), the web API's
  decisions (`api`) and the length-prefixed frame (`frame`).
- `app/` is the program around it: sockets, the async runtime, JSON, the web server and
  the command line, plus the small blocking client used to try the server by hand.
- `tests/` exercises the library on concrete values.
