# Sagittarius

A simple TCP forward proxy. The client side, on async-std, is a SOCKS5 server for
the browser; it forwards to the server side, on tokio, which connects to what the
browser asked for. There is no encryption.

`src/` holds what the two sides decide, as a library verified with Verus:

- `stream`, `transfer`, `channel`, `relay`: copying bytes in both directions. A
  channel keeps account of every call on its streams; what it wrote, followed by
  what it still holds, is what it read.
- `client`, `negotiation`: the SOCKS5 session with the browser, and what it accepts
  and refuses.
- `server`, `cache`, `random`: reading the wanted address, choosing one of the
  host's IPv4 addresses, and remembering it.
- `accept`: the wait after a connection could not be accepted.
- `addressing`: the address on its way from the browser to the server side.
- `addr`, `text`: addresses, numbers and log lines as bytes and text.

`tests/` runs the library, with the real `lru` and `rand`. `app/` is the program
around it: sockets, timers, tasks, arguments and the log.
