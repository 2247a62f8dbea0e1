# pigauge

A car dashboard backend for a Raspberry Pi: it polls an ELM327 OBD2 adapter,
serves a web UI over HTTP and streams readings over a WebSocket, and a
separate watcher shuts the Pi down cleanly when the car's power goes away.

`src/` is the verified library (Verus):

- `text`: white space, trimming, lines; cleaning a raw adapter reply.
- `hex`: which words of a reply are hex bytes, and the round trip of bytes
  written in hex.
- `obd`: Mode 01 reply checks and the PID formulas (rpm, speed, coolant,
  throttle), and the `ATRV` voltage text.
- `elm`: command framing, gathering a reply up to the `>` prompt, draining,
  the set-up script.
- `snapshot`: the shared readings, how they are recorded, stored, cleared,
  and marked stale for clients.
- `link`: the poller's reconnect supervisor with exponential backoff.
- `power`: the debounced power-loss decisions.
- `ui`: frame interval, WebSocket port, request paths and content types.

`app/` is the program around it: command line, serial port, GPIO, HTTP and
WebSocket servers, threads and clocks. `tests/` runs the library on concrete
values.
