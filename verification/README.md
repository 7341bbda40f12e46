# Remote-Mouse

Remote-Mouse is a bridge between a WebSocket endpoint and an X11 display server: a web page sends
mouse gestures as small binary packets, and the bridge moves and clicks the mouse of the X11 server
accordingly. It is meant to run behind an HTTP server that takes care of authentication.

## Layout

`src/` is the library, written in Verus: every decision the bridge makes, as functions and state
machines on plain values, with contracts that are proved.

| module | what it decides |
| --- | --- |
| `event` | what a packet means |
| `handler` | which commands the display gets for an event, and how motion is accumulated |
| `event_loop` | when events are taken from the queue, and when motion is flushed |
| `bridge` | what holds from a client's packets to the commands of the display |
| `stream` | how a connection goes on after a message, an error, a timeout or a shutdown |
| `handshake` | which WebSocket requests are accepted, and how they are answered |
| `supervisor` | what becomes of listeners and tasks |
| `websocket` | frame headers, messages made of frames, close codes |
| `display` | the requests that are sent to the X11 server |
| `permissions`, `systemd`, `sockets` | file permissions and passed sockets at startup |
| `fault`, `bytes`, `number`, `text` | error kinds, numbers in network byte order, numbers from and as text |

`app/` is the program around the library: command line, sockets, timers, tasks, the X11 connection
and the log. It performs the actions that the state machines ask for and hands the outcomes back.

`tests/` runs the library on concrete values.

## What is trusted

The functions marked `external_body` and the `assume_specification` items in `src/` state what is
taken from the `http` and `x11rb` crates and from the standard library without proof. Each says in
its comment what it claims.
