# signal-stream

A signal stream carries signals to a server and messages back over a WebSocket. It connects
directly or through an HTTP proxy, with or without TLS, answers pings, and closes cleanly.

Everything that the stream decides is a Verus library under `src/`:

- `options`: the options of a connection;
- `address`: the parts of a URL, and the form of one that may be shown in a log;
- `proxy`: which proxy to take, the request for a tunnel, and what its answer means;
- `tls`: the root certificates to trust and the server names to ask for;
- `connect`: the connection as a state machine, from events to actions;
- `connect_laws`: what holds of every connection, whatever happens on the way;
- `reader`, `writer`, `stream`, `close`: the two tasks of a stream, its use and its end;
- `error`, `text`: failures in words, and the handling of text.

What other crates compute (`url`, `base64`, `rustls`) is called behind small wrappers, whose
contracts are trusted and say so. Input and output are in `app/`, which asks the library what
to do next, does it, and tells it what came of that.
