# sosistab2-obfsws

A websocket transport for [sosistab2](https://github.com/geph-official/sosistab2), with or without
TLS, and `wsocks`, a SOCKS and HTTP proxy on top of it. Hosting platforms that let only web traffic
through let this through.

## Layout

`src/` is the library. It is written in Verus: its functions state what they return and change, and
Verus proves it. What other tasks do with the queues and the flag of a pipe is left open.

- `pipe`: one websocket connection as a byte stream
- `shared`: the queues and the flag that a pipe shares with the tasks of its socket, with what is
  taken on trust of them
- `handshake`: what a connection is opened with
- `listener`: which clients are let in
- `etag`: the session mark that clients send as their websocket key
- `key`: the hexadecimal form of keys, and the key file of a server
- `protocol`: the messages between client and server, and their frames
- `client`, `server`: how many pipes a client keeps, which session a pipe belongs to, how long a
  session lives, and how requests are answered
- `socks`, `http`: the talks of the two local proxies with their clients
- `forward`: data messages of a connection
- `info`, `meter`: what the program tells of its build and of a transfer
- `text`, `encoding`: numbers, addresses, hexadecimal, base64 and big-endian integers
- `foreign`: the other calls into other crates, with what is taken on trust of them

`tests/` holds the tests of the library. `app/` is the program: sockets, files, clocks, the command
line and the tasks around the library.

## What is proved

Among other things: the session mark of a client reads back as its session number under every
nonce, and every mark is let in; a write offers its message to the socket once and whole; the bytes
read from a pipe are those of the messages taken from its socket, in order; a handle that has
closed a pipe, has found it closed, or is looked at beside one that has, finds it closed for good;
a stream of frames can be taken apart in one way only; a proxy forwards nothing before the server
has connected and its client was told so, and tells no client of a connection that was not made;
what is read of a forwarded connection is what is written on the other side, and its frames are
within the limit; pipes find the same session if and only if they have the same number; a session
with a pipe is never ended, and one without is ended after a hundred seconds; a server reads its
key file at most nine times.

A read that has emptied the bytes left of earlier messages and finds no further message is pending,
and those bytes are lost to the reader. The proofs about the order of bytes leave such reads out.

## Dependencies

`generator` is in `Cargo.toml` to hold a dependency of a dependency at a version that needs no
Windows bindings; no code here names it.
