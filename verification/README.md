# tightbeam

Gated tunnels over an authenticated transport, with the decisions verified by Verus.

A node binds service names to handlers, forwards and raw byte sources. A dialler asks for a service by
name. Who reaches what, and what everyone else is told, is decided in `src/` by functions from plain
values to plain values, each with a contract that Verus proves.

## Layout

- `src/` is the library.
  - `witness`, `gate`, `open_policy`, `contract`, `bridge`, `service`: the handler contract. A handler
    names an open-safety marker, and a serving proof is minted only for a witness that marker accepts.
  - `wire`: one control frame in, one out, under one cap.
  - `target`, `services`, `overlay`, `router`, `exposer`: the `name=target` grammar, the route table,
    the two public overlays, and the interlocks that must hold before a node serves anything.
  - `catalog`: the services a node publishes, and their canonical wire form.
  - `pool`, `admission`, `serve`: the public and proven capacity, the path a stream is admitted by, and
    the answer it gets. Every ruling on a dialler is told in one and the same refusal.
  - `cut`, `live_cuts`: what a session keeps of the grants it was admitted on, and when it must end.
  - `session`, `connector`: the accept loops and the dialling side as state machines.
  - `text`: names, numbers and UTF-8.
- `tests/` runs the library on concrete values.
- `app/` drives it: sockets, timers, tasks and files, behind seams for the overlay transport, the token
  authority and the request grammar.

## What is taken on trust

- `text::utf8_text`: that `core::str::from_utf8` accepts exactly valid UTF-8 and returns what it encodes.
- `serve::quote`: that the debug rendering of a string is a function of the string.
- `pool`: tokio's `Semaphore`. A permit belongs to the semaphore it was taken from, and a semaphore keeps
  the count it was made with. Whether a permit is free at a moment is never assumed.

Token rulings, the clock, the transport's claim about a peer and the state of the file system enter as
arguments.
