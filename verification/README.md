# eddy

The verified core of an async runtime and its consoles, and the programs around it.

`src/` is the library. Its functions have contracts, which Verus proves but for what is
named below:

- `wire`, `text`, `console`, `web`: the event protocol, its decoder, the projection of the
  event stream, what the terminal shows of it, and the messages for browsers.
- `instrument`: the runtime's events and their frames, counters and task snapshots.
- `scheduler`: the work-stealing queue, the injector, the rounds of a worker, and the
  scheduler of a single thread.
- `runtime`, `blocking`, `coop`, `cancellation`, `future`, `stream`, `poll`: what a runtime
  is built from, the blocking pool, the cooperative budget, cancellation tokens, and
  combinators.
- `io`: readiness, buffered reading and writing, copying, addresses, and the books of a
  completion ring.
- `attrs`: the arguments of the attributes `main` and `test`.

A loop that may wait is polled: it runs until it has to wait, and is called again later
with what it has so far. Where nothing bounds such a loop (a stream without end may be
filtered for ever), the library offers the step instead: what to do next, given what has
happened. Laws that relate several functions are public proof functions whose names begin
with `law_`.

What the library takes on trust is marked `Trusted:` and stands in `text` (three functions
of `String`) and `io::slots` (the `slab` crate). Nothing is known of a `Transport` or a
`Supply`, which programs bring: what is proved of an `Endpoint` or a `Supplied` is what they
are asked, and what becomes of the answer.

`app/` holds the terminal console, the web bridge, sockets, completion rings and threads.
`tests/` runs the library on concrete values.
