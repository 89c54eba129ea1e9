# tuber

Typed message tubes between a web page's main thread, its workers and a
native host. A tube is a pair of halves: `Tx` turns each sent item into one
length-delimited frame (a 4-byte big-endian length, then the item's bytes),
`Rx` gathers the bytes that arrive, in whatever chunks they come, and takes
whole frames and their items back out.

Layout:

- `src/` is the verified library: the frame format and its laws
  (`framing`), the two halves and the tube (`tube`), the chunking of a reader's
  bytes (`util::reader_stream`), the error types and their texts (`error`),
  the task-runtime decisions (`task`), the entry-point attribute rules
  (`entry`), the worker's port naming (`worker`) and the native side's command
  rules (`plugin`).
- `app/` is the unverified I/O around it: `Sink`/`Stream` over tokio readers
  and writers, spawning on tokio or the browser, the message-port and
  JavaScript-stream plumbing, the attribute expansions with syn and quote, and
  the native command bodies.
- `tests/` runs the library on concrete values.
