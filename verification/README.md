# larql_backend

A local inference backend that drives an unmodified `larql chat <vindex>` process over pipes. One
line of prompt goes in on standard input, the answer comes out on standard output, and the next
turn prompt on standard error ends the turn.

`src/` is the verified library. It holds the decisions of the backend and no I/O:

- `backend`: the backend's entry points.
- `load`, `generate`: starting the process and running one turn, as machines that name one action
  at a time and take in what came of it.
- `watcher`: finding the turn prompt in raw chunks of standard error.
- `prompt`: flattening a conversation to one line.
- `tool_emulation`: tool calls written as plain text in an answer.
- `memory`: the available memory in the text of `/proc/meminfo`.
- `message`, `error`, `json`, `text`: what the others are made of.

`app/` runs the process, the threads and the clock around it. Its standard-output reader has a
thread of its own, so that a silent child cannot hold up the time limit of a turn.

What is believed without proof: the functions marked `external_body` in `json` (`serde_json`),
`message` (`rmcp`, `uuid`) and `watcher` (`String::from_utf8_lossy`), and the specification of
`String::push` in `text`. Each says above it what it claims.
