# mcp-proxy

A proxy for the Model Context Protocol. As a client it connects to a remote
Streamable HTTP server and offers it over stdio; as a server it runs local stdio
servers and offers them over HTTP.

- `src/`: the library, verified with Verus. It decides what a command line asks
  for, which servers a configuration file names, which peer gets a request, what
  the caller is told of it, where a progress notification goes, and how the HTTP
  client is set up.
- `tests/`: its tests.
- `app/`: the program around it: argument parsing, connections, processes,
  logging.

The calls into `http`, `reqwest`, `rmcp`, `serde_json`, `shell_words` and a few
functions of `std` are trusted; the doc comment above each such item says what is
taken for granted.
