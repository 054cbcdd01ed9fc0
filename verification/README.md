# lsp_bridge

The core of a bridge between Emacs and language servers, written and verified with Verus.

Emacs talks EPC: S-expressions in frames with a hexadecimal length. Language servers talk
JSON-RPC: JSON in frames with a `Content-Length` header. The library reads and writes both, keeps
the conversations, and turns the calls of Emacs into requests and the responses into calls.

| Module | What it holds |
| --- | --- |
| `text`, `float`, `table`, `buffer`, `concurrent` | characters and UTF-8, numerals of floats, tables by name, byte buffers, concurrent maps |
| `sexp`, `sexp_laws` | S-expressions: parser, printer, and that each undoes the other |
| `json`, `members`, `convert` | JSON values, the members that a JSON text holds, and the conversion to and from S-expressions |
| `message`, `wire`, `epc` | EPC messages, their frames, and the conversation with Emacs |
| `jsonrpc`, `transport`, `capabilities`, `session` | JSON-RPC messages, their frames, capabilities, and the conversation with a server |
| `uri`, `handlers` | file URIs, and a handler for each method that Emacs calls |
| `bridge`, `config` | open files, running servers, routing of calls, and configurations |
| `search` | completion from words of files, lists, paths and tags |
| `remote` | messages for files on other machines |

Every function states what it returns in its contract. Public proof functions whose names begin
with `law_` state what holds of several functions together. Calls into other crates stand behind
small functions marked `external_body`, whose contracts are believed.

`app/` is the program around the library: sockets, processes and files. `tests/` runs the library.
