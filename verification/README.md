# conductor_agent

An agent that runs a Minecraft server on behalf of a backend: it connects over a web socket,
reports its state, launches and stops the server, installs servers and mods, and edits
`server.properties`. Its decisions are verified with Verus.

`src/` is the library. It computes: texts in, texts and decisions out. Every function states what it
returns, and the laws that span functions are public proof functions beside them.

| Module       | What it decides                                                        |
|--------------|------------------------------------------------------------------------|
| `agent`      | how the agent answers its server, its backend and its operator         |
| `session`    | when the connection is made, given up and made again                   |
| `server`     | recovery, launch, commands and shutdown of the server process          |
| `startup`    | what precedes a launch: the licence file and the port                  |
| `installer`  | the steps of an installation and what is told meanwhile                |
| `properties` | reading and writing `server.properties`                                |
| `config`     | the agent's settings, its address, its heartbeat                       |
| `console`    | the commands of the operator                                           |
| `protocol`   | the messages to and from the backend                                   |
| `json`, `json_reading` | JSON values and their texts; what such a text says           |
| `tls`        | the root certificates of an encrypted connection                       |
| `text`, `numbers`, `paths` | trimming, splitting, ordering; decimal numerals; path names |

`app/` is the program around it: files, processes, sockets, signals and timers. It performs what the
library decides and reports back what happened. `tests/` runs the library.

What is taken on trust of `reqwest`, `rustls` and `serde_json` is marked
`#[verifier::external_body]` and says in its doc comment which function it calls and what it claims.
