# im-channel-gateway

A gateway between instant messengers (Telegram, WeChat through iLink) and agents: programs on this
machine, a service that streams events over HTTP, or a Codex app-server.

- `src/` is the library, verified with Verus. It holds what the gateway decides and computes:
  access control, the text that is cut into messages, the formats that are read and written, the
  state of accounts, logins, turns, queues and retries. Every public function says in its contract
  what it returns. What holds of several functions together stands beside them as proof functions.
- `tests/` runs the library on concrete values, with the crates it calls.
- `app/` is the program around it: the command line, files, processes, HTTP, WebSockets and the
  Telegram client. It performs what the library decides and hands back what came of it.

Where the library calls another crate, the call stands in a small function whose contract is taken
on trust; its comment names the outside function and says what is claimed of it. They are in
`codec`, `ids`, `regexes`, `urls`, `strs`, `config`, `agent::codex_app_server`,
`platforms::wechat::images` and `platforms::wechat::qr_terminal`.
