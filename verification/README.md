# codex-switch

Keeps several Codex logins side by side, switches between them, and runs Codex
with a login that still has usage left.

`src/` is the library: the rules of the program and the formats that Codex and its
servers share with it, each with its contract, proved with Verus. It works on plain
values. `app/` is the program around it: the command line, files, among them the
file of stored accounts, processes, servers, and arithmetic on floating-point
numbers.

| Modules | What they decide |
| --- | --- |
| `accounts`, `auth_json` | stored logins, and Codex's `auth.json` in and out |
| `usage`, `assessment`, `selector`, `policies` | how much is left, and which account comes next |
| `auto_switch` | the plan of an automatic switch |
| `runtime` | a session: its start and end, the websocket proxy, background searches, token renewal |
| `oauth`, `query`, `url`, `encoding` | logging in with a browser or a device code |
| `doctor`, `process` | what is wrong with an installation, and what stands in the way of a switch |
| `runtime_log`, `logs`, `redaction` | log files, reading them, and keeping secrets out of them |
| `json`, `record` | JSON, and records in it that are read key by key |
| `json_output`, `usage_view`, `commands`, `forecast` | what is printed |
| `codex_http`, `terminal` | how requests name the program |
| `calendar`, `time`, `text`, `quantity`, `rank`, `search` | what the others are built from |

Calls into other crates stand in small functions marked
`#[verifier::external_body]`; the comment above each says what it claims.
