# m_claw

A personal AI assistant platform: an agent loop with tool calling, memory
files, skills, background reviews, a skill curator, OpenAI-compatible and
Anthropic model providers, a Feishu channel and an HTTP gateway.

- `src/` is the library, verified with Verus: message and JSON models,
  request bodies and response/stream parsing for both providers, the agent
  state machine (requests, tool rounds, compression, reviews), memory
  sections, skills (frontmatter, loading, patches), the curator's lifecycle
  and consolidation, glob matching, the tools' security policy and outputs,
  configuration defaults and `env:` references, the Feishu webhook and
  token logic, gateway routing and replies, and session row encoding.
  `src/laws.rs` holds properties that span several functions.
- `app/` is the program around it: the command line, file and network I/O,
  SQLite sessions, HTTP serving and the async plumbing.
- `tests/` exercises the library from outside.
