# llm-browser-testkit

Browser tests written as TOML scenarios. A language model finds the elements
that a step describes in words and judges what a page shows; agents (A2A) and
tool servers (MCP) can be asked too.

The library decides, the program acts. Everything that can be decided from
values — which endpoint is asked next, whether a selector is usable, when a
retry is due, what a budget allows, which scenario files may run side by side,
what is redacted and how results are reported — is in `src/`, and Verus proves
that it does what its contracts say. `app/` holds what touches the world: the
browser, HTTP, child processes, files, threads and the command line. It asks
the library what to do next, does it, and hands back what came of it.

| Modules | What they hold |
|---|---|
| `scenario`, `cli` | scenarios, their defaults, command-line overrides |
| `endpoints`, `llm`, `auth`, `bedrock` | endpoints and fallback chains, requests and replies, tokens, AWS signatures |
| `selectors`, `targeting` | selectors that a model proposes |
| `steps`, `assertions`, `vision`, `execution` | the steps of a test, from their first action to their result |
| `a2a`, `a2a_server`, `mcp_client` | agents and tool servers |
| `costs`, `budgets` | usage, prices, budgets |
| `runner`, `parallel` | tests in a row, files side by side |
| `events`, `redact`, `reporting`, `trace`, `diagnostics` | what is reported, and what is hidden from it |
| `text`, `numbers`, `named`, `json`, `base64_text` | the vocabulary of the contracts |

Properties that span several functions are stated as public proof functions
whose names begin with `law_`.

Amounts of money are whole picodollars and prices per million tokens whole
microdollars, so that sums are exact.
