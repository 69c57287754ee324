# relintio_agent

The verified core of an in-process agent that scores every request before the
handlers of a web server see it. It enforces a policy that it fetches from a
control plane, and decides from memory: allow, delay, challenge, decoy or block.

Everything in `src/` is verified with Verus. What it needs from outside comes in
as values, and what it wants sent goes out as values.

| Module | What it holds |
| --- | --- |
| `agent` | the agent: its policy, its schedule, and the steps to a decision |
| `middleware` | pass tokens, passport cookies, client addresses, and how a decision is answered |
| `passport` | passports and request signatures |
| `rules` | one rule of a policy against one request |
| `scoring` | the built-in signals and the sum of the rules |
| `limits` | one token bucket for each client |
| `sync` | when the policy is fetched again |
| `outbound` | signed requests to the control plane |
| `challenge` | what the answer to a request for a challenge means |
| `obsidian` | the protection script and where it goes in a page |
| `utils` | normal forms of addresses, and the networks they belong to |
| `codec`, `text`, `headers`, `json`, `clock` | what the others are stated over |

`app/` is the agent in a server: the network, the disk, and the middlewares for
axum and Actix. It drives `RelintioAgent::evaluate` step by step, and hands the
library what it reads.

## Trust

Calls into other crates stand behind small functions whose contracts are believed:
digests and codes (`sha2`, `hmac`, `md5`), encodings (`hex`, `base64`,
`percent-encoding`), `regex`, `cookie`, the writing of JSON (`serde_json`) and
addresses (`url`, through `reqwest`). Each of them says above its contract what is
claimed. Results that are not spelled out have a name, such as `sha256` or
`regex_matches`.

Tokens of the rate limit are counted in tenths, so the route multipliers are
exact.
