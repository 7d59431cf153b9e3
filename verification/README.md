# gateway_core

The core of a local gateway that lets clients of three chat protocols (Chat
Completions, Responses, Anthropic Messages) use the accounts of many providers.
Clients speak any of the protocols, providers speak any of them too, and the chat
form is the hub that everything is translated to and from.

The library in `src/` holds what the gateway decides and computes. It is written in
Verus: its functions have contracts, and the contracts are proved. Of the clock and of
random bytes nothing is claimed: where a function draws on them, what it computes stands
in a function that takes the time, the bytes or the identifiers as an argument.

| module | what it holds |
| --- | --- |
| `text`, `lists`, `double`, `json`, `time` | texts, lists, doubles by their bits, JSON trees, times as texts |
| `errors` | the error that a client gets |
| `protocol` | the translations: requests, whole answers, event streams, line buffer, identifiers |
| `model_rules` | which models are open, which names stand for them, the default rules, the stored form |
| `providers` | the providers, their lists of models, what clients and the user see of them, the router, providers that users add, a web login |
| `routing` | limits of accounts, and which account carries a request |
| `upstream` | the way of a request from account to account, resending, the record of a request, counts and slots of requests on their way, the frames of an answer |

What holds of the library as a whole stands beside the functions as public proof
functions: that the translated event streams keep the order of their protocols and
end once, that where a stream is cut does not matter, that the sides of a translated
conversation take turns, that a closed model is sent nowhere while a mapping still
reaches it, that rules are read back as they were written and default rules are given
once, that a request comes to its end, and more.

Calls into other crates (`serde_json`, `bytes`, `chrono`, `getrandom`) and into parts
of the standard library stand in small wrappers whose contracts are taken on trust; the
comment above each says what is claimed.

`app/` is the program around the library: it sends requests, moves streams, keeps locks
and takes from its host what it needs to know. `tests/` runs the library.
