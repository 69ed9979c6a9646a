# animus

A gateway between channels (command line, HTTP), a language model with tools, and a memory service.
A turn comes in by a channel, is scanned, put before the memory service and the model, answered, and
recorded. The agent behind the model can also begin turns of its own accord.

`src/` is the library. It decides: what is asked of which service, what a reply means, which effects
a turn has and in which order. Its functions carry contracts that say what they return and change,
and Verus proves them. What spans several functions is stated as a proof function whose name begins
with `law_`.

`app/` is the program around it. It does the input and output that the library asks for and hands
back what came of it.

## Modules

- `pipeline`: the stages of a turn as a machine; `history`: the working memory
- `agent_runner`: the run of the model with its tools as a machine; `reach`: reaches and badges
- `reaction`: what follows from a turn that the agent began; `outbound`, `markers`, `btf`: where such
  turns are found, what they ask for, and how they are framed
- `tool_dispatcher`: the tools; `trollguard`, `context_builder`, `rpc_adapter`, `budget`,
  `introspection`, `tract_writer`: the services around the gateway
- `adapters`: the channels; `notice`: notices for the user; `auth`, `config`, `envelope`, `text`
- `json`, `codec`, `reply`, `strings`, `numbers`: values, their text and byte forms, and text

What the library takes from `serde_json`, `rmp_serde`, `crc32fast` and the standard library without
proof stands in `codec`, `strings`, `btf`, `pipeline` and `tool_dispatcher`, each with a comment that
says what is claimed of it.
