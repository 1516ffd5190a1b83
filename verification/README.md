# Agent Speak

Agent Speak lets an agent speak and play audio on the local machine, within a
policy that its owner fixes at startup. An agent asks through a few tools; the
owner's profile says which voices, sounds, files and output devices they reach.

`src/` is the library. Everything that the program decides stands there, with a
contract that Verus proves: which tools are visible, which requests are refused
and how, in what order items play, what is remembered and told of them, how
configuration layers combine, and what a valid profile is.

| Module | Subject |
| --- | --- |
| `config` | Profiles: model, TOML values, discovered layers, validation, the quick profile |
| `playback` | The actor that owns playback order, audio preflight, output bookkeeping, speech collection, dispatch |
| `mcp` | The tools: what each request becomes, what each answer says |
| `control`, `http`, `private_file` | Authentication and answers of the two local transports |
| `history` | What is recorded of an item, and when |
| `cli` | Startup selection, listings, the starter profile |
| `gain`, `ids`, `order`, `paths`, `text` | Shared vocabulary |

A gain is held by the bits of its double-precision value and is compared by
them. An identifier is a 128-bit number. A path is text, read in the style of the
platform; what the file system says of it is handed to the library as a value.

Properties that span several operations are public proof functions whose names
begin with `law_`. Among them:

- every item plays, waits or has ended, and never two of these;
- the queue is first in, first out, and a waiting item is a barrier for what
  comes after it;
- after any operations, nothing waits where nothing plays, unless a stop was not
  confirmed;
- an ended item keeps its state, and exactly the results that came last are
  remembered, so that cancelling such an item again changes nothing;
- a hidden tool refuses every call, and an accepted one keeps the policy;
- a later configuration layer wins, and a changed speech backend carries nothing
  of the previous one along;
- resolving a resolved profile again changes nothing.

Whatever the actor and the dispatching backend do is done by calls on the backend
and the adapters that they were given. Their contracts name these calls in order,
say of each that it was made with these arguments and gave this reply, and leave
room for no other.

What the library takes from other crates stands behind small functions marked
`external_body`, each with a comment that names the function it calls and says
what is believed of it.

`app/` is the program around the library: the command line, files, sockets,
threads, the audio host, and the copies of library types that are read from or
written to TOML and JSON. `tests/` runs the library on concrete values.
