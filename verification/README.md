# cognitive_core

The decision core of an autonomous cognitive engine built from four actors
(perception, cognition, memory, heartbeat) around a local language model and a
SQLite knowledge graph.

`src/` is a library verified with Verus:

- `text`: trimming, splitting and searching of text; Unicode case mappings.
- `session`: the bounded buffer of recent conversation turns.
- `cognition`: question detection, every prompt sent to the model, the
  three-phase answer pipeline (deliberation, validation, expression), the
  stopping rule of token generation and the routing of user inputs.
- `facts`: reading the JSON-L facts the model writes when it condenses a session.
- `json`: reading members of JSON documents parsed by `serde_json`.
- `memory`: assembling retrieved graph relations into context; word overlap.
- `models`: ranking the manifests of a local model store and naming the blob
  that holds the weights.
- `heartbeat`: the clock that schedules consolidation and autonomous curiosity.
- `perception`: routing of messages at the boundary with the user.

`app/` is the program: the actors and their channels, the SQLite store, the
embedding model, llama.cpp inference, the file system walk, and the
floating-point emotional state (pleasure, arousal, dominance).
