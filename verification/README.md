# acowork-runtime

The core of an agent runtime: what a session does with the messages it gets,
how the answers of a model are streamed, how tool calls are run, approved and
merged, when a history is summarised, how a session is rebuilt from its log,
and how many sessions are kept side by side.

`src/` is the library. Every function in it carries a contract that Verus
proves; a function that has to wait for the outside (a model, a tool, a user, a
timer) is a step from state and event to next state and actions. Properties
that span functions stand at the end of each module as public proof functions.

`app/` is the host: it owns channels, timers, files and services, performs the
actions and hands the events back. Numbers that are floating point stay there;
the library carries their bits.

What is believed without proof stands in five small places: `text.rs`
(`String::push` and `Debug` of strings), `json.rs` (`serde_json`), `jsonl.rs`
(UTF-8 decoding), `ids.rs` (`uuid`) and `clock.rs` (`chrono`).
