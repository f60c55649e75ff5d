# codex-gateway-core

The core of gateway applications that drive a local Codex app-server, with contracts that Verus
proves.

The core owns the sessions of the channels, the queues of turns, the model and the reasoning effort
of each channel, goal commands, session switching, interrupts, and what a turn makes of the
notifications of the app-server. It does no I/O: it says which request to send or what to tell the
output, and takes back what came of it.

- `src/gateway.rs`: the sessions and the commands on them
- `src/turn.rs`: one turn, as a state machine from events to actions
- `src/delivery.rs`: which messages of the agent are announced, sent and closed
- `src/format.rs`, `src/text.rs`: the texts of the replies
- `src/calendar.rs`: how a point in time is written
- `src/api.rs`, `src/protocol.rs`, `src/state.rs`: the data
- `src/gateway_laws.rs`, `src/turn_laws.rs`: what holds of all sessions and all turns
- `app/`: the asynchronous gateway that applications use, on top of the core

The one thing that is trusted is how chrono writes a point in time. Commands ask that the keys of
the channels be well-behaved map keys whose clones are equal to them.
