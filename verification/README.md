# fabric_shell

The focus model of a remote- and controller-driven shell: what focus is, what
each action does to it, and how key names become actions. It draws nothing
and names no toolkit.

- `src/focus.rs`: the executable state machine (`FocusModel`, `Tab`, `Action`, `Outcome`).
- `src/model.rs`: what a focus model means (`FocusView`) and each action as a function on it.
- `src/laws.rs`: proofs of what every action keeps (clamping, rows, per-tab memory, reconciling).
- `src/navigation.rs`: `parse_action`, names to actions.
- `src/gamepad.rs`: which connected controller drives the interface.
- `app/`: the controller pump over `fabric-input`, polled by the caller's own loop.
