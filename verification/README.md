# rataflow

A node-graph editor core for terminal user interfaces, verified with Verus.

`src/` is the verified library. It holds the graph (nodes, edges, handles and
their identifiers), its validation, selection, the connection rules and the
edge preview, key bindings and the actions they trigger, pointer gestures as
state transitions, z-ordering, the parent tree and the order in which it is
resolved, and building a flow from a list of edges. Every public function
states what it returns or changes in its `ensures`; the laws that relate
several functions are public proof functions (`lemma_*`).

`app/` is ordinary Rust around the library: floating-point geometry and the
viewport, hit testing, the canvas that turns terminal mouse events into
gestures, layered layout through `rust-sugiyama`, terminal input conversion
through `ratatui`'s `crossterm`, and serde copies of the library's types.

`tests/` exercises the library from outside.
