# reliable_message_queue

Reliable message queues of a validator: external messages from full nodes are written to a catchain,
exchanged with the other validators, given to the collator in the order of their timestamps, and
handed over to the queues of the next sessions as long as their fate is open.

- `src/` is the library, verified with Verus. An operation that waits for a service of the node is a
  function from an event to the next step; its contract says how it goes on, and the `laws_` modules
  say what whole runs achieve.
- `app/` runs the operations against the services of a node.
- `tests/` runs the library on concrete values.
