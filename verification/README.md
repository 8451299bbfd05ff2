# replicon_receive

The receiving side of entity replication: a sender's update and mutate messages are read, put in
order and applied to the entities of this side, and mutate messages are acknowledged. A client
receives from its server, and a server can receive from its clients, each into a context of its own.

The library never touches a world. It says what has to be done as an `Action` and goes on once it is
told how that went, so that the order of things, the bookkeeping and the handling of broken messages
are verified for every world and every sender.

- `src/` is the verified library. `receiving` and `serving` describe the machines, `receive`,
  `peers` and `serving` run them, `context`, `client`, `mutate_ticks`, `confirm_history`, `signature`
  and `entity_map` keep the state, and `wire` and `message` read the messages. `laws`,
  `acknowledging`, `isolation` and `progress` state what holds of whole rounds of receiving.
- `tests/` runs the library against a small world.
- `app/` performs the actions in a Bevy world.
