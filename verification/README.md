# corvid_app

The decisions a Corvid game's runtime makes, as functions over plain values
with their contracts proved by Verus: how a command line is read and refused,
which directory a game keeps its saves and settings in and which file a slot
is, which seats the bots play, when a run stops, how much of its history it
keeps, what becomes of each request a tick makes, and how the machines of a
linked session agree about who has left and whose state rescues a machine
that fell behind.

## Layout

- `src/` is the verified library. Each module states its model in spec
  functions and views, and the laws that span several calls are public proof
  functions (`lemma_*`): a parsed command line is coherent, `--flag=v` reads as
  `--flag v`, a flag beats a builder call whichever came first, a bounded run
  keeps between one window and two, `--ticks N` runs exactly `N` ticks, two
  slots are two files and a save being written is never a slot, nothing a tick
  asks for is dropped and the first quit wins, traffic totals are sums over
  every tick, only the peer stops a tick and the newest head heard is the
  maximum of every head received, and a departure is agreed on the earliest of one opinion per live
  seat whatever order the opinions arrive in.
- `tests/` runs the library on concrete values.
- `app/` is the program around it: the process's arguments and streams, the
  environment, the filesystem, the log subscriber, and copies of library types
  carrying serde and thiserror derives.
