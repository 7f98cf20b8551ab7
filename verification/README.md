# sync_problems

Classical synchronization problems (barbershop, barriers, cigarette
smokers, dining philosophers, FIFO semaphores, H2O, multi-doctor clinic,
producer-consumer, readers-writers, sushi bar) with their shared state and
decisions written as verified state machines.

- `src/` — the library, verified with Verus. Each module holds the state a
  problem keeps under its lock and the steps taken on it; every step states
  exactly how the state changes, and the problem's safety properties are
  proved as lemmas over the mathematical views: bounded occupancy (chairs,
  seats, doctors, smokers, atoms in a bond), FIFO order, readers-writers
  exclusion, barrier rounds that do not mix, groups of two hydrogens and
  one oxygen, and no two neighbouring philosophers eating, both for the
  Tanenbaum state and for philosophers who eat only while holding both
  chopsticks of the watched table, whatever the order they take them in.
- `tests/` — tests that run the state machines on concrete scenarios.
- `app/` — a program that runs every problem on OS threads or tokio tasks:
  it holds the library's state in a mutex, waits on condition variables or
  `Notify` until a step may be taken, and does the sleeping, spawning and
  channel work.
