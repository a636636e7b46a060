# sleepwalk

Live migration of Firecracker microVMs between hosts, in the gaps between the turns of their
workload, so that nobody notices the move.

`src/` is the library: the data, the formats, the rules and the runs, with contracts that Verus
proves. `app/` is the programs around it: they read, write, send and sleep, compute what needs
floating point, and hold what async tasks share. `tests/` runs the library.

| Module | What it holds |
| --- | --- |
| `proto` | ids, messages, compatibility classes, the states of a migration |
| `guestd` | the supervisor in the VM: turns, drains, clock corrections, wrapped workloads |
| `hostd` | a host: booting, quiescence, snapshots, transfers, restores, the page server, networks |
| `rebalancer` | which VM moves where, and the steps of a move |
| `harness` | load schedules, latencies, races between drains and turns, reports |
| `cli` | commands and configuration |
| `ramstate` | a workload whose whole state is in memory |
| `text`, `bytes`, `time`, `paths`, `ordered`, `binary64` | what the others are stated in |

A run that alternates work and decisions (a boot, a move, a restore, a measurement) is a value with a
`step`: it takes what came of the last action and gives the next one, or the end. Proof functions
whose names begin with `law_` state what holds across calls.

Functions that call other crates are marked `#[verifier::external_body]`. What Verus believes of each
stands in its contract and in the comment above it.
