# core_node

The services with which a core node keeps a stack of robotics nodes: adding,
building, running, starting, stopping, removing and syncing nodes, pairing their
slots, telling observers about their sources, and keeping the caches of checkouts
and bundles that all of this reads from.

## Layout

- `src/` is the library. Verus proves every function in it but those marked
  `external_body`, whose contracts are believed (see the end). What a service
  computes is a plain function. What it decides between two steps of outside work is
  a machine: a struct with a `step` from an event to the next action, whose contract
  says for each phase and event which action comes.
- `app/` does the outside work: files, processes, the network, the clock, the
  repositories. It runs the machines, and reaches the node stack, the message bus,
  the container runtime and the generator through traits.
- `tests/` runs the library on concrete values.

## Where to look

| Service | Computation | Machine |
| --- | --- | --- |
| add | `add`, `add/http`, `add/git` | `add/machine`, `add/git`, `add/download` |
| add with dependencies | `add_batch`, `pins` | `add_batch/batch`, `pins/walk` |
| build | `builder`, `node_build` | `builder` |
| run | `run`, `run/watch` | `run/machine`, `run/drain`, `run/signals` |
| start | `start`, `start/parameters` | `start/machine`, `start/output` |
| stop | `stop` | `stop/machine` |
| remove, sync | `remove`, `sync` | `remove`, `sync` |
| pairs | `pairing` | `pairing/delivery` |
| observers | `observation`, `incarnation` | `observation/coordinator` |
| caches | `cache/key`, `bundle_cache` | `cache/git`, `git_cache`, `bundle_cache/ensure` |
| goals | `gate` | `goals` |

What holds of several steps together is stated in public proof functions beside the
machines, such as `failures_undo_what_was_done` in `run/machine` or
`a_failed_batch_undoes_its_adds` in `add_batch/batch`.

The functions marked `external_body` call into other crates or into parts of the
standard library that have no specification. What is believed of each stands in its
contract, with a name (`uninterp`) for a result that takes pages to state. `text`,
`paths`, `digest`, `archive`, `common`, `endpoints` and `add/git` hold all of them.
