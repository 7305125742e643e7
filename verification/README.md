# lernie

The decision logic of a git-backed agent harness, written in Verus and
verified: where state lives on disk, the seat's remembered window place,
the branch registry, spend budgets, child dispatch, the compactor's merge,
landing and replay, and the dispatch loop's step decisions, inbox drain,
response assembly, staging, retries, verdict gating and child-result
interpretation.

Layout:

- `src/` — the verified library. Every public function carries a contract
  over spec models (`Seq`, `Map`, `Multiset`, views); laws that span
  functions stand as public proof functions named `law_*`.
- `tests/` — executable tests of the library, run against stub `git`
  runners.
- `app/` — the process edge: environment, file system, subprocesses and the
  serde copies of the library's on-disk types, and the model-call loop that
  runs the adapter and sleeps between attempts. The rules that decide what a
  read keeps, what an adapter line is, what an attempt answers and whether
  to retry are in `src/`.

`git` is reached through the `GitRunner` trait, which callers implement,
and the workspace through the `Workspace` trait. What a repository answers
is not modelled; each trait carries relations that record which calls were
seen to succeed, to fail, and what they printed. Over them the functions
that consult git state which commands they run, what they make of each
answer, and, where several calls can fail, which call each error comes
from. That no later call was made is not stated.
