# dialog-repository

Repositories of facts: signed revisions, branches that track each other, and
the layered view that queries read through.

`src/` is a library verified with Verus. It does no input or output. Where an
operation needs the outside world, it is split into steps: each step takes
what the outside world answered, decides, and says what is to be done next.
Commits, pulls, imports, exports and the selection of rules, which take several
steps, are also there as a whole, for given answers, and their contracts say
what comes of them.

| Module | What it holds |
| --- | --- |
| `identity`, `artifact`, `changes` | names, facts, and pending changes |
| `layer`, `tombstones` | merging streams of facts, and what changes hide |
| `encoding`, `schema` | entities named by content, and self-description |
| `revision`, `memory`, `upstream` | revisions, cells, and tracked branches |
| `branch` | opening, committing, pulling, searching, import and export |
| `rules`, `durable`, `overlay`, `concept` | deductive rules and what is kept of them |
| `session` | queries over branches and pending changes |
| `repository` | repositories and credentials |

What holds of several functions together is proved in the functions named
`law_*`, in the modules whose names end in `_laws` and beside the functions.

`app/` is ordinary Rust around the library: an environment of cells, trees and
keys, and the asynchronous code that runs the steps on it.
