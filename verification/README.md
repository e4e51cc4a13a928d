# Conductor

Conductor coordinates workflows in which coding agents hand work to one another:
plan, review, implement, final review. A workflow file names the agents, the
steps that they take and the review gates that a step must pass.

`src/` is a Verus library that decides everything and performs no input or
output:

- `workflow`: what a workflow is, and what is wrong with one.
- `runner`: a run as a machine (`machine`), the rules it follows (`decisions`),
  what agents are told (`prompt`) and how they are put to work (`agent`,
  `invocation`, `output`), the handoff file (`handoff`), and what holds of every
  run (`laws`).
- `regen`: generating a workflow for a project: what the project is (`analysis`),
  the exchange with the user (`command`), and the document (`render`, over the
  rows of `yaml`), which is shown to read back as a valid workflow (`layout`,
  `reading`).
- `cli`, `codex`: what command lines ask for, and what the user is told.
- `error`, `json`, `names`, `paths`, `text`: what the others are made of.

Each machine hands out an action and takes back an event. `app/` is the program
around the library: it carries out the actions, parses arguments and files, and
prints. A copy of it under the name `codex`, in a directory that comes first in
`PATH`, answers `codex regen` and hands everything else to the next `codex` in
`PATH`.

`tests/` runs the library, with in-memory stand-ins for files and processes.
