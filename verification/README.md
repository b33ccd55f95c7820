# Evidence-gated code analysis

An LLM agent that examines Rust changes that investigates its own candidate
findings against the repository, tries to disprove each one in a fresh
context, and lets only evidence-backed findings through to a human.

The decisions are written in Verus and proved against their contracts:

- `src/` is the library. Reading diffs (`diff`), parsing model replies
  (`agent`, `llm`), the investigation and adjudication state machines
  (`agent::flow`, `agent::adjudication`), the evidence gate and
  de-duplication (`agent::advanced`), sandboxed repository paths (`repo`),
  tool results (`tools`), the trajectory log and its credential scrubbing
  (`trajectory`), scoring against ground truth (`eval`, `runner`), the
  report text (`review`), blind triage (`triage`) and the de-duplication
  replay (`replay`). `cases` holds the benchmark's own example programs.
- `app/` is the command-line program around it: the HTTP client, the
  filesystem, the clock, JSON records and the floating-point rates. It
  drives the library's state machines and performs the actions they ask for.
- `tests/` exercises the library on concrete values.
