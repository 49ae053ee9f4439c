# skv-analyzer

A memory-safety analyzer for LLVM IR of kernel code, written and proved in Verus.

The library follows allocations (`kmalloc`, `kzalloc`, `kcalloc`, `dma_alloc_coherent`) and the
pointers into them through pointer arithmetic, casts, integers and stack slots. It checks every
load, store, `memset`, `memcpy` and DMA mapping through such a pointer against the bounds of the
allocation, and finds use after free, double free and possible races with interrupt handlers. An
access or `kfree` through a pointer that it does not follow, other than an access to a stack slot,
makes a result that would pass unknown: it is never passed over. A name belongs to one function.
Bounds are decided by Z3; human approval decides which verification conditions may
reach it. A ring policy demands signed and validated attestation before a strict verdict stands.

## Layout

| Module | What it holds |
| --- | --- |
| `ir` | the part of LLVM IR that is read, type sizes, pointer distances, interrupt handlers |
| `layout` | where the parts of a type lie in memory |
| `machine` | the state of an analysis and the effect of every instruction, as mathematics |
| `analyze` | the analysis itself, proved to follow `machine` |
| `solver` | terms, bound checks and the call of Z3 |
| `hitl` | approval of verification conditions, their report and their classes |
| `assembly` | inline assembly that is known to be harmless |
| `attest` | fingerprints and detached Ed25519 signatures |
| `ring` | the ring policy, step by step |
| `files` | which files are trusted, and the effective user |
| `json` | JSON values as written, and how they read back |
| `verdict`, `report`, `catalog` | results, verdicts and other output |
| `modes`, `names`, `sets`, `text` | selectors, collections and text |
| `invariants`, `laws`, `faults`, `soundness`, `determinism` | what holds of every analysis |
| `sizes`, `offsets`, `order`, `identity`, `reading` | what holds of type sizes, offsets, sorted texts, identifiers and written output |

`app/` is the command line: argument parsing, files, the LLVM parser, the token validator and the
terminal menu.

## What is not proved

Calls into other crates stand behind small wrappers whose contracts are believed: Z3 (`solver`,
`analyze`), base64, SHA-256, hexadecimal and Ed25519 (`attest`), and `String::push` (`text`). Each
says above its declaration what it claims.
