# xgc

The core of a region-based, concurrent mark-and-relocate garbage collector,
written in Verus: every function of the library carries a `requires` /
`ensures` contract, and the laws that tie the operations together (colored
pointers round-trip, forwarding follows recorded moves, a sweep frees only
white unpinned objects, pin/unpin and reserve/release undo each other, FIFO
and LIFO disciplines of the queues) are proof functions named `law_*`.

Layout:

- `src/` — the verified library, one module per subsystem (colored
  pointers, barriers, mark phase and worklist, relocation, regions, pages,
  cards, slabs, pins, weak references and finalization, cycle detection,
  pressure and budgets, event log, diagnostics, the `Xgc` handle).
- `tests/` — executable tests of the library.
- `app/` — the unverified runtime glue: heap memory through the system
  allocator, the global site-id counter, the floating-point heuristics and
  closure-based traversal helpers.
