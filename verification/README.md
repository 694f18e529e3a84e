# rqe_iterators

Query iterators over document ids, verified with Verus.

- `rqe_iterator`: the interface `RQEIterator`, with its contracts over `Cursor`.
- `not`: `Not`, which yields the ids from 1 to a maximum that its child does not have.
- `not_optimized`: `NotOptimized`, which does the same among the documents of a wildcard.
- `not_iterator`: `NotIterator`, and `new_not_iterator`, which picks one of the two or a simpler
  iterator that stands for the negation.
- `optional_optimized`, `iterators_ffi`: the optional iterator and the entry points for its child.
- `timeout`: deadlines that look at the clock only once in so many checks.
- `empty`, `maybe_empty`, `either`, `boxed`: small iterators that the others are made of.
- `laws`: what holds of whole runs, such as that a negation yields exactly the complement.

`app/` holds the C interface. Within the library the clock (`std::time::Instant`) is the only
thing that is trusted.

Weights are carried as the bit patterns of floating-point numbers, and timeouts are given in
nanoseconds. To write an iterator of your own in ordinary Rust, implement `RQEIterator`; `view`,
`revalidates_to` and `lemma_consistent` are ghost code that is never run. Verus does not see such
an iterator: that it keeps to the contracts of `RQEIterator` is taken on trust, and what is proved
of a negation over it holds as far as it does.
