# rpds

A persistent singly linked list with structural sharing, verified with Verus.

- `src/list/mod.rs`: `List<T, DataContainer>`, its view as a sequence of items, its type
  invariant (stored length and last item agree with the chain), and its operations; the
  iterators `IterContainer` and `Iter`.
- `src/list/compare.rs`: equality and lexicographic partial order of lists.
- `src/list/render.rs`: the bracketed text form of a list.
- `src/list/hashing.rs`: `Hash` for lists.
- `src/list/laws.rs`: laws relating the operations.
- `src/utils/container.rs`: the `Container` trait for item holders (`Arc`, `Rc`, `Owned`).
- `app/lib.rs`: std iterator and `Display` adapters, and collecting a list from an iterator.
