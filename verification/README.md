# rs_ctx

Go-style context propagation: contexts form a tree that carries values,
deadlines and cancellation from a parent to the work started under it.

- `src/` is the verified library: the context tree (`context.rs`), typed keys
  (`key.rs`), the decision taken when a context is canceled or its deadline
  passes and the error a context reports (`signal.rs`), the error type
  (`error.rs`), and the types and calls taken from std and tokio (`runtime.rs`).
- `app/` is the asynchronous face: deadline timers, awaiting the error cells,
  waiting for a context to be done, encoding keys with bincode and storing
  values of any type.
- `tests/` exercises the library.

A context reports the error recorded nearest to it along its lineage (itself,
then its ancestors): cancelling a context makes it and every context under it
done, and the first error a context reports stays.
