# oats_framework

Objects, Actions, Traits and Systems, verified with Verus.

* `src/` is the verified library: traits and their data, objects, the action context
  and results, the precondition check that actions run before executing, the object
  registry with its all-or-nothing writeback of proposed trait updates, and the order
  in which systems run.
* `app/` is the asynchronous host around it: actions that execute asynchronously,
  systems that process objects, the registry behind a `tokio` lock, floating-point
  timing statistics, and serializable copies of the library's values.
* `tests/` exercises the library.
