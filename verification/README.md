# umthombo

Select over two or three producers of futures, polling only those that were
woken (and the one whose output is returned, to start its next future) and
preferring the producers in order.

- `src/` (verified with Verus) holds the selector's decisions. A poll is a run
  of `Select2::step` / `Select3::step`: the caller reports that a poll begins,
  with the producers' wake flags, and then performs each action the selector
  asks for (poll a producer and report what that gave) until the selector
  returns an output, or nothing, and says whether to wake the task again.
  Each selector has an abstract state (`SelectState2`, `SelectState3`) with a
  well-formedness predicate `wf` that `new` establishes and every step keeps;
  over it the laws are proved: no output is dropped, duplicated or reordered
  over any run, outputs come out in the producers' order, a poll ends, the
  task is woken exactly when outputs remain, and once the producers were
  polled a poll polls only woken producers, besides the producer whose output
  it returns, which is polled again so that its next future is started.
- `app/` holds the futures plumbing: the `Producer` trait, the wakers and the
  `Future` that `next` returns, which runs the selector's steps.
- `tests/` exercises the library on concrete runs.
