# jobrail

A Redis-backed job queue. The verified library in `src/` holds its rules:

- `job`, `state`: jobs, their lifecycle and the retry back-off;
- `repeat`: repeatable jobs and their schedules;
- `keys`, `cursor`, `text`, `ids`: the store's key layout, pagination
  cursors and the text forms they are built from;
- `idempotency`: claiming and completing idempotency keys;
- `storage`: what each store operation changes, given what it read;
- `worker`: one run of a worker as a state machine, and the repeatable
  scheduler's decision;
- `listing`: paging through the job index as a state machine;
- `paging`: what whole listings give over an index that does not change:
  the first matching jobs, and pages that go on without overlap or gaps;
- `api`: the HTTP API's validation, errors and response bodies.

`app/` is the program around it: the Redis connection, the worker pool and
background loops that perform what the state machines ask for, and the
axum routes. It is run as `app api`, `app worker`, `app recovery`,
`app scheduler`, `app repeatable-scheduler` or `app demo`.
