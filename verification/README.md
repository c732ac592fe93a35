# rwrk

The core of a distributed load tester, verified with Verus, and the programs
around it.

- `src/` is the library. It decides; it does no input or output.
  - `enroll` keeps the registrations of the configuration service, notifies the
    listeners on an id and tells what to push to them; `enroll_laws` states what
    holds of it over runs of requests.
  - `worker` decides when a load test starts, restarts, changes and ends, and
    `load_test` what its connections do; `worker_laws` states what holds of both.
  - `limiter` lets requests through: a token bucket for those that start, and a
    bound on those under way; `limiter_laws` states that it keeps the rate.
  - `metrics` counts and measures requests, under the names of `metric_names`;
    `metrics_laws` states that no request is lost. `fnv` is the hash by which
    prometheus tells names and label values apart.
  - `expire` reads when a test ends, on the `calendar`; `sse` sorts the events of
    the configuration stream.
  - `handler` answers for the HTTP, WebSocket and gRPC targets.
  - `registration` and `text` hold the data that the others share.
- `app/` holds the programs. `rwrk` is the worker; `enroll`, `pon` and `rgrpc` are
  run under their own names, by a link to `rwrk`, or as its first argument:

  ```
  rwrk enroll -l 8081
  rwrk pon -l 8080
  rwrk -c "http://localhost:8081/get?id=rwrk"
  ```
- `tests/` runs the library on concrete values.

## Parameters of a registration

| Name | Meaning | If missing or unreadable |
| --- | --- | --- |
| `connection`, or `conn` | how many connections send requests | no test |
| `host` | where the requests go | `http://127.0.0.1:8080/check` |
| `rate` | how many requests may start per second, and be under way at once | the number of connections |
| `expire` | the end, as `2030.12.31-23:59` in Beijing time, or as a number of seconds from now | no test |

A new `connection` or `host` restarts the test; a new `rate` or `expire` takes
effect while it runs. The same registration once more changes nothing while its
test runs, and runs the test again once it has ended.

## What is trusted

The library calls chrono, dashmap, prometheus and tokio's broadcast channel. Each
call stands in a function marked `external_body`, whose comment says what is
believed of it.

What tokio's `Receiver::recv` gives a listener is awaited in `app/`. The law
`the_last_set_is_pushed_last` takes it from the description `heard` in
`enroll_laws`, which nothing checks.
