# rapi

Decision logic of a job-switching daemon, verified with Verus.

A job runs as processes on several nodes. A node daemon (`rapid`) relays
what the processes report to a controller (`rapictld`) and suspends or
resumes them on the controller's request. The controller keeps track of the
job's processes and, following a strategy, decides when to suspend the job
and when to resume it.

- `src/job.rs`: the job's processes and their statuses, viewed as a map.
- `src/strategy/`: the fixed-timeslice, wait-focused and comm-focused
  strategies; times are readings of a monotonic clock in nanoseconds.
- `src/control.rs`: what a node's message does to the job, and one step of
  the controller's loop.
- `src/rapid.rs`: the node daemon's handling of a request.
- `src/ctl.rs`: the stop/continue alternation of the standalone controller.
- `app/`: sockets, threads, signals, the clock, the command lines and the
  floating-point share of communicating processes.
