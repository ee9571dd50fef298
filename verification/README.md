# task_pool

A pool of workers that run tasks: with priorities, delays, retries, four
scheduling strategies, a queue for tasks that were given up, and a number of
workers that follows the load.

`src/` is the library. It holds the state of the pool and every decision about
it, verified with Verus:

- `types`: tasks, retry policies, results, the configuration
- `time`: points in time and lengths of time
- `queue`: the queue that hands out its most urgent task first
- `channel`: the bounded channels that carry tasks
- `scheduler`: which worker gets which task
- `worker`: what a worker makes of a task
- `dead_letter`: the tasks that were given up
- `metrics`: what the pool counts
- `pool`: the pool as a whole
- `laws`: what holds of the pool beyond its single functions
- `life`: what holds over the whole life of a pool

The library waits for nothing. Where the pool has to wait or to send, a function
returns the step to be taken, and another takes the outcome. `app/` runs these
steps on the tokio runtime. `tests/` runs them one by one.
