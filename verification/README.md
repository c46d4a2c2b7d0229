# backend_runtime

The parts of a self-hosted backend that decide, verified with Verus: how requests wait for and get
isolates, which contexts are kept for reuse, how the process keeps within its memory, what is done
with a MySQL connection after an error or a cancellation, and what the dashboard may see.

- `src/` is the library. Its functions take plain values and say in their contracts what they
  return and change; loops that wait for something are step functions from a state and an event to
  the next state and what to do.
  - `text`, `number`, `string_map`, `time`, `metric_log`: what the rest is written with.
  - `isolate_queue`, `isolate_queue_state`, `request`, `isolate_limits`, `scheduler`,
    `scheduler_loop`, `isolate_client`, `isolate_worker`: the isolate scheduler.
  - `tiny_lfu`, `component`, `context_kind`, `context_cache`, `context_read_set`, `action_phase`:
    contexts and what runs in them.
  - `malloc_info`, `cgroup`, `memory_text`, `memory_pressure`, `startup_budget`, `memory_report`,
    `allocator_trim`, `pressure_loop`: memory.
  - `mysql_cancellation`, `mysql_statement`, `mysql_url`, `mysql_connection`: MySQL.
  - `dashboard`, `site_proxy`, `build_target`, `metrics`: the rest.
- `tests/` runs the library.
- `app/` is the ordinary Rust around it: files, the allocator, tasks, MySQL and HTTP.

What the library takes on trust of other crates is marked in the source: the reach of tokio's
clock, seeding a ChaCha generator, hexadecimal text, and what a URL holds.
