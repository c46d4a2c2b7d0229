pub mod action_phase;
pub mod allocator_trim;
pub mod build_target;
pub mod cgroup;
pub mod component;
pub mod context_cache;
pub mod context_kind;
pub mod context_read_set;
pub mod dashboard;
pub mod isolate_client;
pub mod isolate_limits;
pub mod isolate_queue;
pub mod isolate_queue_state;
pub mod isolate_worker;
pub mod malloc_info;
pub mod memory_pressure;
pub mod memory_report;
pub mod memory_text;
pub mod metric_log;
pub mod metrics;
pub mod mysql_cancellation;
pub mod mysql_connection;
pub mod mysql_statement;
pub mod mysql_url;
pub mod number;
pub mod pressure_loop;
pub mod request;
pub mod scheduler;
pub mod scheduler_loop;
pub mod site_proxy;
pub mod startup_budget;
pub mod string_map;
pub mod text;
pub mod time;
pub mod tiny_lfu;
