// A host monitoring agent's core: metric samples and alerts (types), the
// per-metric ring-buffer store (ring, storage), procfs parsers (text, cpu,
// memory, network, collector), analyzers (stats, analyzer) and the alert
// manager (rate_limit, alerter), and the kernel-log scanner (logscan). Times are Unix seconds for samples and
// monotonic milliseconds for alert dispatch; values are thousandths of the
// metric's unit.

pub mod alerter;
pub mod analyzer;
pub mod collector;
pub mod config;
pub mod cpu;
pub mod host;
pub mod logscan;
pub mod memory;
pub mod network;
pub mod rate_limit;
pub mod ring;
pub mod stats;
pub mod storage;
pub mod text;
pub mod types;
