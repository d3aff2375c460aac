//! Request handling: strict pass-through to NIM with per-key rate-limit
//! pacing, retry on 429/5xx, and SSE comment heartbeats. The decisions are
//! here; the caller performs them.
pub mod admission;
pub mod affinity;
pub mod buffered;
pub mod catalog;
pub mod executor;
pub mod executor_laws;
pub mod finish;
pub mod flow;
pub mod flow_laws;
pub mod guard_laws;
pub mod labels;
pub mod plan;
pub mod plan_laws;
pub mod replies;
pub mod retry;
pub mod shape;
pub mod upstream;
pub mod usage;

pub use labels::{bounded_label, label_path, sanitize_label};
pub use shape::{count_tools, is_json_mode, tool_choice_mode};
