//! Barrier-driven checkpoint coordination: epoch ledgers, bootstrap of new jobs from a
//! snapshot, the per-worker barrier fan-out, and the job lifecycle decisions around them.
pub mod epoch;
pub mod node_to_collect;
pub mod protocol;
pub mod barrier_control;
pub mod graph_info;
pub mod control_stream;
pub mod progress;
pub mod status;
pub mod command;
pub mod upstream_log;
pub mod creating_job;
pub mod plan;
pub mod stream_manager;
pub mod recovery;
pub mod text;
pub mod timestamp_field;
