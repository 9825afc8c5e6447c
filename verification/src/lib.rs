//! Verified core of the Spice runtime: user-agent strings, rank fusion SQL,
//! scheduling decisions, the agent pipeline's messages and decisions,
//! registries of workers and token providers, query rewrites, and
//! parameter tables.

pub mod ids;
pub mod text;
pub mod user_agent;
pub mod reciprocal_rank;
pub mod progress;
pub mod research;
pub mod plan;
pub mod pipeline;
pub mod scheduler;
pub mod schedule_pass;
pub mod tpch;
pub mod model_params;
pub mod query_params;
pub mod keyed;
pub mod token_registry;
pub mod workers;
pub mod search;
pub mod tools;
pub mod dispatch;
pub mod executor;
pub mod udf_override;
pub mod metric_kinds;
pub mod planner_models;
