//! Decision logic of a task driver: task selection, attempt accounting,
//! rate-limit budgeting, run layout and exit-code protocol.

pub mod agent;
pub mod assembly_contract;
pub mod commit;
pub mod context_compile;
pub mod decimal;
pub mod driver;
pub mod guard;
pub mod json;
pub mod json_text;
pub mod ledger;
pub mod paths;
pub mod pipeline;
pub mod rate_limit;
pub mod run_paths;
pub mod select;
pub mod task_metadata;
pub mod task_store;
pub mod text;
pub mod verification;
