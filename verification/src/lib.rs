pub mod dag;
pub mod state;
pub mod text;
pub mod json;
pub mod bridge;
pub mod events;
pub mod rate_limiter;
pub mod tool_summary;
pub mod agent;
pub mod tui;
pub mod task_store;
pub mod worktree;
pub mod image_input;
pub mod insights;
pub mod prompts;
pub mod plan_parse;
pub mod keys;
pub mod orchestra;
pub mod token_estimate;
pub mod musician;
pub mod instructions;
pub mod review;
pub mod analysis;
pub mod planning;
pub mod merge;
pub mod columns;
pub mod memory;
pub mod plan_view;
