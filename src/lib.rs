//! Supervisor core for interactive coding-agent sessions: admission control,
//! an event bus with a bounded history, the session document and its
//! repair, the supervisor's request table and retry policy, the relay's
//! control state machine and stream handling, the command surface, skill
//! matching, and the watchdog of one-shot runs.
pub mod clock;
pub mod concurrency;
pub mod text;
pub mod store;
pub mod supervisor;
pub mod ingest;
pub mod commands;
pub mod relay;
pub mod events;
pub mod skills;
pub mod runner;
pub mod cli;
pub mod claude;
pub mod peer;
pub mod http;
