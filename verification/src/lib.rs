//! Library side of supgit: everything the tool decides, parses and builds.
pub mod alias;
pub mod branch;
pub mod cli;
pub mod commit;
pub mod diff;
pub mod error;
pub mod plan;
pub mod remote;
pub mod reset;
pub mod shelve;
pub mod stage;
pub mod status;
pub mod tag;
pub mod text;
pub mod unstage;
pub mod update;
pub mod worktree;
