//! Verified core of the eska command-line interface: locale selection,
//! reversible text encodings, IDE message framing and the pure parts of
//! its human and machine presentation.

pub mod framing;
pub mod args;
pub mod build_errors;
pub mod build_output;
pub mod changes;
pub mod commands;
pub mod creation_errors;
pub mod diagnostics;
pub mod diff;
pub mod dispatch;
pub mod doctor;
pub mod draft;
pub mod encoding;
pub mod history;
pub mod keyboard;
pub mod lifecycle;
pub mod locale;
pub mod messages;
pub mod new_project;
pub mod outcomes;
pub mod patch;
pub mod queue;
pub mod report;
pub mod rpc;
pub mod save_preview;
pub mod semantic;
pub mod sorting;
pub mod status;
pub mod text;
pub mod versioning;
pub mod workspace_build;
pub mod workflow_errors;
