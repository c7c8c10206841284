//! The verified core of a terminal multiplexer: the resource hierarchy, its
//! binary protocol and snapshots, and the decisions of the processes and
//! windows around it.

pub mod activation;
pub mod agent_integration;
pub mod application;
pub mod application_core;
pub mod bytes;
pub mod core_driver;
pub mod core_model;
pub mod crypto;
pub mod desktop_presence;
pub mod desktop_shell;
pub mod ghostty;
pub mod grid;
pub mod gui;
pub mod persistence;
pub mod pty;
pub mod resident_core;
pub mod sequences;
pub mod table;
pub mod terminal;
pub mod text;
pub mod wide;

pub use agent_integration::{AgentProgram, AgentSnapshot, AgentState};
pub use application_core::worker::ApplicationCore;
pub use application_core::{
    CoreCommandOutcome, SemanticEvent, SemanticEventKind, TerminalChange, TerminalSnapshot,
};
pub use core_model::model::CoreModel;
pub use core_model::{
    CoreCommand, CoreCommit, CoreEffect, CoreModelError, CoreSnapshot, CreatedResource,
    DirectoryPath, PaneId, PaneLayout, PaneSnapshot, ResourceKind, SpaceId, SpaceSnapshot,
    SplitAxis, SplitId, SplitPlacement, SplitRatio, SplitSnapshot, TabId, TabSnapshot,
    TerminalLaunch, TerminalSessionId, TerminalSessionSnapshot,
};
pub use terminal::{TerminalCell, TerminalLifecycle, TerminalSize};
