//! Shellswitch: evidence-based desktop-shell discovery and transactional
//! lifecycle control. This crate holds the decision logic; the executable
//! around it performs the file, process and terminal work.
pub mod text;
pub mod path;
pub mod dup;
pub mod ownership;
pub mod changes;
pub mod maintenance;
pub mod matching;
pub mod ui;
pub mod niri;
pub mod audit;
pub mod launch;
pub mod catalog;
pub mod procfs;
pub mod model;
pub mod process;
pub mod control;
pub mod handoff;
pub mod holds;
pub mod rollback;
pub mod lifecycle;
pub mod kdl;
pub mod compose;
pub mod wayland;
pub mod native;
pub mod automatic;
pub mod discovery;
pub mod diagnostics;
pub mod doctor;
pub mod protection;
pub mod install;
pub mod adapters;
pub mod generic;
