//! Review engine for triaging the files of a directory: a staged, undoable
//! keep/trash decision engine and the bookkeeping of a background preview
//! pipeline (an LRU cache, the worker's cancellation rules and a polling
//! client), with the option parsing, file ordering and key handling around them.
pub mod cli;
pub mod config;
pub mod decision_engine;
pub mod discovery;
pub mod domain;
pub mod preview;
pub mod preview_cache;
pub mod preview_content;
pub mod preview_worker;
pub mod session;
pub mod text;
pub mod tui;
