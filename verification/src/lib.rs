//! Core of an interactive terminal directory browser: recursive
//! directory-size aggregation over a tree model, human-readable size
//! formatting in fixed-point arithmetic, a width-aware columnar layout
//! engine, and the command-loop state machine with bounded history.
//!
//! Terminal I/O (raw mode, key events, screen writes) is left to the
//! surrounding binary; everything here is pure computation.

pub mod text;
pub mod width;
pub mod size;
pub mod fstree;
pub mod layout;
pub mod input;
