//! Core of a keyboard-driven directory browser: the model of the current
//! directory, the incremental fuzzy filter over its entries, and the state
//! machine that turns key presses into changes of both.
//!
//! The library never touches the filesystem, the terminal or a child
//! process. Its caller examines the filesystem and hands over what it
//! found as a [`filemanager::Probe`]; the library decides what that means
//! and answers with the new state and with what the caller is to run.
//!
//! * [`fzf`] holds the filter: candidates stay while the typed atoms
//!   appear in their keys, in order.
//! * [`order`] holds the order of a listing and the sort that makes it.
//! * [`filemanager`] holds the current directory and its listing.
//! * [`state`] holds the state of the browser and what each key does.
//! * [`fmloop`] holds one turn of the loop around the state.
//! * [`text`], [`utils`] and [`theme`] hold filter keys and lines, the
//!   reading of the media type query, and the colours.

pub mod filemanager;
pub mod fmloop;
pub mod fzf;
pub mod order;
pub mod state;
pub mod text;
pub mod theme;
pub mod utils;
