//! A small library for keeping named git identity profiles (a user name and
//! an email under a profile name), together with the interactive input state
//! machine that edits them: a mode enum, a transition table driven by key
//! events, draft text buffers, selection cursors over lists, a debounce
//! policy for key repeats, and a persistence codec for the profile store.

pub mod codec;
pub mod config;
pub mod cursor;
pub mod debounce;
pub mod input;
pub mod text;
