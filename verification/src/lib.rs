//! Decision logic of a notifier that turns the end of an agent turn into an
//! e-mail: which events are processed, which conversation turns are shown,
//! how duplicate notifications are recognised, how the command line is read
//! and in which order the side effects happen.

pub mod text;
pub mod event;
pub mod cli;
pub mod subject;
pub mod flow;
