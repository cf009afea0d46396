//! watchr: the decision logic of a file watcher that reruns a command when
//! files change.

pub mod config;
pub mod display;
pub mod ignore;
pub mod runner;
pub mod text;
pub mod watcher;
