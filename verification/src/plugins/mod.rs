//! The plugins that come with the shell.

pub mod add;
