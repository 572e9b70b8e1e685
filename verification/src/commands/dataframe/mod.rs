//! The commands that work on data frames.

pub mod load;
pub mod replace_all;
pub mod unique;
pub mod where_;
