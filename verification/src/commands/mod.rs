//! The commands that are built in.

pub mod alias;
pub mod all;
pub mod append;
pub mod ceil;
pub mod dataframe;
pub mod first;
pub mod insert;
pub mod keep_until;
pub mod map_max_by;
pub mod path_exists;
pub mod path_split;
pub mod random;
pub mod run_alias;
pub mod seq;
pub mod shuffle;
pub mod sum;
pub mod table_options;
pub mod to_md;
pub mod to_toml;
pub mod which;
