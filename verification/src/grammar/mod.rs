//! Grammar trees over input tokens and their compilation into sparse state
//! tables.

pub mod compile;
pub mod compile_map;
pub mod builder;
pub mod ids;
pub mod labels;
pub mod tree;
pub mod used;
pub mod table;
pub mod flatten;
pub mod path_set;
pub mod keys;
pub mod explore;
pub mod finite;
pub mod sound;
