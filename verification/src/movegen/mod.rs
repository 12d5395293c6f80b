pub mod boardwrapper;
pub mod hash_keys;
pub mod movegen;
pub mod movesorter;
pub mod see;
pub mod incremental;
