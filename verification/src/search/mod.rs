pub mod window;
pub mod search_options;
pub mod tt;
pub mod searcher;
pub mod search_master;
