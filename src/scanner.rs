pub mod defs;
pub mod file;
pub mod scan;
