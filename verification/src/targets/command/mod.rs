pub mod container;
pub mod exec;
