pub mod container_image;
pub mod exec;
