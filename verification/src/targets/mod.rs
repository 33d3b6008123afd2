pub mod artifact;
pub mod command;

pub use artifact::container_image::ContainerArtifact;
pub use artifact::exec::ExecArtifact;
pub use command::container::ContainerCommand;
pub use command::exec::ExecCommand;
