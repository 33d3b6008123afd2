pub mod args;
pub mod build_command;
pub mod execute;
pub mod list;
pub mod run;
pub mod start;
pub mod status;
pub mod stop;
pub mod watch;

pub use args::{Args, Commands};
pub use build_command::BuildCommand;
pub use execute::{Execute, Work};
pub use list::ListCommand;
pub use run::RunCommand;
pub use start::StartCommand;
pub use status::StatusCommand;
pub use stop::StopCommand;
pub use watch::WatchCommand;
