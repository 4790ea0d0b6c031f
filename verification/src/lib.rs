//! A verified to-do list: the task registry and the command dispatcher that
//! drives it.

pub mod command;
pub mod dispatch;
pub mod error;
pub mod laws;
pub mod registry;
pub mod render;
pub mod task;
pub mod text;
pub mod words;

pub use error::Missing;
pub use error::TodoError;
pub use error::TodoErrorView;
pub use registry::get_task;
pub use registry::Registry;
pub use registry::RegistryView;
pub use task::Task;
pub use task::TaskView;
pub use command::Command;
pub use dispatch::add_new_task;
pub use dispatch::remove_task;
pub use dispatch::run;
pub use dispatch::run_line;
pub use dispatch::Outcome;
pub use render::display_help;
pub use render::display_todo;
pub use words::tokenize;
