pub mod args;
pub mod command;
pub mod line;
pub mod number;
pub mod words;

pub use self::command::{Action, Command, Error};
pub use self::line::{read_line, Echo, LineBuffer, Reading};
