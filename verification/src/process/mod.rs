pub mod lemmas;
pub mod process;
pub mod scheduler;
pub mod stack;
pub mod state;

pub use self::process::{Id, Process};
pub use self::scheduler::{GlobalScheduler, Program, Schedule, Scheduler, TICK};
pub use self::stack::Stack;
pub use self::state::{Deadline, State};
