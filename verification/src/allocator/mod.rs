pub mod bin;
pub mod blocks;
pub mod size;
pub mod util;

pub use self::bin::{AllocErr, Allocator, Bin, Layout};
pub use self::util::{align_down, align_up};
