pub mod sd;

pub use self::sd::Sd;
