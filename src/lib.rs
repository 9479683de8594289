pub mod changes;
pub mod editor;
pub mod error;
pub mod buffer;
pub mod session;
