//! A registry of student records: create, read, update and delete over a
//! single collection keyed by an auto-incrementing id, with optional field
//! validation.
pub mod registry;
pub mod student;
pub mod text;

pub use registry::StudentContract;
pub use student::{Status, Student, StudentView};
pub use text::StudentError;
