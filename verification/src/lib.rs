//! An immutable, heap-allocated byte string that is exactly as long as its
//! contents.

pub mod compare;
pub mod laws;
pub mod show;
pub mod string;
pub mod utf8;

pub use crate::show::Shown;
pub use crate::string::IString;
pub use crate::utf8::EncodingError;
