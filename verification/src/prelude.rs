//! The crate's common imports in one place.

pub use crate::endian::Endian;
pub use crate::io::ReadEndian;
pub use crate::io::WriteEndian;
