//! Lists the source files that a compiled binary was built from, as its
//! debug information records them: each file's path and, where the compiler
//! wrote them down, its size, modification time and content checksum.

pub mod record;
pub mod order;
pub mod normalize;
pub mod error;
pub mod paths;
pub mod pdb_files;
pub mod dwarf_files;
pub mod dispatch;

pub use dispatch::{parse, try_parse, try_parse_object};
pub use error::ParseError;
pub use record::{FileCheckSum, FileInfo};
