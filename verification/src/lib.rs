//! A codec for the AppFile container: package metadata in a small binary
//! layout with three kinds of payload.

use vstd::prelude::*;

pub use crate::error::{IoErrorKind, ParserError};
pub use crate::reader::ExtReader;
pub use crate::schema::{
    AppFileType, BinStruct, InstallerOptions, InstallerOptionsLinux, InstallerOptionsWin32, Schema,
};
pub use crate::writer::ExtWriter;

pub mod bigendian;
pub mod error;
pub mod json;
pub mod laws;
pub mod layout;
pub mod reader;
pub mod schema;
pub mod text;
pub mod writer;

verus! {

/// The only container version this build reads and writes.
pub const VER: u16 = 0;

} // verus!
