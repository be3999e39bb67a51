//! Conversion between the three representations of a Unix-style file
//! permission mode: the packed numeric mode, its six-digit octal rendering,
//! and the ten-character symbolic rendering such as `-rw-r--r--`.
//!
//! The first three octal digits of a mode name the file kind (`100` is a
//! regular file, `040` a directory, and so on); the last three digits give
//! the read/write/execute permissions of the user, group and other owner
//! categories. [`FullPermission`] decomposes a numeric mode into a file-kind
//! symbol and three permission triads, lets each triad be mutated in place,
//! and recomposes the numeric mode on demand. [`FullPermissionBuilder`]
//! assembles a permission from validated symbolic pieces.

pub mod errors;
pub mod full_permission;
pub mod octal;
pub mod owners;
pub mod patterns;
mod strutil;
pub mod tables;
pub mod triad;

pub use errors::FullPermissionError;
pub use full_permission::{FullPermission, FullPermissionBuilder};
pub use owners::OwnersKind;
pub use patterns::{is_valid_file_type, is_valid_triad};
pub use triad::ModeParser;
pub use tables::{
    digit_to_permission, file_type_number_to_symbol, permission_to_digit,
    symbol_to_file_type_number,
};
