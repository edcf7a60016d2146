//! Parsing and ordering of package atoms and their USE flags.
//!
//! An atom such as `>=dev-lang/python-3.12.11:3.12::gentoo` selects a
//! package; a line may follow it with USE flags such as `X11 -gtk`.

pub mod atom;
pub mod atom_line;
pub mod comparator;
pub mod error;
pub mod fixed_buffer_string;
pub mod flagstate;
pub mod lexical;
pub mod text;
pub mod useflag;

pub use atom::Atom;
pub use atom_line::AtomLine;
pub use comparator::VersionComparison;
pub use error::ErrorKind;
pub use flagstate::FlagState;
pub use useflag::UseFlag;
