//! Turns one shell command line into the property list of a launchd
//! service: a label, the program arguments, the environment variables, and
//! whether the service runs at load and is kept alive.
//!
//! [`syntax`] has the command line parsed and [`shell`] reads the result as
//! simple commands; [`document`] builds the element tree of the definition;
//! [`emit`] writes a tree through the XML [`writer`], and [`escape`] escapes
//! text on its way there; [`convert`] puts them in a row.

pub mod convert;
pub mod document;
pub mod emit;
pub mod escape;
pub mod shell;
pub mod syntax;
pub mod writer;
