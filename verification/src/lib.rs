//! Parsing of single-line EMV application commands into typed requests.
//!
//! One line of text names an EMV instruction and its arguments; the parser
//! turns it into a [`command::Command`] value whose fields have already been
//! decoded from hex text, or reports exactly why it could not.

pub mod command;
pub mod hexstr;
pub mod laws;
pub mod launch;
pub mod text;
