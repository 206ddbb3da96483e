//! Control wrapper around the `ldconsole` emulator manager executable.
//!
//! The library builds the manager's command lines, and parses the output of
//! its `list2` listing command: bytes captured from the child process are
//! decoded from the GBK legacy encoding (strictly: invalid bytes fail the
//! whole operation), split into CRLF-terminated lines, and each non-empty
//! line is split on commas and mapped positionally into an [`record::LdMnq`]
//! record.  Spawning and waiting on the manager process itself is left to
//! the caller.

pub mod control;
pub mod errors;
pub mod listing;
pub mod num;
pub mod record;
pub mod split;

pub use control::get_ld_console_path;
pub use errors::LdError;
pub use listing::parse_list2_output;
pub use record::LdMnq;
