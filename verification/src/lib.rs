//! Deep links for a pop-up browser shell.
//!
//! The operating system hands the shell a link of the form
//! `vocabkiller://open?url=<percent-encoded address>`. This library reads the
//! `url` parameters out of such a link, decodes them, keeps those that are
//! web addresses and describes the window to open for each.

pub mod text;
pub mod escape;
pub mod link;
pub mod decimal;
pub mod clock;
pub mod window;
pub mod receiver;
