//! Verified core of a mail server: directory lookups, IMAP `LIST` argument
//! parsing, milter message modifications, expression helpers and the DMARC
//! outbound reporting engine.

pub mod compare;
pub mod directory;
pub mod expr;
pub mod imap;
pub mod index;
pub mod managesieve;
pub mod message;
pub mod milter;
pub mod reporting;
pub mod session;
pub mod text;
