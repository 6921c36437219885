//! IMAP requests: the tokens of a command line, the parsing of the
//! arguments of `LIST`, and the answer to `APPEND`.

pub mod append;
pub mod list;
pub mod receiver;
pub mod utf7;
