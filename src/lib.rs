//! Protocol engine of a mail-receiving daemon: line framing, the per-connection
//! SMTP dialogue and the decisions of the mail spooler.
pub mod codec;
pub mod config;
pub mod text;
pub mod session;
pub mod service;
