pub mod codepage;
pub mod command_laws;
pub mod commands;
pub mod parser;
pub mod qr;
pub mod stream_laws;
