pub mod action;
pub mod client;
pub mod command;
pub mod router;
pub mod text;
