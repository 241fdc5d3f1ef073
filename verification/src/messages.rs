//! The texts that the server sends to a client.

pub mod character;
pub mod greeting;
