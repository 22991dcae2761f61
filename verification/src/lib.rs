//! The message codecs and the connection registry of a relay server that lets
//! players announce their worlds to their friends.
//!
//! Client messages are decoded from big-endian byte frames, server messages are
//! encoded into them, and the registry decides which connections a message is
//! relayed to. The socket handling around these pieces lives outside the library.
pub mod ids;
pub mod text;
pub mod wire;
pub mod c2s_message;
pub mod in_message;
pub mod out_message;
pub mod s2c_message;
pub mod connection;
pub mod config;
