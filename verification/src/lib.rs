//! Checks a claimed institute and member id against the text that an
//! optical-character-recognition service reads from a photographed card.
pub mod digest;
pub mod error;
pub mod escape;
pub mod nonce;
pub mod order;
pub mod params;
pub mod picture;
pub mod pipeline;
pub mod reply;
pub mod request;
pub mod response;
pub mod scale;
pub mod sign;
pub mod text;
