//! Packet serializers that come with the library.
pub mod custom_crypt;
