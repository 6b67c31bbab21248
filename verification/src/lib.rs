//! Decoding of Protobuf messages against their descriptors, and the rules by which a gRPC
//! interaction is verified.
pub mod decoding_laws;
pub mod descriptor;
pub mod descriptor_laws;
pub mod escape;
pub mod escape_laws;
pub mod field;
pub mod field_laws;
pub mod message_decoder;
pub mod message_laws;
pub mod metadata;
pub mod metadata_laws;
pub mod request;
pub mod request_laws;
pub mod text;
pub mod text_laws;
pub mod verification;
pub mod verification_laws;
pub mod wire;
pub mod wire_laws;
