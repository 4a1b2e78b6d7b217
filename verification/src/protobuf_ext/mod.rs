//! Methods and helper types over the protocol-buffer messages.

pub mod feature_ext;
pub mod image_ext;
pub mod tensor_ext;
