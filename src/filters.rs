//! The filters, one module per family.
pub mod base64;
pub mod bytes;
pub mod url;
pub mod hash;
pub mod case;
pub mod escape;
