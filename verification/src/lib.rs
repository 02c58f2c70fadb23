//! COSE_Sign1 construction over an arbitrary payload: the to-be-signed
//! `Sig_structure` buffer and the tagged four-field object.

pub mod cbor;
pub mod cosesign1;
mod encoder;
pub mod error;
pub mod fingerprint;
pub mod laws;
