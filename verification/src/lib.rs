//! Decoder for PKCS#7 / CMS SignedData envelopes and the X.509 certificates
//! they carry.
//!
//! The decoder walks the BER/DER structure of a byte buffer and produces an
//! owned object tree: the envelope, its certificates and its signer infos,
//! together with the raw byte ranges that a signature verifier has to hash.
//! The header of each value is read with `bcder`; that the content it
//! declares is there, and every decision about the schema, is checked here
//! and is verified.

pub mod error;
pub mod ber;
pub mod cursor;
pub mod model;
pub mod text;
pub mod time;
pub mod oid;
pub mod primitive;
pub mod validity;
pub mod algorithm;
pub mod public_key;
pub mod certificate;
pub mod attribute;
pub mod signer;
pub mod signed_data;
pub mod pkcs7;
pub mod name;
pub mod provenance;
