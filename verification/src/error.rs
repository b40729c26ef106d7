//! The error reported by every decoder of this crate.

use vstd::prelude::*;

verus! {

/// What went wrong.
#[derive(Clone, Copy, Debug, PartialEq, Eq, Structural)]
pub enum ErrorKind {
    /// The bytes at the offset do not frame a value: a tag or length that
    /// cannot be read, a value that runs past the end of its parent or of
    /// the buffer, or nested content that is not itself well framed.
    Malformed,
    /// A required value is absent: its parent ends at the offset.
    MissingValue,
    /// A value is present but carries another tag, or is primitive where a
    /// constructed value is required or the other way round.
    UnexpectedTag,
    /// A value holds more content than its fields account for.
    TrailingData,
    /// A run of elements holds bytes behind its last element that are no
    /// further element: no SEQUENCE is framed where one would start.
    TrailingGarbage,
    /// An INTEGER is not encoded in the range 0..=255.
    InvalidInteger,
    /// An OBJECT IDENTIFIER is empty or ends inside a sub-identifier.
    InvalidOid,
    /// A time is not of the form `YYMMDDHHMMSSZ` or names no real instant.
    InvalidTime,
    /// A BIT STRING is empty or declares unused bits.
    InvalidBitString,
    /// The input is not a PEM document.
    InvalidPem,
}

/// The part of the object tree that was being decoded.
#[derive(Clone, Copy, Debug, PartialEq, Eq, Structural)]
pub enum Field {
    Envelope,
    ContentType,
    Content,
    SignedData,
    Version,
    DigestAlgorithms,
    ContentInfo,
    Certificates,
    SignerInfos,
    Certificate,
    TbsCertificate,
    SerialNumber,
    Algorithm,
    Issuer,
    Validity,
    NotBefore,
    NotAfter,
    Subject,
    SubjectPublicKeyInfo,
    PublicKey,
    SignatureValue,
    SignerInfo,
    SignerIdentifier,
    AuthenticatedAttributes,
    Attribute,
    AttributeValue,
    Signature,
    Pem,
}

/// A decoding failure: its kind, the field that was being decoded, and the
/// offset into the decoded buffer at which it was found.
#[derive(Clone, Copy, Debug, PartialEq, Eq, Structural)]
pub struct DecodeError {
    pub kind: ErrorKind,
    pub field: Field,
    pub offset: usize,
}

} // verus!
