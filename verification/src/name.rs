//! The parts of a distinguished name.
//!
//! The decoders keep the names of issuers and subjects as the octets they
//! have on the wire. These types are for callers that take such a name
//! apart themselves.

use crate::oid::Oid;
use vstd::prelude::*;

verus! {

/// One attribute of a name: its type and its value as text.
#[derive(Clone, Debug, PartialEq, Eq)]
pub struct AttributeTypeAndValue {
    pub attribute_type: Oid,
    pub attribute_value: String,
}

/// One relative distinguished name: the attributes of one SET of a name.
#[derive(Clone, Debug, PartialEq, Eq)]
pub struct RelativeDistinguishedName {
    pub attributes: Vec<AttributeTypeAndValue>,
}

} // verus!
