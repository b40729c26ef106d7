//! The public key of a certificate.

use crate::algorithm::{AlgorithmIdentifier, AlgorithmIdentifierView};
use crate::ber::{TAG_INTEGER, TAG_SEQUENCE};
use crate::cursor::{Cursor, CursorView};
use crate::error::{DecodeError, Field};
use crate::primitive::{spec_take_bit_string, take_bit_string};
use crate::text::{byte_list, push_byte_list};
use vstd::prelude::*;
use vstd::string::StringExecFns;

verus! {

/// The content octets of the object identifier 1.2.840.113549.1.1.1,
/// rsaEncryption.
pub open spec fn rsa_encryption() -> Seq<u8> {
    seq![0x2A, 0x86, 0x48, 0x86, 0xF7, 0x0D, 0x01, 0x01, 0x01]
}

/// Whether `oid` holds the content octets of rsaEncryption.
pub fn is_rsa_encryption(oid: &[u8]) -> (b: bool)
    ensures
        b == (oid@ == rsa_encryption()),
{
    let b = oid.len() == 9 && oid[0] == 0x2A && oid[1] == 0x86 && oid[2] == 0x48 && oid[3] == 0x86
        && oid[4] == 0xF7 && oid[5] == 0x0D && oid[6] == 0x01 && oid[7] == 0x01 && oid[8] == 0x01;
    assert(b == (oid@ =~= rsa_encryption()));
    b
}

/// A public key and the algorithm it is for.
///
/// The key material of an RSA key is the content of its modulus, as it
/// stands on the wire. For any other algorithm it is all that the key's BIT
/// STRING holds behind its count of unused bits.
#[derive(Clone, Debug, PartialEq, Eq)]
pub struct SubjectPublicKeyInfo {
    pub algorithm: AlgorithmIdentifier,
    pub subject_public_key: Vec<u8>,
}

/// The mathematical value of a [`SubjectPublicKeyInfo`].
pub struct SubjectPublicKeyInfoView {
    pub algorithm: AlgorithmIdentifierView,
    pub subject_public_key: Seq<u8>,
}

impl View for SubjectPublicKeyInfo {
    type V = SubjectPublicKeyInfoView;

    open spec fn view(&self) -> SubjectPublicKeyInfoView {
        SubjectPublicKeyInfoView {
            algorithm: self.algorithm@,
            subject_public_key: self.subject_public_key@,
        }
    }
}

impl SubjectPublicKeyInfoView {
    /// The text of this value.
    pub open spec fn to_string(self) -> Seq<char> {
        "SubjectPublicKeyInfo {\n    algorithm: "@ + self.algorithm.to_string()
            + ",\n    subject_public_key: "@ + byte_list(self.subject_public_key) + "\n  }"@
    }
}

/// What [`take_rsa_modulus`] returns on a cursor: the content of the first
/// INTEGER of the RSAPublicKey that fills the cursor.
pub open spec fn spec_take_rsa_modulus(c: CursorView) -> Result<Seq<u8>, DecodeError> {
    match c.expect(TAG_SEQUENCE, true, Field::PublicKey) {
        Err(e) => Err(e),
        Ok(h) => match c.inner(h).expect(TAG_INTEGER, false, Field::PublicKey) {
            Err(e) => Err(e),
            Ok(modulus) => match c.inner(h).after(modulus).expect(
                TAG_INTEGER,
                false,
                Field::PublicKey,
            ) {
                Err(e) => Err(e),
                Ok(exponent) => match c.inner(h).after(modulus).after(exponent).finish(
                    Field::PublicKey,
                ) {
                    Err(e) => Err(e),
                    Ok(_) => match c.after(h).finish(Field::PublicKey) {
                        Err(e) => Err(e),
                        Ok(_) => Ok(c.inner(h).content(modulus)),
                    },
                },
            },
        }
    }
}

/// Reads an RSAPublicKey, a SEQUENCE of the modulus and the public exponent,
/// which must fill the cursor, and returns the content of the modulus.
pub fn take_rsa_modulus(cons: &Cursor) -> (r: Result<Vec<u8>, DecodeError>)
    requires
        cons@.wf(),
    ensures
        match spec_take_rsa_modulus(cons@) {
            Ok(m) => r matches Ok(v) && v@ == m,
            Err(e) => r == Err::<Vec<u8>, DecodeError>(e),
        },
{
    let e = cons.expect(TAG_SEQUENCE, true, Field::PublicKey)?;
    let mut outer = *cons;
    let mut inner = outer.enter(&e);
    let modulus = inner.expect(TAG_INTEGER, false, Field::PublicKey)?;
    let bytes = inner.content(&modulus);
    inner.skip(&modulus);
    let exponent = inner.expect(TAG_INTEGER, false, Field::PublicKey)?;
    inner.skip(&exponent);
    inner.finish(Field::PublicKey)?;
    outer.finish(Field::PublicKey)?;
    Ok(bytes)
}

/// What [`take_key_material`] returns on a cursor for a key of the given
/// algorithm.
pub open spec fn spec_take_key_material(c: CursorView, algorithm: Seq<u8>) -> Result<
    (Seq<u8>, CursorView),
    DecodeError,
> {
    match spec_take_bit_string(c, Field::PublicKey) {
        Err(e) => Err(e),
        Ok((bits, after)) => if algorithm == rsa_encryption() {
            match spec_take_rsa_modulus(bits) {
                Err(e) => Err(e),
                Ok(m) => Ok((m, after)),
            }
        } else {
            Ok((bits.remaining(), after))
        },
    }
}

/// Takes the BIT STRING that wraps a public key and returns the key
/// material. On an error the cursor stays where it was.
pub fn take_key_material(cons: &mut Cursor, algorithm: &[u8]) -> (r: Result<Vec<u8>, DecodeError>)
    requires
        old(cons)@.wf(),
    ensures
        final(cons)@.wf(),
        match spec_take_key_material(old(cons)@, algorithm@) {
            Ok((m, after)) => r matches Ok(v) && v@ == m && final(cons)@ == after,
            Err(e) => r == Err::<Vec<u8>, DecodeError>(e) && final(cons)@ == old(cons)@,
        },
{
    let mut outer = *cons;
    let mut bits = take_bit_string(&mut outer, Field::PublicKey)?;
    let material = if is_rsa_encryption(algorithm) {
        take_rsa_modulus(&bits)?
    } else {
        bits.capture_all()
    };
    *cons = outer;
    Ok(material)
}

impl SubjectPublicKeyInfo {
    /// What [`SubjectPublicKeyInfo::take_from`] returns on a cursor.
    pub open spec fn spec_take_from(c: CursorView) -> Result<
        (SubjectPublicKeyInfoView, CursorView),
        DecodeError,
    > {
        match c.expect(TAG_SEQUENCE, true, Field::SubjectPublicKeyInfo) {
            Err(e) => Err(e),
            Ok(h) => match AlgorithmIdentifier::spec_take_from(c.inner(h)) {
                Err(e) => Err(e),
                Ok((algorithm, c1)) => match spec_take_key_material(c1, algorithm.algorithm) {
                    Err(e) => Err(e),
                    Ok((subject_public_key, c2)) => match c2.finish(Field::SubjectPublicKeyInfo) {
                        Err(e) => Err(e),
                        Ok(_) => Ok(
                            (SubjectPublicKeyInfoView { algorithm, subject_public_key }, c.after(h)),
                        ),
                    },
                },
            },
        }
    }

    /// Takes a SubjectPublicKeyInfo from the cursor: a SEQUENCE of an
    /// AlgorithmIdentifier and the BIT STRING that wraps the key. On an
    /// error the cursor stays where it was.
    pub fn take_from(cons: &mut Cursor) -> (r: Result<SubjectPublicKeyInfo, DecodeError>)
        requires
            old(cons)@.wf(),
        ensures
            final(cons)@.wf(),
            match SubjectPublicKeyInfo::spec_take_from(old(cons)@) {
                Ok((v, after)) => r matches Ok(k) && k@ == v && final(cons)@ == after,
                Err(e) => r == Err::<SubjectPublicKeyInfo, DecodeError>(e) && final(cons)@ == old(
                    cons,
                )@,
            },
    {
        let e = cons.expect(TAG_SEQUENCE, true, Field::SubjectPublicKeyInfo)?;
        let mut outer = *cons;
        let mut inner = outer.enter(&e);
        let algorithm = AlgorithmIdentifier::take_from(&mut inner)?;
        let subject_public_key = take_key_material(&mut inner, algorithm.algorithm.as_bytes())?;
        inner.finish(Field::SubjectPublicKeyInfo)?;
        *cons = outer;
        Ok(SubjectPublicKeyInfo { algorithm, subject_public_key })
    }

    /// This value as text: the algorithm and the key material as a list of
    /// bytes.
    pub fn to_string(&self) -> (s: String)
        ensures
            s@ == self@.to_string(),
    {
        let mut s = String::from_str("SubjectPublicKeyInfo {\n    algorithm: ");
        let algorithm = self.algorithm.to_string();
        s.append(algorithm.as_str());
        s.append(",\n    subject_public_key: ");
        push_byte_list(&mut s, self.subject_public_key.as_slice());
        s.append("\n  }");
        assert(s@ =~= self@.to_string());
        s
    }
}

} // verus!
