//! Where the byte strings of a decoded tree come from.
//!
//! Names, serial numbers, signatures and signed bodies are not read: they
//! are copied. The lemmas of this module state that each of them is a run
//! of consecutive bytes of the decoded buffer, within the range that the
//! decoding cursor was given.

use crate::algorithm::AlgorithmIdentifier;
use crate::ber::{Mode, TAG_CTX_0};
use crate::certificate::{
    spec_take_name, spec_take_version, Certificate, CertificateView, TbsCertificate,
    TbsCertificateView,
};
use crate::cursor::{lemma_header_extent, CursorView};
use crate::error::Field;
use crate::oid::Oid;
use crate::pkcs7::{Pkcs7, Pkcs7View};
use crate::primitive::{spec_take_bit_string, spec_take_u8};
use crate::signed_data::{
    spec_take_certificates, spec_take_digest_algorithms, spec_take_signer_infos, ContentInfo,
    SignedData,
};
use crate::signer::{
    spec_take_authenticated_attributes, SignerIdentifier, SignerIdentifierView, SignerInfo,
    SignerInfoView,
};
use crate::text::hex_lower;
use crate::validity::Validity;
use vstd::prelude::*;

verus! {

impl CursorView {
    /// `part` is a run of consecutive bytes of the buffer, within the range
    /// that this cursor may read.
    pub open spec fn holds(self, part: Seq<u8>) -> bool {
        exists|from: int, to: int|
            self.pos <= from <= to <= self.end && part == #[trigger] self.data.subrange(from, to)
    }

    /// `inner` reads the same buffer, within the range that this cursor may
    /// read.
    pub open spec fn covers(self, inner: CursorView) -> bool {
        inner.data == self.data && self.pos <= inner.pos <= inner.end <= self.end
    }

    /// `later` is this cursor moved forward.
    pub open spec fn reaches(self, later: CursorView) -> bool {
        later.data == self.data && later.end == self.end && self.pos <= later.pos <= later.end
    }
}

impl TbsCertificateView {
    /// The names and the encoded body are runs of bytes that `c` may read,
    /// and the serial number is such a run in hexadecimal.
    pub open spec fn drawn_from(self, c: CursorView) -> bool {
        &&& c.holds(self.issuer)
        &&& c.holds(self.subject)
        &&& c.holds(self.tbs_bytes)
        &&& exists|serial: Seq<u8>| #[trigger] c.holds(serial) && self.serial_number == hex_lower(serial)
    }
}

impl CertificateView {
    /// The signature and the identifier of its algorithm are runs of bytes
    /// that `c` may read, and the body is drawn from `c`.
    pub open spec fn drawn_from(self, c: CursorView) -> bool {
        &&& c.holds(self.signature_value)
        &&& c.holds(self.signature_algorithm.algorithm)
        &&& self.tbs_certificate.drawn_from(c)
    }
}

impl SignerIdentifierView {
    /// The name of the issuer and the serial number are runs of bytes that
    /// `c` may read.
    pub open spec fn drawn_from(self, c: CursorView) -> bool {
        &&& c.holds(self.issuer)
        &&& c.holds(self.serial_number)
    }
}

impl SignerInfoView {
    /// The signature is a run of bytes that `c` may read, and the signer
    /// identifier is drawn from `c`.
    pub open spec fn drawn_from(self, c: CursorView) -> bool {
        &&& c.holds(self.signature)
        &&& self.signer_identifier.drawn_from(c)
    }
}

impl Pkcs7View {
    /// The byte strings of every certificate and of every signer info, and
    /// the octets of the signed data, are runs of bytes that `c` may read.
    pub open spec fn drawn_from(self, c: CursorView) -> bool {
        &&& c.holds(self.content_bytes)
        &&& forall|i: int|
            0 <= i < self.content.certs.len() ==> (#[trigger] self.content.certs[i]).drawn_from(c)
        &&& forall|i: int|
            0 <= i < self.content.signer_infos.len() ==> (
            #[trigger] self.content.signer_infos[i]).drawn_from(c)
    }
}

/// What a cursor within another holds, the other holds.
pub proof fn lemma_holds_within(outer: CursorView, inner: CursorView, part: Seq<u8>)
    requires
        outer.covers(inner),
        inner.holds(part),
    ensures
        outer.holds(part),
{
    let (from, to) = choose|from: int, to: int|
        inner.pos <= from <= to <= inner.end && part == #[trigger] inner.data.subrange(from, to);
    assert(part == outer.data.subrange(from, to));
}

/// A value that is framed at a cursor lies within the cursor: so do its
/// content and its encoding, the cursor over its content and the cursor
/// behind it.
pub proof fn lemma_framed_value_within(c: CursorView)
    requires
        c.wf(),
    ensures
        c.header() matches Some(h) ==> {
            &&& c.holds(c.content(h))
            &&& c.holds(c.encoded(h))
            &&& c.covers(c.inner(h))
            &&& c.reaches(c.after(h))
            &&& c.inner(h).wf()
            &&& c.after(h).wf()
        },
{
    lemma_header_extent(c);
    if c.header() is Some {
        let h = c.header()->Some_0;
        assert(c.content(h) == c.data.subrange(c.pos + h.header_len(), c.pos + h.extent()));
        assert(c.encoded(h) == c.data.subrange(c.pos, c.pos + h.extent()));
    }
}

/// The byte strings of a certificate body that is taken from a cursor are
/// drawn from that cursor.
pub proof fn lemma_tbs_certificate_drawn_from(c: CursorView)
    requires
        c.wf(),
    ensures
        TbsCertificate::spec_take_from(c) matches Ok((v, after)) ==> v.drawn_from(c) && c.reaches(
            after,
        ) && after.wf(),
{
    reveal(TbsCertificate::spec_take_from);
    lemma_framed_value_within(c);
    if let Ok((v, after)) = TbsCertificate::spec_take_from(c) {
        let h = c.header()->Some_0;
        let i0 = c.inner(h);
        lemma_framed_value_within(i0);
        let c1 = spec_take_version(i0)->Ok_0.1;
        assert(i0.reaches(c1) && c1.wf()) by {
            if i0.header() is Some {
                lemma_framed_value_within(i0.inner(i0.header()->Some_0));
            }
        }
        lemma_framed_value_within(c1);
        let serial = c1.header()->Some_0;
        let s1 = c1.after(serial);
        lemma_framed_value_within(s1);
        let c2 = AlgorithmIdentifier::spec_take_from(s1)->Ok_0.1;
        lemma_framed_value_within(c2);
        let c3 = spec_take_name(c2, Field::Issuer)->Ok_0.1;
        lemma_framed_value_within(c3);
        let c4 = Validity::spec_take_from(c3)->Ok_0.1;
        lemma_framed_value_within(c4);
        lemma_holds_within(c, c1, c1.content(serial));
        lemma_holds_within(c, c2, v.issuer);
        lemma_holds_within(c, c4, v.subject);
        assert(c.holds(c1.content(serial)) && v.serial_number == hex_lower(c1.content(serial)));
    }
}

/// The byte strings of a certificate that is taken from a cursor are drawn
/// from that cursor.
pub proof fn lemma_certificate_drawn_from(c: CursorView)
    requires
        c.wf(),
    ensures
        Certificate::spec_take_from(c) matches Ok((v, after)) ==> v.drawn_from(c) && c.reaches(
            after,
        ) && after.wf(),
{
    reveal(Certificate::spec_take_from);
    lemma_framed_value_within(c);
    if let Ok((v, after)) = Certificate::spec_take_from(c) {
        let h = c.header()->Some_0;
        let i0 = c.inner(h);
        lemma_tbs_certificate_drawn_from(i0);
        let c1 = TbsCertificate::spec_take_from(i0)->Ok_0.1;
        lemma_framed_value_within(c1);
        let named = c1.inner(c1.header()->Some_0);
        lemma_framed_value_within(named);
        lemma_holds_within(c, named, v.signature_algorithm.algorithm);
        let c2 = AlgorithmIdentifier::spec_take_from(c1)->Ok_0.1;
        lemma_framed_value_within(c2);
        let bits = spec_take_bit_string(c2, Field::SignatureValue)->Ok_0.0;
        assert(bits.remaining() == bits.data.subrange(bits.pos, bits.end));
        assert(c.holds(v.signature_value));
        let t = v.tbs_certificate;
        lemma_holds_within(c, i0, t.issuer);
        lemma_holds_within(c, i0, t.subject);
        lemma_holds_within(c, i0, t.tbs_bytes);
        let serial = choose|serial: Seq<u8>| #[trigger]
            i0.holds(serial) && t.serial_number == hex_lower(serial);
        lemma_holds_within(c, i0, serial);
    }
}

/// The byte strings of a signer identifier that is taken from a cursor are
/// drawn from that cursor.
pub proof fn lemma_signer_identifier_drawn_from(c: CursorView)
    requires
        c.wf(),
    ensures
        SignerIdentifier::spec_take_from(c) matches Ok((v, after)) ==> v.drawn_from(c)
            && c.reaches(after) && after.wf(),
{
    lemma_framed_value_within(c);
    if let Ok((v, after)) = SignerIdentifier::spec_take_from(c) {
        let h = c.header()->Some_0;
        let i0 = c.inner(h);
        lemma_framed_value_within(i0);
        let c1 = spec_take_name(i0, Field::Issuer)->Ok_0.1;
        lemma_framed_value_within(c1);
        lemma_holds_within(c, i0, v.issuer);
        lemma_holds_within(c, c1, v.serial_number);
    }
}

/// The byte strings of a signer info that is taken from a cursor are drawn
/// from that cursor.
pub proof fn lemma_signer_info_drawn_from(c: CursorView)
    requires
        c.wf(),
    ensures
        SignerInfo::spec_take_from(c) matches Ok((v, after)) ==> v.drawn_from(c) && c.reaches(
            after,
        ) && after.wf(),
{
    reveal(SignerInfo::spec_take_from);
    lemma_framed_value_within(c);
    if let Ok((v, after)) = SignerInfo::spec_take_from(c) {
        let h = c.header()->Some_0;
        let i0 = c.inner(h);
        lemma_framed_value_within(i0);
        let c1 = spec_take_u8(i0, Field::Version)->Ok_0.1;
        lemma_signer_identifier_drawn_from(c1);
        let c2 = SignerIdentifier::spec_take_from(c1)->Ok_0.1;
        lemma_framed_value_within(c2);
        let c3 = AlgorithmIdentifier::spec_take_from(c2)->Ok_0.1;
        lemma_framed_value_within(c3);
        let c4 = spec_take_authenticated_attributes(c3)->Ok_0.2;
        lemma_framed_value_within(c4);
        let c5 = AlgorithmIdentifier::spec_take_from(c4)->Ok_0.1;
        lemma_framed_value_within(c5);
        lemma_holds_within(c, c5, v.signature);
        lemma_holds_within(c, c1, v.signer_identifier.issuer);
        lemma_holds_within(c, c1, v.signer_identifier.serial_number);
    }
}

/// A certificate that is drawn from a cursor within another is drawn from
/// the other.
pub proof fn lemma_certificate_within(outer: CursorView, inner: CursorView, v: CertificateView)
    requires
        outer.covers(inner),
        v.drawn_from(inner),
    ensures
        v.drawn_from(outer),
{
    let t = v.tbs_certificate;
    lemma_holds_within(outer, inner, v.signature_value);
    lemma_holds_within(outer, inner, v.signature_algorithm.algorithm);
    lemma_holds_within(outer, inner, t.issuer);
    lemma_holds_within(outer, inner, t.subject);
    lemma_holds_within(outer, inner, t.tbs_bytes);
    let serial = choose|serial: Seq<u8>| #[trigger]
        inner.holds(serial) && t.serial_number == hex_lower(serial);
    lemma_holds_within(outer, inner, serial);
}

/// A signer info that is drawn from a cursor within another is drawn from
/// the other.
pub proof fn lemma_signer_info_within(outer: CursorView, inner: CursorView, v: SignerInfoView)
    requires
        outer.covers(inner),
        v.drawn_from(inner),
    ensures
        v.drawn_from(outer),
{
    lemma_holds_within(outer, inner, v.signature);
    lemma_holds_within(outer, inner, v.signer_identifier.issuer);
    lemma_holds_within(outer, inner, v.signer_identifier.serial_number);
}

/// Every certificate that is taken from a run of certificates is drawn
/// from the cursor over the run.
pub proof fn lemma_all_certificates_drawn_from(c: CursorView)
    requires
        c.wf(),
    ensures
        forall|i: int|
            0 <= i < Certificate::spec_take_all(c).0.len() ==> (
            #[trigger] Certificate::spec_take_all(c).0[i]).drawn_from(c),
    decreases c.end - c.pos,
{
    if !c.at_end() {
        lemma_certificate_drawn_from(c);
        Certificate::lemma_take_from_frames(c);
        if let Ok((v, after)) = Certificate::spec_take_from(c) {
            if c.pos < after.pos <= after.end == c.end {
                lemma_all_certificates_drawn_from(after);
                let rest = Certificate::spec_take_all(after).0;
                let all = Certificate::spec_take_all(c).0;
                assert(all == seq![v] + rest);
                assert forall|i: int| 0 <= i < all.len() implies (#[trigger] all[i]).drawn_from(
                    c,
                ) by {
                    if i > 0 {
                        assert(all[i] == rest[i - 1]);
                        lemma_certificate_within(c, after, rest[i - 1]);
                    }
                }
            }
        }
    }
}

/// Every signer info that is taken from a run of signer infos is drawn
/// from the cursor over the run.
pub proof fn lemma_all_signer_infos_drawn_from(c: CursorView)
    requires
        c.wf(),
    ensures
        forall|i: int|
            0 <= i < SignerInfo::spec_take_all(c).0.len() ==> (
            #[trigger] SignerInfo::spec_take_all(c).0[i]).drawn_from(c),
    decreases c.end - c.pos,
{
    if !c.at_end() {
        lemma_signer_info_drawn_from(c);
        SignerInfo::lemma_take_from_frames(c);
        if let Ok((v, after)) = SignerInfo::spec_take_from(c) {
            if c.pos < after.pos <= after.end == c.end {
                lemma_all_signer_infos_drawn_from(after);
                let rest = SignerInfo::spec_take_all(after).0;
                let all = SignerInfo::spec_take_all(c).0;
                assert(all == seq![v] + rest);
                assert forall|i: int| 0 <= i < all.len() implies (#[trigger] all[i]).drawn_from(
                    c,
                ) by {
                    if i > 0 {
                        assert(all[i] == rest[i - 1]);
                        lemma_signer_info_within(c, after, rest[i - 1]);
                    }
                }
            }
        }
    }
}

/// Every certificate and every signer info of a signed-data body that is
/// taken from a cursor is drawn from that cursor.
pub proof fn lemma_signed_data_drawn_from(c: CursorView)
    requires
        c.wf(),
    ensures
        SignedData::spec_take_from(c) matches Ok((v, after)) ==> {
            &&& forall|i: int| 0 <= i < v.certs.len() ==> (#[trigger] v.certs[i]).drawn_from(c)
            &&& forall|i: int|
                0 <= i < v.signer_infos.len() ==> (#[trigger] v.signer_infos[i]).drawn_from(c)
            &&& c.reaches(after)
            &&& after.wf()
        },
{
    reveal(SignedData::spec_take_from);
    lemma_framed_value_within(c);
    if let Ok((v, after)) = SignedData::spec_take_from(c) {
        let h = c.header()->Some_0;
        let i0 = c.inner(h);
        lemma_framed_value_within(i0);
        let c1 = spec_take_u8(i0, Field::Version)->Ok_0.1;
        lemma_framed_value_within(c1);
        let c2 = spec_take_digest_algorithms(c1)->Ok_0.1;
        lemma_framed_value_within(c2);
        let c3 = ContentInfo::spec_take_from(c2)->Ok_0.1;
        lemma_framed_value_within(c3);
        let c4 = spec_take_certificates(c3)->Ok_0.1;
        assert(c3.reaches(c4) && c4.wf());
        if let Ok(Some(held)) = c3.expect_opt(
            TAG_CTX_0,
            true,
            Field::Certificates,
        ) {
            let run = c3.inner(held);
            lemma_all_certificates_drawn_from(run);
            assert forall|i: int| 0 <= i < v.certs.len() implies (#[trigger] v.certs[i]).drawn_from(
                c,
            ) by {
                lemma_certificate_within(c, run, v.certs[i]);
            }
        }
        lemma_framed_value_within(c4);
        let run = c4.inner(c4.header()->Some_0);
        lemma_all_signer_infos_drawn_from(run);
        assert forall|i: int| 0 <= i < v.signer_infos.len() implies (
        #[trigger] v.signer_infos[i]).drawn_from(c) by {
            lemma_signer_info_within(c, run, v.signer_infos[i]);
        }
    }
}

/// Round trip of the opaque fields: in a tree that was decoded from a
/// buffer, the name of every issuer and subject, every serial number and
/// every signature, the identifier of the signature algorithm of every
/// certificate, and every encoded certificate body, are runs of consecutive
/// bytes of that buffer; the serial number of a certificate is such a run in
/// hexadecimal.
pub proof fn lemma_decoded_tree_drawn_from_input(input: Seq<u8>, mode: Mode)
    requires
        input.len() <= usize::MAX,
    ensures
        Pkcs7::spec_decode(input, mode) matches Ok(v) ==> v.drawn_from(
            CursorView::over(input, mode),
        ),
{
    let c = CursorView::over(input, mode);
    lemma_framed_value_within(c);
    if let Ok(v) = Pkcs7::spec_decode(input, mode) {
        let h = c.header()->Some_0;
        let i0 = c.inner(h);
        lemma_framed_value_within(i0);
        let c1 = Oid::spec_take_from(i0, Field::ContentType)->Ok_0.1;
        let region = c1.with_mode(Mode::Ber);
        lemma_framed_value_within(region);
        let wrapper = region.header()->Some_0;
        let body = region.inner(wrapper);
        lemma_signed_data_drawn_from(body);
        lemma_holds_within(c, region, v.content_bytes);
        assert forall|i: int| 0 <= i < v.content.certs.len() implies (
        #[trigger] v.content.certs[i]).drawn_from(c) by {
            lemma_certificate_within(c, body, v.content.certs[i]);
        }
        assert forall|i: int| 0 <= i < v.content.signer_infos.len() implies (
        #[trigger] v.content.signer_infos[i]).drawn_from(c) by {
            lemma_signer_info_within(c, body, v.content.signer_infos[i]);
        }
    }
}

} // verus!
