//! Algorithm identifiers.

use crate::ber::TAG_SEQUENCE;
use crate::cursor::{lemma_header_extent, Cursor, CursorView};
use crate::error::{DecodeError, ErrorKind, Field};
use crate::model::{lemma_views_push, optional_bytes, views};
use crate::oid::{oid_dotted, Oid};
use crate::text::{optional_byte_list, push_optional_byte_list};
use vstd::prelude::*;
use vstd::string::StringExecFns;

verus! {

/// An algorithm and its parameters. The parameters are the encoded values
/// that follow the algorithm in its SEQUENCE, kept as they stand; they are
/// absent where nothing follows.
#[derive(Clone, Debug, PartialEq, Eq)]
pub struct AlgorithmIdentifier {
    pub algorithm: Oid,
    pub parameters: Option<Vec<u8>>,
}

/// The mathematical value of an [`AlgorithmIdentifier`].
pub struct AlgorithmIdentifierView {
    pub algorithm: Seq<u8>,
    pub parameters: Option<Seq<u8>>,
}

impl View for AlgorithmIdentifier {
    type V = AlgorithmIdentifierView;

    open spec fn view(&self) -> AlgorithmIdentifierView {
        AlgorithmIdentifierView {
            algorithm: self.algorithm@,
            parameters: optional_bytes(self.parameters),
        }
    }
}

impl AlgorithmIdentifierView {
    /// The text of this value.
    pub open spec fn to_string(self) -> Seq<char> {
        "AlgorithmIdentifier {\n    algorithm: "@ + oid_dotted(self.algorithm)
            + ",\n    parameters: "@ + optional_byte_list(self.parameters) + "\n  }"@
    }
}

/// The algorithm identifiers that a cursor holds, and the error for what is
/// left where not all of it decodes.
#[derive(Clone, Debug, PartialEq, Eq)]
pub struct AlgorithmIdentifierSet {
    pub algorithms: Vec<AlgorithmIdentifier>,
    pub error: Option<DecodeError>,
}

impl AlgorithmIdentifier {
    /// What [`AlgorithmIdentifier::take_from`] returns on a cursor.
    pub open spec fn spec_take_from(c: CursorView) -> Result<
        (AlgorithmIdentifierView, CursorView),
        DecodeError,
    > {
        match c.expect(TAG_SEQUENCE, true, Field::Algorithm) {
            Err(e) => Err(e),
            Ok(h) => match Oid::spec_take_from(c.inner(h), Field::Algorithm) {
                Err(e) => Err(e),
                Ok((algorithm, c1)) => Ok(
                    (
                        AlgorithmIdentifierView {
                            algorithm,
                            parameters: if c1.at_end() {
                                None
                            } else {
                                Some(c1.remaining())
                            },
                        },
                        c.after(h),
                    ),
                ),
            },
        }
    }

    /// Takes an AlgorithmIdentifier from the cursor: a SEQUENCE of an
    /// OBJECT IDENTIFIER and whatever parameters follow it. On an error the
    /// cursor stays where it was.
    pub fn take_from(cons: &mut Cursor) -> (r: Result<AlgorithmIdentifier, DecodeError>)
        requires
            old(cons)@.wf(),
        ensures
            final(cons)@.wf(),
            match AlgorithmIdentifier::spec_take_from(old(cons)@) {
                Ok((v, after)) => r matches Ok(a) && a@ == v && final(cons)@ == after,
                Err(e) => r == Err::<AlgorithmIdentifier, DecodeError>(e) && final(cons)@ == old(
                    cons,
                )@,
            },
    {
        let e = cons.expect(TAG_SEQUENCE, true, Field::Algorithm)?;
        let mut outer = *cons;
        let mut inner = outer.enter(&e);
        let algorithm = Oid::take_from(&mut inner, Field::Algorithm)?;
        let parameters = if inner.at_end() {
            None
        } else {
            Some(inner.capture_all())
        };
        *cons = outer;
        Ok(AlgorithmIdentifier { algorithm, parameters })
    }

    /// What [`AlgorithmIdentifier::take_all`] returns on a cursor: the
    /// algorithm identifiers that decode one after the other from the cursor
    /// on; then `TrailingGarbage` where no SEQUENCE is framed at an offset before the
    /// end, and the error of the element where one is framed and does not
    /// decode.
    pub open spec fn spec_take_all(c: CursorView) -> (
        Seq<AlgorithmIdentifierView>,
        Option<DecodeError>,
    )
        decreases c.end - c.pos,
    {
        if c.at_end() {
            (Seq::empty(), None)
        } else if c.expect(TAG_SEQUENCE, true, Field::DigestAlgorithms) is Err {
            (Seq::empty(), Some(c.error(ErrorKind::TrailingGarbage, Field::DigestAlgorithms)))
        } else {
            // Taking a value moves a cursor forward; the test on the
            // positions says so where the recursion is checked.
            match AlgorithmIdentifier::spec_take_from(c) {
                Err(e) => (Seq::empty(), Some(e)),
                Ok((v, after)) => if c.pos < after.pos <= after.end == c.end {
                    let (rest, error) = AlgorithmIdentifier::spec_take_all(after);
                    (seq![v] + rest, error)
                } else {
                    (seq![v], None)
                },
            }
        }
    }

    /// Takes algorithm identifiers from the cursor until it is at its end
    /// or what is left does not decode as one. Those that were taken are
    /// returned in either case.
    pub fn take_all(cons: &Cursor) -> (r: AlgorithmIdentifierSet)
        requires
            cons@.wf(),
        ensures
            views(r.algorithms@) == AlgorithmIdentifier::spec_take_all(cons@).0,
            r.error == AlgorithmIdentifier::spec_take_all(cons@).1,
    {
        let mut algorithms: Vec<AlgorithmIdentifier> = Vec::new();
        let mut cur = *cons;
        let mut error: Option<DecodeError> = None;
        assert(views(algorithms@) =~= Seq::<AlgorithmIdentifierView>::empty());
        while error.is_none() && !cur.at_end()
            invariant
                cur@.wf(),
                error is None ==> AlgorithmIdentifier::spec_take_all(cons@).0 == views(algorithms@)
                    + AlgorithmIdentifier::spec_take_all(cur@).0,
                error is None ==> AlgorithmIdentifier::spec_take_all(cons@).1
                    == AlgorithmIdentifier::spec_take_all(cur@).1,
                error is Some ==> AlgorithmIdentifier::spec_take_all(cons@) == (
                    views(algorithms@),
                    error,
                ),
            decreases (if error is None { 1int } else { 0int }), cur.end - cur.pos,
        {
            let ghost before = cur@;
            let ghost taken = views(algorithms@);
            proof {
                lemma_header_extent(before);
            }
            match cur.expect(TAG_SEQUENCE, true, Field::DigestAlgorithms) {
                Err(_) => {
                    error = Some(
                        DecodeError {
                            kind: ErrorKind::TrailingGarbage,
                            field: Field::DigestAlgorithms,
                            offset: cur.pos,
                        },
                    );
                    assert(taken + Seq::<AlgorithmIdentifierView>::empty() =~= taken);
                },
                Ok(_) => match AlgorithmIdentifier::take_from(&mut cur) {
                    Ok(algorithm) => {
                        proof {
                            lemma_views_push(algorithms@, algorithm);
                            assert(taken + (seq![algorithm@] + AlgorithmIdentifier::spec_take_all(
                                cur@,
                            ).0) =~= taken.push(algorithm@) + AlgorithmIdentifier::spec_take_all(
                                cur@,
                            ).0);
                        }
                        algorithms.push(algorithm);
                    },
                    Err(e) => {
                        error = Some(e);
                        assert(taken + Seq::<AlgorithmIdentifierView>::empty() =~= taken);
                    },
                },
            }
        }
        proof {
            if error is None {
                assert(views(algorithms@) + Seq::<AlgorithmIdentifierView>::empty() =~= views(
                    algorithms@,
                ));
            }
        }
        AlgorithmIdentifierSet { algorithms, error }
    }

    /// This value as text: the algorithm in dotted decimal notation and the
    /// parameters as a list of bytes.
    pub fn to_string(&self) -> (s: String)
        ensures
            s@ == self@.to_string(),
    {
        let mut s = String::from_str("AlgorithmIdentifier {\n    algorithm: ");
        let algorithm = self.algorithm.to_string();
        s.append(algorithm.as_str());
        s.append(",\n    parameters: ");
        push_optional_byte_list(&mut s, &self.parameters);
        s.append("\n  }");
        assert(s@ =~= self@.to_string());
        s
    }
}

} // verus!
