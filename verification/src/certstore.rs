//! Trust anchor stores: the built-in public roots, or the certificates of
//! one certificate authority file.

use vstd::prelude::*;
use crate::certificates::{
    certificate_label, certificates_from_blocks, certificates_in, file_blocks,
    lemma_other_blocks_give_no_certificate, Certificate,
};
use crate::pem::PemDecoder;
use crate::{EasyTlsError, Failure};

verus! {

/// The error type of the `webpki` crate.
#[verifier::external_type_specification]
#[verifier::external_body]
pub struct ExWebpkiError(tokio_rustls::webpki::Error);

/// What chain validation needs of a trusted certificate.
#[derive(Debug)]
pub struct TrustAnchor {
    /// The certificate's `subject` field.
    pub subject: Vec<u8>,
    /// The certificate's `subjectPublicKeyInfo` field.
    pub spki: Vec<u8>,
    /// The DER-encoded name constraints, if the certificate has any.
    pub name_constraints: Option<Vec<u8>>,
}

/// The mathematical value of a [`TrustAnchor`].
pub struct AnchorView {
    pub subject: Seq<u8>,
    pub spki: Seq<u8>,
    pub name_constraints: Option<Seq<u8>>,
}

impl View for TrustAnchor {
    type V = AnchorView;

    open spec fn view(&self) -> AnchorView {
        AnchorView {
            subject: self.subject@,
            spki: self.spki@,
            name_constraints: match self.name_constraints {
                Some(bytes) => Some(bytes@),
                None => None,
            },
        }
    }
}

/// The values of a sequence of trust anchors.
pub open spec fn anchor_views(anchors: Seq<TrustAnchor>) -> Seq<AnchorView> {
    anchors.map_values(|anchor: TrustAnchor| anchor@)
}

/// What `webpki::TrustAnchor::try_from_cert_der` makes of a DER-encoded
/// certificate: its subject, public key info and name constraints, or
/// `None` where it reports an error.
pub uninterp spec fn trust_anchor_of(der: Seq<u8>) -> Option<AnchorView>;

/// Calls `webpki::TrustAnchor::try_from_cert_der` and copies the three
/// fields of the anchor it returns. The parser reads nothing but the bytes
/// it is given; the contract names its answer [`trust_anchor_of`].
#[verifier::external_body]
pub(crate) fn parse_trust_anchor(der: &[u8]) -> (parsed: Result<
    TrustAnchor,
    tokio_rustls::webpki::Error,
>)
    ensures
        match parsed {
            Ok(anchor) => trust_anchor_of(der@) == Some(anchor@),
            Err(_) => trust_anchor_of(der@).is_none(),
        },
{
    match tokio_rustls::webpki::TrustAnchor::try_from_cert_der(der) {
        Ok(anchor) => Ok(
            TrustAnchor {
                subject: anchor.subject.to_vec(),
                spki: anchor.spki.to_vec(),
                name_constraints: anchor.name_constraints.map(|bytes| bytes.to_vec()),
            },
        ),
        Err(error) => Err(error),
    }
}

/// The entry at position `index` of `webpki_roots::TLS_SERVER_ROOTS`, the
/// bundle of public roots that the crate is built with; `None` behind the
/// last entry.
pub uninterp spec fn public_root_at(index: nat) -> Option<AnchorView>;

/// The length of `webpki_roots::TLS_SERVER_ROOTS`. The bundle is a constant
/// list with at least one entry; [`public_root_at`] has an entry at exactly
/// the positions below its length.
#[verifier::external_body]
pub(crate) fn public_root_count() -> (count: usize)
    ensures
        count > 0,
        forall|i: nat| (i < count) == (#[trigger] public_root_at(i)).is_some(),
{
    webpki_roots::TLS_SERVER_ROOTS.0.len()
}

/// Copies the three fields of the entry at position `index` of
/// `webpki_roots::TLS_SERVER_ROOTS`, which [`public_root_at`] names.
#[verifier::external_body]
pub(crate) fn public_root(index: usize) -> (anchor: Option<TrustAnchor>)
    ensures
        match anchor {
            Some(entry) => public_root_at(index as nat) == Some(entry@),
            None => public_root_at(index as nat).is_none(),
        },
{
    webpki_roots::TLS_SERVER_ROOTS.0.get(index).map(
        |anchor| TrustAnchor {
            subject: anchor.subject.to_vec(),
            spki: anchor.spki.to_vec(),
            name_constraints: anchor.name_constraints.map(|bytes| bytes.to_vec()),
        },
    )
}

/// `anchors` are the public roots: every entry of the bundle, in the
/// bundle's order, and nothing else.
pub open spec fn are_public_roots(anchors: Seq<AnchorView>) -> bool {
    forall|i: nat|
        #[trigger] public_root_at(i) == (if i < anchors.len() {
            Some(anchors[i as int])
        } else {
            None
        })
}

/// The public roots are one fixed list: two stores of public roots hold the
/// same anchors, however often and wherever they are built.
pub proof fn lemma_public_roots_are_fixed(first: Seq<AnchorView>, second: Seq<AnchorView>)
    requires
        are_public_roots(first),
        are_public_roots(second),
    ensures
        first == second,
{
    if first.len() < second.len() {
        assert(public_root_at(first.len()).is_none());
        assert(public_root_at(first.len()).is_some());
    }
    if second.len() < first.len() {
        assert(public_root_at(second.len()).is_none());
        assert(public_root_at(second.len()).is_some());
    }
    assert forall|i: int| 0 <= i < first.len() implies first[i] == second[i] by {
        assert(public_root_at(i as nat) == Some(first[i]));
        assert(public_root_at(i as nat) == Some(second[i]));
    }
    assert(first =~= second);
}

/// Where the anchors of a store come from.
#[derive(Debug, Clone, Copy, PartialEq, Eq, Structural)]
pub enum TrustSource {
    /// The built-in bundle of public roots.
    PublicRoots,
    /// One certificate authority file.
    AuthorityFile,
}

/// A set of trust anchors. A store is never empty.
#[derive(Debug)]
pub struct TrustStore {
    anchors: Vec<TrustAnchor>,
    source: TrustSource,
}

impl TrustStore {
    /// The anchors of the store.
    pub closed spec fn anchors(&self) -> Seq<AnchorView> {
        anchor_views(self.anchors@)
    }

    /// Where the anchors come from.
    pub closed spec fn source(&self) -> TrustSource {
        self.source
    }

    /// The invariant of the type: a store holds at least one anchor.
    pub closed spec fn well_formed(&self) -> bool {
        self.anchors@.len() > 0
    }

    /// A well-formed store has anchors.
    pub proof fn lemma_never_empty(&self)
        requires
            self.well_formed(),
        ensures
            self.anchors().len() > 0,
    {
    }

    /// The number of anchors in the store.
    pub fn len(&self) -> (count: usize)
        ensures
            count == self.anchors().len(),
    {
        self.anchors.len()
    }

    /// Whether the store holds the built-in public roots.
    pub fn is_default(&self) -> (default: bool)
        ensures
            default == (self.source() == TrustSource::PublicRoots),
    {
        match self.source {
            TrustSource::PublicRoots => true,
            TrustSource::AuthorityFile => false,
        }
    }

    /// The anchor at position `index`, if the store has that many.
    pub fn anchor(&self, index: usize) -> (anchor: Option<&TrustAnchor>)
        ensures
            match anchor {
                Some(found) => index < self.anchors().len() && found@
                    == self.anchors()[index as int],
                None => index >= self.anchors().len(),
            },
    {
        if index < self.anchors.len() {
            Some(&self.anchors[index])
        } else {
            None
        }
    }
}

/// How the certificates `ders` of an authority file and the outcome of
/// turning them into anchors belong together: every certificate becomes one
/// anchor, in order; a file without certificates is refused; and so is the
/// first certificate that is no usable X.509 certificate.
pub open spec fn anchors_outcome(
    ders: Seq<Seq<u8>>,
    outcome: Result<Seq<AnchorView>, Failure>,
) -> bool {
    match outcome {
        Ok(anchors) => {
            &&& ders.len() > 0
            &&& anchors.len() == ders.len()
            &&& forall|i: int|
                0 <= i < ders.len() ==> trust_anchor_of(#[trigger] ders[i]) == Some(anchors[i])
        },
        Err(Failure::EmptyTrustStore) => ders.len() == 0,
        Err(Failure::InvalidCertificate { index }) => {
            &&& index < ders.len()
            &&& trust_anchor_of(ders[index as int]).is_none()
            &&& forall|i: int| 0 <= i < index ==> trust_anchor_of(#[trigger] ders[i]).is_some()
        },
        Err(_) => false,
    }
}

/// The certificates of a file allow one outcome only.
pub proof fn lemma_outcome_is_determined(
    ders: Seq<Seq<u8>>,
    first: Result<Seq<AnchorView>, Failure>,
    second: Result<Seq<AnchorView>, Failure>,
)
    requires
        anchors_outcome(ders, first),
        anchors_outcome(ders, second),
    ensures
        first == second,
{
    match (first, second) {
        (Ok(a), Ok(b)) => {
            assert forall|i: int| 0 <= i < a.len() implies a[i] == b[i] by {
                assert(trust_anchor_of(ders[i]) == Some(a[i]));
                assert(trust_anchor_of(ders[i]) == Some(b[i]));
            }
            assert(a =~= b);
        },
        (Ok(a), Err(Failure::InvalidCertificate { index })) => {
            assert(trust_anchor_of(ders[index as int]) == Some(a[index as int]));
        },
        (Err(Failure::InvalidCertificate { index }), Ok(b)) => {
            assert(trust_anchor_of(ders[index as int]) == Some(b[index as int]));
        },
        (
            Err(Failure::InvalidCertificate { index: i }),
            Err(Failure::InvalidCertificate { index: j }),
        ) => {
            if i < j {
                assert(trust_anchor_of(ders[i as int]).is_some());
            }
            if j < i {
                assert(trust_anchor_of(ders[j as int]).is_some());
            }
        },
        _ => {},
    }
}

/// An authority file that decodes but holds no `CERTIFICATE` block gives
/// no store: the one outcome is the error that says the store would be
/// empty.
pub proof fn lemma_file_without_certificates_is_refused(
    text: Seq<u8>,
    outcome: Result<Seq<AnchorView>, Failure>,
)
    requires
        file_blocks(text) matches Ok(blocks) && anchors_outcome(certificates_in(blocks), outcome)
            && forall|i: int|
            0 <= i < blocks.len() ==> (#[trigger] blocks[i]).label != certificate_label(),
    ensures
        outcome == Err::<Seq<AnchorView>, Failure>(Failure::EmptyTrustStore),
{
    match file_blocks(text) {
        Ok(blocks) => {
            lemma_other_blocks_give_no_certificate(blocks);
        },
        Err(_) => {},
    }
}

/// The outcome of a store operation, as a mathematical value.
pub open spec fn store_outcome(result: Result<TrustStore, EasyTlsError>) -> Result<
    Seq<AnchorView>,
    Failure,
> {
    match result {
        Ok(store) => Ok(store.anchors()),
        Err(error) => Err(error@),
    }
}

/// Takes the answer of the certificate parser for the certificate at
/// `index`: the anchor, or the error that names the certificate.
pub fn anchor_or_error(
    parsed: Result<TrustAnchor, tokio_rustls::webpki::Error>,
    index: usize,
) -> (result: Result<TrustAnchor, EasyTlsError>)
    ensures
        match parsed {
            Ok(anchor) => result == Ok::<TrustAnchor, EasyTlsError>(anchor),
            Err(_) => result matches Err(error) && error@ == (Failure::InvalidCertificate {
                index: index as nat,
            }),
        },
{
    match parsed {
        Ok(anchor) => Ok(anchor),
        Err(_) => Err(EasyTlsError::InvalidCertificate { index }),
    }
}

/// Builds a store from the certificates of an authority file, and from
/// nothing else.
pub fn store_from_certificates(chain: &Vec<Certificate>) -> (result: Result<
    TrustStore,
    EasyTlsError,
>)
    ensures
        anchors_outcome(crate::certificates::certificate_views(chain@), store_outcome(result)),
        result matches Ok(store) ==> store.well_formed() && store.source()
            == TrustSource::AuthorityFile,
{
    let ghost ders = crate::certificates::certificate_views(chain@);
    if chain.len() == 0 {
        return Err(EasyTlsError::EmptyTrustStore);
    }
    let mut anchors: Vec<TrustAnchor> = Vec::new();
    let mut i: usize = 0;
    while i < chain.len()
        invariant
            i <= chain@.len(),
            ders == crate::certificates::certificate_views(chain@),
            anchors@.len() == i,
            forall|k: int|
                0 <= k < i ==> trust_anchor_of(#[trigger] ders[k]) == Some(
                    anchor_views(anchors@)[k],
                ),
        decreases chain@.len() - i,
    {
        assert(ders[i as int] == chain@[i as int].der@);
        let anchor = match anchor_or_error(parse_trust_anchor(chain[i].der.as_slice()), i) {
            Ok(anchor) => anchor,
            Err(error) => {
                return Err(error);
            },
        };
        let ghost before = anchor_views(anchors@);
        anchors.push(anchor);
        assert(anchor_views(anchors@) =~= before.push(anchor@));
        i += 1;
    }
    Ok(TrustStore { anchors, source: TrustSource::AuthorityFile })
}

/// The store of built-in public roots.
pub fn get_default_store() -> (store: TrustStore)
    ensures
        store.well_formed(),
        store.anchors().len() > 0,
        are_public_roots(store.anchors()),
        store.source() == TrustSource::PublicRoots,
{
    let count = public_root_count();
    let mut anchors: Vec<TrustAnchor> = Vec::new();
    let mut i: usize = 0;
    while i < count
        invariant
            i <= count,
            anchors@.len() == i,
            forall|k: nat| (k < count) == (#[trigger] public_root_at(k)).is_some(),
            forall|k: int|
                0 <= k < i ==> public_root_at(k as nat) == Some(
                    #[trigger] anchor_views(anchors@)[k],
                ),
        decreases count - i,
    {
        assert(public_root_at(i as nat).is_some());
        let ghost before = anchor_views(anchors@);
        match public_root(i) {
            Some(anchor) => {
                anchors.push(anchor);
                assert(anchor_views(anchors@) =~= before.push(anchor@));
            },
            None => {},
        }
        i += 1;
    }
    let store = TrustStore { anchors, source: TrustSource::PublicRoots };
    assert forall|k: nat|
        #[trigger] public_root_at(k) == (if k < store.anchors().len() {
            Some(store.anchors()[k as int])
        } else {
            None
        }) by {
        if k < count {
            assert(public_root_at(k as nat) == Some(anchor_views(store.anchors@)[k as int]));
        } else {
            assert(!public_root_at(k).is_some());
        }
    }
    store
}

/// Loads the root certificate store. Without an authority file it is the
/// built-in bundle of public roots. With the text of one it holds exactly
/// the certificates of that file, and the file must hold at least one.
pub fn get_root_store(cafile: Option<&[u8]>) -> (result: Result<TrustStore, EasyTlsError>)
    ensures
        result matches Ok(store) ==> store.well_formed() && store.anchors().len() > 0,
        match cafile {
            None => result matches Ok(store) && store.source() == TrustSource::PublicRoots
                && are_public_roots(store.anchors()),
            Some(text) => match file_blocks(text@) {
                Ok(blocks) => anchors_outcome(certificates_in(blocks), store_outcome(result)) && (
                result matches Ok(store) ==> store.source() == TrustSource::AuthorityFile),
                Err(failure) => result matches Err(error) && error@ == failure,
            },
        },
{
    match cafile {
        None => Ok(get_default_store()),
        Some(text) => get_cafile_store(text),
    }
}

/// Builds the store of one certificate authority file from its text: one
/// anchor for every `CERTIFICATE` block, in file order, and none of the
/// public roots.
pub fn get_cafile_store(text: &[u8]) -> (result: Result<TrustStore, EasyTlsError>)
    ensures
        result matches Ok(store) ==> store.well_formed() && store.anchors().len() > 0
            && store.source() == TrustSource::AuthorityFile,
        match file_blocks(text@) {
            Ok(blocks) => anchors_outcome(certificates_in(blocks), store_outcome(result)),
            Err(failure) => result matches Err(error) && error@ == failure,
        },
{
    let blocks = match PemDecoder::new().decode(text) {
        Ok(blocks) => blocks,
        Err(error) => {
            return Err(error);
        },
    };
    let chain = certificates_from_blocks(&blocks);
    store_from_certificates(&chain)
}

} // verus!
