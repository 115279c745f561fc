//! Certificate chains and private keys, taken out of PEM text.

use vstd::prelude::*;
use vstd::slice::slice_to_vec;
use crate::pem::{
    bounded_pem_blocks, bytes_equal, lines_from, BlockView, PemBlock, PemDecoder, MAX_PEM_SIZE,
};
use crate::pem_theory::{
    decoded_document, document_lines, free_text, lemma_valid_file_yields_every_block, valid_block,
    BlockSource,
};
use crate::{EasyTlsError, Failure};

verus! {

/// One X.509 certificate in DER form.
#[derive(Debug)]
pub struct Certificate {
    pub der: Vec<u8>,
}

/// The format of a private key, as the PEM label tells it.
#[derive(Debug, Clone, Copy, PartialEq, Eq, Structural)]
pub enum KeyKind {
    /// A `PRIVATE KEY` block: PKCS#8.
    Pkcs8,
    /// An `RSA PRIVATE KEY` block: PKCS#1.
    Rsa,
}

/// A private key in DER form. It has no printable form on purpose.
pub struct PrivateKey {
    pub der: Vec<u8>,
    pub kind: KeyKind,
}

impl View for Certificate {
    type V = Seq<u8>;

    open spec fn view(&self) -> Seq<u8> {
        self.der@
    }
}

impl View for PrivateKey {
    type V = (Seq<u8>, KeyKind);

    open spec fn view(&self) -> (Seq<u8>, KeyKind) {
        (self.der@, self.kind)
    }
}

/// The bytes of `CERTIFICATE`.
pub open spec fn certificate_label() -> Seq<u8> {
    seq![67u8, 69u8, 82u8, 84u8, 73u8, 70u8, 73u8, 67u8, 65u8, 84u8, 69u8]
}

/// The bytes of `PRIVATE KEY`.
pub open spec fn pkcs8_key_label() -> Seq<u8> {
    seq![80u8, 82u8, 73u8, 86u8, 65u8, 84u8, 69u8, 32u8, 75u8, 69u8, 89u8]
}

/// The bytes of `RSA PRIVATE KEY`.
pub open spec fn rsa_key_label() -> Seq<u8> {
    seq![82u8, 83u8, 65u8, 32u8, 80u8, 82u8, 73u8, 86u8, 65u8, 84u8, 69u8, 32u8, 75u8, 69u8, 89u8]
}

/// The certificate that a block holds, if it is a `CERTIFICATE` block.
pub open spec fn certificate_of(block: BlockView) -> Option<Seq<u8>> {
    if block.label == certificate_label() {
        Some(block.payload)
    } else {
        None
    }
}

/// The private key that a block holds, if its label is one of the two
/// private key labels.
pub open spec fn private_key_of(block: BlockView) -> Option<(Seq<u8>, KeyKind)> {
    if block.label == pkcs8_key_label() {
        Some((block.payload, KeyKind::Pkcs8))
    } else if block.label == rsa_key_label() {
        Some((block.payload, KeyKind::Rsa))
    } else {
        None
    }
}

/// The certificates among `blocks`, in order.
pub open spec fn certificates_in(blocks: Seq<BlockView>) -> Seq<Seq<u8>> {
    blocks.filter_map(|block: BlockView| certificate_of(block))
}

/// The private keys among `blocks`, in order.
pub open spec fn private_keys_in(blocks: Seq<BlockView>) -> Seq<(Seq<u8>, KeyKind)> {
    blocks.filter_map(|block: BlockView| private_key_of(block))
}

/// The payloads of `blocks`, in order.
pub open spec fn payloads_in(blocks: Seq<BlockView>) -> Seq<Seq<u8>> {
    blocks.map_values(|block: BlockView| block.payload)
}

/// The values of a sequence of byte vectors.
pub open spec fn byte_views(items: Seq<Vec<u8>>) -> Seq<Seq<u8>> {
    items.map_values(|item: Vec<u8>| item@)
}

/// The values of a sequence of certificates.
pub open spec fn certificate_views(items: Seq<Certificate>) -> Seq<Seq<u8>> {
    items.map_values(|item: Certificate| item@)
}

/// The values of a sequence of private keys.
pub open spec fn key_views(items: Seq<PrivateKey>) -> Seq<(Seq<u8>, KeyKind)> {
    items.map_values(|item: PrivateKey| item@)
}

/// The text of a file as the loaders see it: its blocks under the default
/// size limit.
pub open spec fn file_blocks(text: Seq<u8>) -> Result<Seq<BlockView>, Failure> {
    bounded_pem_blocks(text, MAX_PEM_SIZE as nat)
}

/// Where every block is a `CERTIFICATE` block, every block gives one
/// certificate: as many certificates as blocks, in the order of the blocks.
pub proof fn lemma_every_certificate_block_is_kept(blocks: Seq<BlockView>)
    requires
        forall|i: int| 0 <= i < blocks.len() ==> (#[trigger] blocks[i]).label == certificate_label(),
    ensures
        certificates_in(blocks) == payloads_in(blocks),
        certificates_in(blocks).len() == blocks.len(),
    decreases blocks.len(),
{
    if blocks.len() == 0 {
        assert(certificates_in(blocks) =~= payloads_in(blocks));
    } else {
        let rest = blocks.drop_last();
        assert forall|i: int| 0 <= i < rest.len() implies (#[trigger] rest[i]).label
            == certificate_label() by {
            assert(rest[i] == blocks[i]);
        }
        lemma_every_certificate_block_is_kept(rest);
        assert(certificate_of(blocks.last()) == Some(blocks.last().payload));
        assert(payloads_in(blocks) =~= payloads_in(rest) + seq![blocks.last().payload]);
    }
}

/// A file within the size limit that holds N valid `CERTIFICATE` blocks
/// gives a chain of exactly N certificates, in file order: the decoded
/// bodies of the blocks.
pub proof fn lemma_certificate_file_gives_its_chain(
    text: Seq<u8>,
    doc: Seq<BlockSource>,
    trailer: Seq<Seq<u8>>,
)
    requires
        text.len() <= MAX_PEM_SIZE,
        lines_from(text, 0) == document_lines(doc) + trailer,
        forall|i: int| 0 <= i < doc.len() ==> valid_block(#[trigger] doc[i]),
        forall|i: int| 0 <= i < doc.len() ==> (#[trigger] doc[i]).label == certificate_label(),
        free_text(trailer),
    ensures
        file_blocks(text) == Ok::<Seq<BlockView>, Failure>(decoded_document(doc)),
        certificates_in(decoded_document(doc)) == payloads_in(decoded_document(doc)),
        certificates_in(decoded_document(doc)).len() == doc.len(),
{
    lemma_valid_file_yields_every_block(text, doc, trailer);
    assert(file_blocks(text) == bounded_pem_blocks(text, MAX_PEM_SIZE as nat));
    lemma_every_certificate_block_is_kept(decoded_document(doc));
}

/// Blocks under other labels give no certificate.
pub proof fn lemma_other_blocks_give_no_certificate(blocks: Seq<BlockView>)
    requires
        forall|i: int| 0 <= i < blocks.len() ==> (#[trigger] blocks[i]).label != certificate_label(),
    ensures
        certificates_in(blocks).len() == 0,
    decreases blocks.len(),
{
    if blocks.len() > 0 {
        let rest = blocks.drop_last();
        assert forall|i: int| 0 <= i < rest.len() implies (#[trigger] rest[i]).label
            != certificate_label() by {
            assert(rest[i] == blocks[i]);
        }
        lemma_other_blocks_give_no_certificate(rest);
        assert(certificate_of(blocks.last()).is_none());
    }
}

/// Blocks under labels other than the two private key labels give no key:
/// a file of such blocks is a key file without a key.
pub proof fn lemma_other_blocks_give_no_key(blocks: Seq<BlockView>)
    requires
        forall|i: int|
            0 <= i < blocks.len() ==> (#[trigger] blocks[i]).label != pkcs8_key_label()
                && blocks[i].label != rsa_key_label(),
    ensures
        private_keys_in(blocks).len() == 0,
    decreases blocks.len(),
{
    if blocks.len() > 0 {
        let rest = blocks.drop_last();
        assert forall|i: int| 0 <= i < rest.len() implies (#[trigger] rest[i]).label
            != pkcs8_key_label() && rest[i].label != rsa_key_label() by {
            assert(rest[i] == blocks[i]);
        }
        lemma_other_blocks_give_no_key(rest);
        assert(private_key_of(blocks.last()).is_none());
    }
}

fn certificate_marker() -> (label: Vec<u8>)
    ensures
        label@ == certificate_label(),
{
    let label: Vec<u8> = vec![67u8, 69u8, 82u8, 84u8, 73u8, 70u8, 73u8, 67u8, 65u8, 84u8, 69u8];
    assert(label@ =~= certificate_label());
    label
}

fn pkcs8_key_marker() -> (label: Vec<u8>)
    ensures
        label@ == pkcs8_key_label(),
{
    let label: Vec<u8> = vec![80u8, 82u8, 73u8, 86u8, 65u8, 84u8, 69u8, 32u8, 75u8, 69u8, 89u8];
    assert(label@ =~= pkcs8_key_label());
    label
}

fn rsa_key_marker() -> (label: Vec<u8>)
    ensures
        label@ == rsa_key_label(),
{
    let label: Vec<u8> = vec![
        82u8,
        83u8,
        65u8,
        32u8,
        80u8,
        82u8,
        73u8,
        86u8,
        65u8,
        84u8,
        69u8,
        32u8,
        75u8,
        69u8,
        89u8,
    ];
    assert(label@ =~= rsa_key_label());
    label
}

/// The certificates among decoded blocks, in order.
pub fn certificates_from_blocks(blocks: &Vec<PemBlock>) -> (chain: Vec<Certificate>)
    ensures
        certificate_views(chain@) == certificates_in(crate::pem::block_views(blocks@)),
{
    let marker = certificate_marker();
    let ghost views = crate::pem::block_views(blocks@);
    let ghost pick = |block: BlockView| certificate_of(block);
    let mut chain: Vec<Certificate> = Vec::new();
    let mut i: usize = 0;
    assert(certificate_views(chain@) =~= views.take(0).filter_map(pick));
    while i < blocks.len()
        invariant
            i <= blocks@.len(),
            marker@ == certificate_label(),
            views == crate::pem::block_views(blocks@),
            pick == |block: BlockView| certificate_of(block),
            certificate_views(chain@) == views.take(i as int).filter_map(pick),
        decreases blocks@.len() - i,
    {
        proof {
            views.lemma_filter_map_take_succ(pick, i as int);
        }
        let block = &blocks[i];
        assert(block@ == views[i as int]);
        if bytes_equal(block.label.as_slice(), marker.as_slice()) {
            let ghost before = certificate_views(chain@);
            let certificate = Certificate { der: slice_to_vec(block.payload.as_slice()) };
            chain.push(certificate);
            assert(certificate_views(chain@) =~= before + seq![certificate@]);
        }
        i += 1;
    }
    assert(views.take(i as int) =~= views);
    chain
}

/// The private keys among decoded blocks, in order.
pub fn keys_from_blocks(blocks: &Vec<PemBlock>) -> (keys: Vec<PrivateKey>)
    ensures
        key_views(keys@) == private_keys_in(crate::pem::block_views(blocks@)),
{
    let pkcs8 = pkcs8_key_marker();
    let rsa = rsa_key_marker();
    let ghost views = crate::pem::block_views(blocks@);
    let ghost pick = |block: BlockView| private_key_of(block);
    let mut keys: Vec<PrivateKey> = Vec::new();
    let mut i: usize = 0;
    assert(key_views(keys@) =~= views.take(0).filter_map(pick));
    while i < blocks.len()
        invariant
            i <= blocks@.len(),
            pkcs8@ == pkcs8_key_label(),
            rsa@ == rsa_key_label(),
            views == crate::pem::block_views(blocks@),
            pick == |block: BlockView| private_key_of(block),
            key_views(keys@) == views.take(i as int).filter_map(pick),
        decreases blocks@.len() - i,
    {
        proof {
            views.lemma_filter_map_take_succ(pick, i as int);
        }
        let block = &blocks[i];
        assert(block@ == views[i as int]);
        let ghost before = key_views(keys@);
        if bytes_equal(block.label.as_slice(), pkcs8.as_slice()) {
            let key = PrivateKey {
                der: slice_to_vec(block.payload.as_slice()),
                kind: KeyKind::Pkcs8,
            };
            keys.push(key);
            assert(key_views(keys@) =~= before + seq![key@]);
        } else if bytes_equal(block.label.as_slice(), rsa.as_slice()) {
            let key = PrivateKey { der: slice_to_vec(block.payload.as_slice()), kind: KeyKind::Rsa };
            keys.push(key);
            assert(key_views(keys@) =~= before + seq![key@]);
        }
        i += 1;
    }
    assert(views.take(i as int) =~= views);
    keys
}

/// Decodes PEM text and returns the payload of every block, in file order.
pub fn read_pem(text: &[u8]) -> (result: Result<Vec<Vec<u8>>, EasyTlsError>)
    ensures
        match file_blocks(text@) {
            Ok(blocks) => result matches Ok(payloads) && byte_views(payloads@) == payloads_in(
                blocks,
            ),
            Err(failure) => result matches Err(error) && error@ == failure,
        },
{
    let blocks = match PemDecoder::new().decode(text) {
        Ok(blocks) => blocks,
        Err(error) => {
            return Err(error);
        },
    };
    let ghost views = crate::pem::block_views(blocks@);
    let mut payloads: Vec<Vec<u8>> = Vec::new();
    let mut i: usize = 0;
    while i < blocks.len()
        invariant
            i <= blocks@.len(),
            views == crate::pem::block_views(blocks@),
            byte_views(payloads@) == payloads_in(views.take(i as int)),
        decreases blocks@.len() - i,
    {
        let payload = slice_to_vec(blocks[i].payload.as_slice());
        let ghost before = byte_views(payloads@);
        payloads.push(payload);
        assert(byte_views(payloads@) =~= before.push(payload@));
        assert(views.take(i + 1) =~= views.take(i as int).push(views[i as int]));
        assert(payloads_in(views.take(i + 1)) =~= payloads_in(views.take(i as int)).push(
            views[i as int].payload,
        ));
        i += 1;
    }
    assert(views.take(i as int) =~= views);
    Ok(payloads)
}

/// Loads a certificate chain from the text of a file: every `CERTIFICATE`
/// block, in file order, leaf first.
pub fn load_certificates(text: &[u8]) -> (result: Result<Vec<Certificate>, EasyTlsError>)
    ensures
        match file_blocks(text@) {
            Ok(blocks) => result matches Ok(chain) && certificate_views(chain@)
                == certificates_in(blocks),
            Err(failure) => result matches Err(error) && error@ == failure,
        },
{
    match PemDecoder::new().decode(text) {
        Ok(blocks) => Ok(certificates_from_blocks(&blocks)),
        Err(error) => Err(error),
    }
}

/// Loads every private key from the text of a file, in file order. A file
/// without any private key block is an error: a key file must hold a key.
pub fn load_keys(text: &[u8]) -> (result: Result<Vec<PrivateKey>, EasyTlsError>)
    ensures
        match file_blocks(text@) {
            Ok(blocks) => if private_keys_in(blocks).len() == 0 {
                result matches Err(error) && error@ == Failure::NoPrivateKey
            } else {
                result matches Ok(keys) && key_views(keys@) == private_keys_in(blocks)
            },
            Err(failure) => result matches Err(error) && error@ == failure,
        },
{
    match PemDecoder::new().decode(text) {
        Ok(blocks) => {
            let keys = keys_from_blocks(&blocks);
            assert(keys@.len() == key_views(keys@).len());
            if keys.len() == 0 {
                Err(EasyTlsError::NoPrivateKey)
            } else {
                Ok(keys)
            }
        },
        Err(error) => Err(error),
    }
}

/// The first of `keys`; the others are dropped.
pub fn first_key(keys: Vec<PrivateKey>) -> (result: Result<PrivateKey, EasyTlsError>)
    ensures
        match result {
            Ok(key) => keys@.len() > 0 && key == keys@[0],
            Err(error) => keys@.len() == 0 && error@ == Failure::NoPrivateKey,
        },
{
    let mut keys = keys;
    if keys.len() == 0 {
        return Err(EasyTlsError::NoPrivateKey);
    }
    Ok(keys.swap_remove(0))
}

/// Loads the private key of a server from the text of a file: the first
/// private key block. A file without one is an error.
pub fn load_private_key(text: &[u8]) -> (result: Result<PrivateKey, EasyTlsError>)
    ensures
        match file_blocks(text@) {
            Ok(blocks) => if private_keys_in(blocks).len() == 0 {
                result matches Err(error) && error@ == Failure::NoPrivateKey
            } else {
                result matches Ok(key) && key@ == private_keys_in(blocks)[0]
            },
            Err(failure) => result matches Err(error) && error@ == failure,
        },
{
    match load_keys(text) {
        Ok(keys) => {
            assert(keys@.len() == key_views(keys@).len());
            assert(keys@.len() > 0 ==> key_views(keys@)[0] == keys@[0]@);
            first_key(keys)
        },
        Err(error) => Err(error),
    }
}

} // verus!
