//! PEM text decoding: a line-oriented scanner over the bytes of a file.
//!
//! A block opens with a line `-----BEGIN <label>-----` and closes with the
//! next line `-----END <label>-----`. The lines in between, joined without
//! their line breaks, are the block's base64 body.

use vstd::prelude::*;
use vstd::slice::{slice_subrange, slice_to_vec};
use crate::encoding::{base64_decode, base64_decoding};
use crate::{EasyTlsError, Failure};

verus! {

/// The default limit on the size of a PEM input, in bytes.
pub const MAX_PEM_SIZE: usize = 32768;

/// A labelled binary object taken out of PEM text.
#[derive(Debug)]
pub struct PemBlock {
    /// The text between `BEGIN ` and the closing dashes, as ASCII bytes.
    pub label: Vec<u8>,
    /// The decoded body.
    pub payload: Vec<u8>,
}

/// The mathematical value of a [`PemBlock`].
pub struct BlockView {
    pub label: Seq<u8>,
    pub payload: Seq<u8>,
}

impl View for PemBlock {
    type V = BlockView;

    open spec fn view(&self) -> BlockView {
        BlockView { label: self.label@, payload: self.payload@ }
    }
}

/// The values of a sequence of blocks, in order.
pub open spec fn block_views(blocks: Seq<PemBlock>) -> Seq<BlockView> {
    blocks.map_values(|b: PemBlock| b@)
}

/// The bytes of `-----BEGIN `.
pub open spec fn begin_prefix() -> Seq<u8> {
    seq![45u8, 45u8, 45u8, 45u8, 45u8, 66u8, 69u8, 71u8, 73u8, 78u8, 32u8]
}

/// The bytes of `-----END `.
pub open spec fn end_prefix() -> Seq<u8> {
    seq![45u8, 45u8, 45u8, 45u8, 45u8, 69u8, 78u8, 68u8, 32u8]
}

/// The five dashes that close a marker line.
pub open spec fn dashes() -> Seq<u8> {
    seq![45u8, 45u8, 45u8, 45u8, 45u8]
}

/// The label of a marker line: `line` is `prefix`, a non-empty label and
/// five dashes. `None` for any other line.
pub open spec fn framed_label(line: Seq<u8>, prefix: Seq<u8>) -> Option<Seq<u8>> {
    if line.len() > prefix.len() + 5
        && line.subrange(0, prefix.len() as int) == prefix
        && line.subrange(line.len() - 5, line.len() as int) == dashes() {
        Some(line.subrange(prefix.len() as int, line.len() - 5))
    } else {
        None
    }
}

/// A line without the carriage return that may end it.
pub open spec fn strip_cr(line: Seq<u8>) -> Seq<u8> {
    if line.len() > 0 && line.last() == 13u8 {
        line.drop_last()
    } else {
        line
    }
}

/// The number of bytes from `from` up to the next line feed or the end of
/// the text.
pub open spec fn line_len(text: Seq<u8>, from: int) -> nat
    decreases text.len() - from,
{
    if from < 0 || from >= text.len() || text[from] == 10u8 {
        0
    } else {
        1 + line_len(text, from + 1)
    }
}

/// The lines of `text` from position `pos` on, each without its line break.
/// A line feed at the very end opens no further line.
pub open spec fn lines_from(text: Seq<u8>, pos: int) -> Seq<Seq<u8>>
    decreases text.len() - pos,
{
    if pos < 0 || pos >= text.len() {
        Seq::empty()
    } else {
        let end = pos + line_len(text, pos);
        let first = seq![strip_cr(text.subrange(pos, end))];
        if end >= text.len() {
            first
        } else {
            first + lines_from(text, end + 1)
        }
    }
}

/// The scanner's state between two lines.
pub enum ScanState {
    /// Not inside a block.
    Outside,
    /// After a `BEGIN` line with this label; `body` holds the lines since.
    InBody { label: Seq<u8>, body: Seq<u8> },
}

/// One step of the scanner: what the line `line` makes of the state `state`
/// and of the blocks `found` so far.
///
/// Outside a block every line but a `BEGIN` line is skipped. Inside a block
/// every line but an `END` line joins the body. An `END` line whose label
/// differs from the opening one is a fault, and so is a body that does not
/// decode; otherwise the `END` line adds the block to those found.
pub open spec fn step(state: ScanState, found: Seq<BlockView>, line: Seq<u8>) -> Result<
    (ScanState, Seq<BlockView>),
    Failure,
> {
    match state {
        ScanState::Outside => match framed_label(line, begin_prefix()) {
            Some(label) => Ok((ScanState::InBody { label, body: Seq::empty() }, found)),
            None => Ok((ScanState::Outside, found)),
        },
        ScanState::InBody { label, body } => match framed_label(line, end_prefix()) {
            Some(end) => if end != label {
                Err(Failure::LabelMismatch { index: found.len(), begin: label, end })
            } else {
                match base64_decoding(body) {
                    Some(payload) => Ok(
                        (ScanState::Outside, found.push(BlockView { label, payload })),
                    ),
                    None => Err(Failure::InvalidBody { index: found.len() }),
                }
            },
            None => Ok((ScanState::InBody { label, body: body + line }, found)),
        },
    }
}

/// What a run of the scanner comes to: the blocks it found, and the state
/// in which the lines ran out, or the fault that stopped it.
pub struct ScanOutcome {
    pub blocks: Seq<BlockView>,
    pub end: Result<ScanState, Failure>,
}

/// Runs the scanner over `lines`, starting in `state` with the blocks
/// `found` so far, up to the end of the lines or the first fault.
pub open spec fn run(lines: Seq<Seq<u8>>, state: ScanState, found: Seq<BlockView>) -> ScanOutcome
    decreases lines.len(),
{
    if lines.len() == 0 {
        ScanOutcome { blocks: found, end: Ok(state) }
    } else {
        match step(state, found, lines[0]) {
            Ok((next, blocks)) => run(lines.drop_first(), next, blocks),
            Err(failure) => ScanOutcome { blocks: found, end: Err(failure) },
        }
    }
}

/// The blocks that the scanner finds in `lines`, or the first fault. A
/// block that is still open when the lines end yields nothing.
pub open spec fn scan(lines: Seq<Seq<u8>>, state: ScanState, found: Seq<BlockView>) -> Result<
    Seq<BlockView>,
    Failure,
> {
    match run(lines, state, found).end {
        Ok(_) => Ok(run(lines, state, found).blocks),
        Err(failure) => Err(failure),
    }
}

/// What a single pass over `text` yields: its blocks in file order up to
/// the first fault, and that fault if there is one.
pub open spec fn pem_outcome(text: Seq<u8>) -> ScanOutcome {
    run(lines_from(text, 0), ScanState::Outside, Seq::empty())
}

/// A run never loses a block: the blocks it starts with open the blocks it
/// ends with.
pub proof fn lemma_run_keeps_found(lines: Seq<Seq<u8>>, state: ScanState, found: Seq<BlockView>)
    ensures
        run(lines, state, found).blocks.len() >= found.len(),
        run(lines, state, found).blocks.take(found.len() as int) == found,
    decreases lines.len(),
{
    let all = run(lines, state, found).blocks;
    if lines.len() == 0 {
        assert(all.take(found.len() as int) =~= found);
    } else {
        match step(state, found, lines[0]) {
            Ok((next, blocks)) => {
                lemma_run_keeps_found(lines.drop_first(), next, blocks);
                assert(blocks.len() >= found.len());
                assert(blocks.take(found.len() as int) =~= found);
                assert(all.take(found.len() as int) =~= all.take(blocks.len() as int).take(
                    found.len() as int,
                ));
            },
            Err(_) => {
                assert(all.take(found.len() as int) =~= found);
            },
        }
    }
}

/// The blocks of a PEM text, in file order, or the first fault in it.
pub open spec fn pem_blocks(text: Seq<u8>) -> Result<Seq<BlockView>, Failure> {
    scan(lines_from(text, 0), ScanState::Outside, Seq::empty())
}

/// What a decoder with the size limit `limit` makes of `text`.
pub open spec fn bounded_pem_blocks(text: Seq<u8>, limit: nat) -> Result<Seq<BlockView>, Failure> {
    if text.len() > limit {
        Err(Failure::OversizedInput { size: text.len(), limit })
    } else {
        pem_blocks(text)
    }
}

/// Whether an executable result is the one that the model `expected` gives.
pub open spec fn blocks_result_is(
    result: Result<Vec<PemBlock>, EasyTlsError>,
    expected: Result<Seq<BlockView>, Failure>,
) -> bool {
    match (result, expected) {
        (Ok(blocks), Ok(views)) => block_views(blocks@) == views,
        (Err(error), Err(failure)) => error@ == failure,
        _ => false,
    }
}

fn begin_marker() -> (marker: Vec<u8>)
    ensures
        marker@ == begin_prefix(),
{
    let marker: Vec<u8> = vec![45u8, 45u8, 45u8, 45u8, 45u8, 66u8, 69u8, 71u8, 73u8, 78u8, 32u8];
    assert(marker@ =~= begin_prefix());
    marker
}

fn end_marker() -> (marker: Vec<u8>)
    ensures
        marker@ == end_prefix(),
{
    let marker: Vec<u8> = vec![45u8, 45u8, 45u8, 45u8, 45u8, 69u8, 78u8, 68u8, 32u8];
    assert(marker@ =~= end_prefix());
    marker
}

/// Whether two byte strings are equal.
pub fn bytes_equal(a: &[u8], b: &[u8]) -> (same: bool)
    ensures
        same == (a@ == b@),
{
    if a.len() != b.len() {
        return false;
    }
    let mut i: usize = 0;
    while i < a.len()
        invariant
            a@.len() == b@.len(),
            i <= a@.len(),
            a@.subrange(0, i as int) == b@.subrange(0, i as int),
        decreases a@.len() - i,
    {
        if a[i] != b[i] {
            return false;
        }
        assert(a@.subrange(0, i + 1) =~= a@.subrange(0, i as int).push(a@[i as int]));
        assert(b@.subrange(0, i + 1) =~= b@.subrange(0, i as int).push(b@[i as int]));
        i += 1;
    }
    assert(a@ =~= a@.subrange(0, i as int));
    assert(b@ =~= b@.subrange(0, i as int));
    true
}

/// The label of a marker line that opens with `prefix`, if `line` is one.
fn marker_label<'a>(line: &'a [u8], prefix: &[u8]) -> (label: Option<&'a [u8]>)
    requires
        prefix@.len() <= 16,
    ensures
        match label {
            Some(bytes) => framed_label(line@, prefix@) == Some(bytes@),
            None => framed_label(line@, prefix@).is_none(),
        },
{
    let n: usize = line.len();
    let p: usize = prefix.len();
    if n <= p + 5 {
        return None;
    }
    if !bytes_equal(slice_subrange(line, 0, p), prefix) {
        return None;
    }
    let tail = slice_subrange(line, n - 5, n);
    if tail[0] != 45u8 || tail[1] != 45u8 || tail[2] != 45u8 || tail[3] != 45u8 || tail[4]
        != 45u8 {
        return None;
    }
    assert(tail@ =~= dashes());
    Some(slice_subrange(line, p, n - 5))
}

/// The position of the next line feed at or after `from`, or the length of
/// the text.
fn find_line_end(text: &[u8], from: usize) -> (end: usize)
    requires
        from <= text@.len(),
    ensures
        end == from + line_len(text@, from as int),
        from <= end <= text@.len(),
{
    let mut end: usize = from;
    while end < text.len() && text[end] != 10u8
        invariant
            from <= end <= text@.len(),
            from + line_len(text@, from as int) == end + line_len(text@, end as int),
        decreases text@.len() - end,
    {
        end += 1;
    }
    end
}

/// A decoder of PEM text with a limit on the size of its input.
#[derive(Debug)]
pub struct PemDecoder {
    limit: usize,
}

impl PemDecoder {
    /// The size limit of this decoder, in bytes.
    pub closed spec fn spec_limit(&self) -> nat {
        self.limit as nat
    }

    /// A decoder with the default limit.
    pub fn new() -> (decoder: PemDecoder)
        ensures
            decoder.spec_limit() == MAX_PEM_SIZE,
    {
        PemDecoder { limit: MAX_PEM_SIZE }
    }

    /// A decoder that accepts inputs of up to `limit` bytes.
    pub fn with_limit(limit: usize) -> (decoder: PemDecoder)
        ensures
            decoder.spec_limit() == limit,
    {
        PemDecoder { limit }
    }

    /// The size limit of this decoder, in bytes.
    pub fn limit(&self) -> (limit: usize)
        ensures
            limit == self.spec_limit(),
    {
        self.limit
    }

    /// Starts a single pass over `text`, which hands out its blocks one at
    /// a time. An input above the limit is rejected before any of it is
    /// scanned.
    pub fn blocks<'a>(&self, text: &'a [u8]) -> (result: Result<PemReader<'a>, EasyTlsError>)
        ensures
            match result {
                Ok(reader) => {
                    &&& text@.len() <= self.spec_limit()
                    &&& reader.well_formed()
                    &&& reader.spec_text() == text@
                    &&& reader.spec_index() == 0
                    &&& !reader.spec_finished()
                },
                Err(error) => text@.len() > self.spec_limit() && error@
                    == (Failure::OversizedInput {
                    size: text@.len(),
                    limit: self.spec_limit(),
                }),
            },
    {
        if text.len() > self.limit {
            return Err(EasyTlsError::OversizedInput { size: text.len(), limit: self.limit });
        }
        Ok(PemReader::new(text))
    }

    /// Decodes every block of `text`, in file order.
    ///
    /// An input above the limit is rejected whole. Otherwise the result is
    /// that of the scanner: the blocks, or the first mismatch of labels or
    /// undecodable body.
    pub fn decode(&self, text: &[u8]) -> (result: Result<Vec<PemBlock>, EasyTlsError>)
        ensures
            blocks_result_is(result, bounded_pem_blocks(text@, self.spec_limit())),
    {
        if text.len() > self.limit {
            return Err(EasyTlsError::OversizedInput { size: text.len(), limit: self.limit });
        }
        decode_pem(text)
    }
}

/// Closes the block at position `index` with the decoder's answer on its
/// body: the block, or the error that names it.
pub fn close_block(
    label: Vec<u8>,
    decoded: Result<Vec<u8>, base64::DecodeError>,
    index: usize,
) -> (result: Result<PemBlock, EasyTlsError>)
    ensures
        match decoded {
            Ok(payload) => result matches Ok(block) && block@ == (BlockView {
                label: label@,
                payload: payload@,
            }),
            Err(_) => result matches Err(error) && error@ == (Failure::InvalidBody {
                index: index as nat,
            }),
        },
{
    match decoded {
        Ok(payload) => Ok(PemBlock { label, payload }),
        Err(_) => Err(EasyTlsError::InvalidBody { index }),
    }
}

/// A single pass over PEM text that hands out one block at a time, in file
/// order. After the last block, or after the first fault, it hands out
/// nothing more; it cannot be started again.
#[derive(Debug)]
pub struct PemReader<'a> {
    text: &'a [u8],
    pos: usize,
    index: usize,
    finished: bool,
}

impl<'a> PemReader<'a> {
    /// The text that the reader passes over.
    pub closed spec fn spec_text(&self) -> Seq<u8> {
        self.text@
    }

    /// The number of blocks handed out so far.
    pub closed spec fn spec_index(&self) -> nat {
        self.index as nat
    }

    /// Whether the pass is over.
    pub closed spec fn spec_finished(&self) -> bool {
        self.finished
    }

    /// The invariant of the type: what is left to scan gives, after the
    /// blocks handed out so far, what the whole text gives.
    pub closed spec fn well_formed(&self) -> bool {
        let outcome = pem_outcome(self.text@);
        &&& self.pos <= self.text@.len()
        &&& self.index <= self.pos
        &&& self.index <= outcome.blocks.len()
        &&& !self.finished ==> outcome == run(
            lines_from(self.text@, self.pos as int),
            ScanState::Outside,
            outcome.blocks.take(self.index as int),
        )
    }

    /// A reader at the start of `text`.
    pub fn new(text: &'a [u8]) -> (reader: PemReader<'a>)
        ensures
            reader.well_formed(),
            reader.spec_text() == text@,
            reader.spec_index() == 0,
            !reader.spec_finished(),
    {
        assert(pem_outcome(text@).blocks.take(0) =~= Seq::empty());
        PemReader { text, pos: 0, index: 0, finished: false }
    }

    /// The number of blocks handed out so far.
    pub fn index(&self) -> (index: usize)
        ensures
            index == self.spec_index(),
    {
        self.index
    }

    /// Whether the pass is over.
    pub fn is_finished(&self) -> (finished: bool)
        ensures
            finished == self.spec_finished(),
    {
        self.finished
    }

    /// Hands out the next block of the text.
    ///
    /// As long as blocks are left before the first fault, the result is the
    /// next of them. Then the fault is handed out, once, if there is one.
    /// After that, and after the last block of a text without faults, the
    /// result is `None` and the pass is over.
    pub fn next_block(&mut self) -> (item: Option<Result<PemBlock, EasyTlsError>>)
        requires
            old(self).well_formed(),
        ensures
            final(self).well_formed(),
            final(self).spec_text() == old(self).spec_text(),
            final(self).spec_index() <= pem_outcome(old(self).spec_text()).blocks.len(),
            if old(self).spec_finished() {
                &&& item is None
                &&& final(self).spec_finished()
                &&& final(self).spec_index() == old(self).spec_index()
            } else if old(self).spec_index() < pem_outcome(old(self).spec_text()).blocks.len() {
                &&& item matches Some(Ok(block)) && block@ == pem_outcome(
                    old(self).spec_text(),
                ).blocks[old(self).spec_index() as int]
                &&& !final(self).spec_finished()
                &&& final(self).spec_index() == old(self).spec_index() + 1
            } else {
                &&& final(self).spec_finished()
                &&& final(self).spec_index() == old(self).spec_index()
                &&& match pem_outcome(old(self).spec_text()).end {
                    Ok(_) => item is None,
                    Err(failure) => item matches Some(Err(error)) && error@ == failure,
                }
            },
    {
        if self.finished {
            return None;
        }
        let text: &'a [u8] = self.text;
        let index: usize = self.index;
        let begin = begin_marker();
        let end = end_marker();
        let ghost outcome = pem_outcome(text@);
        let ghost yielded = outcome.blocks.take(index as int);
        let mut open: bool = false;
        let mut label: Vec<u8> = Vec::new();
        let mut body: Vec<u8> = Vec::new();
        let mut pos: usize = self.pos;
        while pos < text.len()
            invariant
                pos <= text@.len(),
                index <= pos,
                index <= outcome.blocks.len(),
                yielded == outcome.blocks.take(index as int),
                begin@ == begin_prefix(),
                end@ == end_prefix(),
                outcome == pem_outcome(text@),
                outcome == run(
                    lines_from(text@, pos as int),
                    if open {
                        ScanState::InBody { label: label@, body: body@ }
                    } else {
                        ScanState::Outside
                    },
                    yielded,
                ),
                old(self).well_formed(),
                !old(self).finished,
                yielded.len() == index,
                *self == *old(self),
                text == old(self).text,
                index == old(self).index,
            decreases text@.len() - pos,
        {
            let stop: usize = find_line_end(text, pos);
            let raw = slice_subrange(text, pos, stop);
            let line = if raw.len() > 0 && raw[raw.len() - 1] == 13u8 {
                slice_subrange(raw, 0, raw.len() - 1)
            } else {
                raw
            };
            let next: usize = if stop < text.len() {
                stop + 1
            } else {
                stop
            };
            proof {
                assert(line@ =~= strip_cr(text@.subrange(pos as int, stop as int)));
                let lines = lines_from(text@, pos as int);
                assert(lines[0] == line@);
                assert(lines.drop_first() =~= lines_from(text@, next as int));
            }
            if !open {
                match marker_label(line, begin.as_slice()) {
                    Some(name) => {
                        label = slice_to_vec(name);
                        body = Vec::new();
                        open = true;
                        assert(body@ =~= Seq::empty());
                    },
                    None => {},
                }
            } else {
                match marker_label(line, end.as_slice()) {
                    Some(name) => {
                        if !bytes_equal(name, label.as_slice()) {
                            self.finished = true;
                            return Some(
                                Err(
                                    EasyTlsError::LabelMismatch {
                                        index,
                                        begin: label,
                                        end: slice_to_vec(name),
                                    },
                                ),
                            );
                        }
                        let decoded = base64_decode(body.as_slice());
                        match close_block(label, decoded, index) {
                            Ok(block) => {
                                proof {
                                    lemma_run_keeps_found(
                                        lines_from(text@, next as int),
                                        ScanState::Outside,
                                        yielded.push(block@),
                                    );
                                    assert(outcome.blocks.take(index + 1) == yielded.push(block@));
                                    assert(outcome.blocks[index as int] == yielded.push(
                                        block@,
                                    )[index as int]);
                                }
                                self.pos = next;
                                self.index = index + 1;
                                return Some(Ok(block));
                            },
                            Err(error) => {
                                self.finished = true;
                                return Some(Err(error));
                            },
                        }
                    },
                    None => {
                        let ghost before = body@;
                        append_bytes(&mut body, line);
                        assert(body@ == before + line@);
                    },
                }
            }
            pos = next;
        }
        self.pos = pos;
        self.finished = true;
        None
    }
}

/// Decodes every block of `text`, in file order, whatever its size.
pub fn decode_pem(text: &[u8]) -> (result: Result<Vec<PemBlock>, EasyTlsError>)
    ensures
        blocks_result_is(result, pem_blocks(text@)),
{
    let mut reader = PemReader::new(text);
    let mut found: Vec<PemBlock> = Vec::new();
    let ghost outcome = pem_outcome(text@);
    assert(block_views(found@) =~= outcome.blocks.take(0));
    loop
        invariant
            reader.well_formed(),
            reader.spec_text() == text@,
            !reader.spec_finished(),
            outcome == pem_outcome(text@),
            reader.spec_index() <= outcome.blocks.len(),
            block_views(found@) == outcome.blocks.take(reader.spec_index() as int),
        decreases outcome.blocks.len() - reader.spec_index(),
    {
        let ghost index = reader.spec_index() as int;
        match reader.next_block() {
            None => {
                assert(outcome.blocks.take(index) =~= outcome.blocks);
                return Ok(found);
            },
            Some(Ok(block)) => {
                let ghost before = block_views(found@);
                found.push(block);
                assert(block_views(found@) =~= before.push(block@));
                assert(outcome.blocks.take(index + 1) =~= outcome.blocks.take(index).push(
                    outcome.blocks[index],
                ));
            },
            Some(Err(error)) => {
                return Err(error);
            },
        }
    }
}

/// Appends the bytes of `more` to `bytes`.
fn append_bytes(bytes: &mut Vec<u8>, more: &[u8])
    ensures
        final(bytes)@ == old(bytes)@ + more@,
{
    let mut i: usize = 0;
    while i < more.len()
        invariant
            i <= more@.len(),
            bytes@ == old(bytes)@ + more@.subrange(0, i as int),
        decreases more@.len() - i,
    {
        bytes.push(more[i]);
        assert(more@.subrange(0, i + 1) =~= more@.subrange(0, i as int).push(more@[i as int]));
        assert(bytes@ =~= old(bytes)@ + more@.subrange(0, i + 1));
        i += 1;
    }
    assert(more@.subrange(0, i as int) =~= more@);
}

} // verus!
