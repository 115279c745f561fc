//! What the PEM scanner makes of well-built files: every block of a valid
//! file comes out, in order, and a block whose labels differ is reported.

use vstd::prelude::*;
use crate::encoding::base64_decoding;
use crate::pem::{
    begin_prefix, bounded_pem_blocks, dashes, end_prefix, framed_label, line_len, lines_from,
    pem_blocks, pem_outcome, run, strip_cr, BlockView, ScanOutcome, ScanState,
};
use crate::Failure;

verus! {

/// One block as it is written in a file: the lines of free text before it,
/// the label of its `BEGIN` line, its body lines, and the label of its
/// `END` line.
pub struct BlockSource {
    pub preamble: Seq<Seq<u8>>,
    pub label: Seq<u8>,
    pub body: Seq<Seq<u8>>,
    pub closing: Seq<u8>,
}

/// The marker line made of `prefix`, `label` and five dashes.
pub open spec fn marker_line(prefix: Seq<u8>, label: Seq<u8>) -> Seq<u8> {
    prefix + label + dashes()
}

/// No line of `lines` is a `BEGIN` line.
pub open spec fn free_text(lines: Seq<Seq<u8>>) -> bool {
    forall|i: int| 0 <= i < lines.len() ==> framed_label(#[trigger] lines[i], begin_prefix()).is_none()
}

/// The lines of one block, preamble included.
pub open spec fn source_lines(block: BlockSource) -> Seq<Seq<u8>> {
    block.preamble + seq![marker_line(begin_prefix(), block.label)] + block.body + seq![
        marker_line(end_prefix(), block.closing),
    ]
}

/// The lines of a file that holds the blocks of `doc` one after another.
pub open spec fn document_lines(doc: Seq<BlockSource>) -> Seq<Seq<u8>>
    decreases doc.len(),
{
    if doc.len() == 0 {
        Seq::empty()
    } else {
        source_lines(doc[0]) + document_lines(doc.drop_first())
    }
}

/// The block is framed as the format asks: both labels are non-empty, the
/// preamble holds no `BEGIN` line and the body no `END` line.
pub open spec fn well_framed(block: BlockSource) -> bool {
    &&& block.label.len() > 0
    &&& block.closing.len() > 0
    &&& free_text(block.preamble)
    &&& forall|i: int|
        0 <= i < block.body.len() ==> framed_label(#[trigger] block.body[i], end_prefix()).is_none()
}

/// The block is valid: well framed, closed under the label that opened it,
/// with a body that decodes.
pub open spec fn valid_block(block: BlockSource) -> bool {
    &&& well_framed(block)
    &&& block.closing == block.label
    &&& base64_decoding(block.body.flatten()).is_some()
}

/// What a valid block decodes to.
pub open spec fn decoded_block(block: BlockSource) -> BlockView {
    BlockView { label: block.label, payload: base64_decoding(block.body.flatten()).unwrap() }
}

/// What the blocks of a valid file decode to, in file order.
pub open spec fn decoded_document(doc: Seq<BlockSource>) -> Seq<BlockView> {
    doc.map_values(|block: BlockSource| decoded_block(block))
}

/// A marker line gives back its label.
pub proof fn lemma_marker_label(prefix: Seq<u8>, label: Seq<u8>)
    requires
        label.len() > 0,
    ensures
        framed_label(marker_line(prefix, label), prefix) == Some(label),
{
    let line = marker_line(prefix, label);
    assert(line.subrange(0, prefix.len() as int) =~= prefix);
    assert(line.subrange(line.len() - 5, line.len() as int) =~= dashes());
    assert(line.subrange(prefix.len() as int, line.len() - 5) =~= label);
}

/// Outside a block, lines of free text change nothing.
pub proof fn lemma_free_text_is_skipped(
    text: Seq<Seq<u8>>,
    rest: Seq<Seq<u8>>,
    found: Seq<BlockView>,
)
    requires
        free_text(text),
    ensures
        run(text + rest, ScanState::Outside, found) == run(rest, ScanState::Outside, found),
    decreases text.len(),
{
    if text.len() == 0 {
        assert(text + rest =~= rest);
    } else {
        let tail = text.drop_first();
        assert((text + rest)[0] == text[0]);
        assert((text + rest).drop_first() =~= tail + rest);
        assert forall|i: int| 0 <= i < tail.len() implies framed_label(
            #[trigger] tail[i],
            begin_prefix(),
        ).is_none() by {
            assert(tail[i] == text[i + 1]);
        }
        lemma_free_text_is_skipped(tail, rest, found);
    }
}

/// Inside a block, lines that are no `END` line join the body.
pub proof fn lemma_body_is_collected(
    body: Seq<Seq<u8>>,
    rest: Seq<Seq<u8>>,
    label: Seq<u8>,
    so_far: Seq<u8>,
    found: Seq<BlockView>,
)
    requires
        forall|i: int|
            0 <= i < body.len() ==> framed_label(#[trigger] body[i], end_prefix()).is_none(),
    ensures
        run(body + rest, ScanState::InBody { label, body: so_far }, found) == run(
            rest,
            ScanState::InBody { label, body: so_far + body.flatten() },
            found,
        ),
    decreases body.len(),
{
    if body.len() == 0 {
        assert(body + rest =~= rest);
        assert(so_far + body.flatten() =~= so_far);
    } else {
        let tail = body.drop_first();
        assert((body + rest)[0] == body[0]);
        assert((body + rest).drop_first() =~= tail + rest);
        assert forall|i: int| 0 <= i < tail.len() implies framed_label(
            #[trigger] tail[i],
            end_prefix(),
        ).is_none() by {
            assert(tail[i] == body[i + 1]);
        }
        lemma_body_is_collected(tail, rest, label, so_far + body[0], found);
        assert((so_far + body[0]) + tail.flatten() =~= so_far + body.flatten());
    }
}

/// What the scanner makes of one well-framed block and the lines after it.
pub open spec fn after_block(
    block: BlockSource,
    rest: Seq<Seq<u8>>,
    found: Seq<BlockView>,
) -> ScanOutcome {
    if block.closing != block.label {
        ScanOutcome {
            blocks: found,
            end: Err(
                Failure::LabelMismatch {
                    index: found.len(),
                    begin: block.label,
                    end: block.closing,
                },
            ),
        }
    } else {
        match base64_decoding(block.body.flatten()) {
            Some(payload) => run(
                rest,
                ScanState::Outside,
                found.push(BlockView { label: block.label, payload }),
            ),
            None => ScanOutcome {
                blocks: found,
                end: Err(Failure::InvalidBody { index: found.len() }),
            },
        }
    }
}

/// Scanning one well-framed block either reports it or adds it to the
/// blocks found and goes on behind it.
pub proof fn lemma_run_block(block: BlockSource, rest: Seq<Seq<u8>>, found: Seq<BlockView>)
    requires
        well_framed(block),
    ensures
        run(source_lines(block) + rest, ScanState::Outside, found) == after_block(
            block,
            rest,
            found,
        ),
{
    let opening = marker_line(begin_prefix(), block.label);
    let closing = marker_line(end_prefix(), block.closing);
    let from_closing = seq![closing] + rest;
    let from_body = block.body + from_closing;
    let from_opening = seq![opening] + from_body;
    assert(source_lines(block) + rest =~= block.preamble + from_opening);
    lemma_free_text_is_skipped(block.preamble, from_opening, found);
    lemma_marker_label(begin_prefix(), block.label);
    assert(from_opening[0] == opening);
    assert(from_opening.drop_first() =~= from_body);
    let empty = Seq::<u8>::empty();
    assert(run(from_opening, ScanState::Outside, found) == run(
        from_body,
        ScanState::InBody { label: block.label, body: empty },
        found,
    ));
    lemma_body_is_collected(block.body, from_closing, block.label, empty, found);
    assert(empty + block.body.flatten() =~= block.body.flatten());
    lemma_marker_label(end_prefix(), block.closing);
    assert(from_closing[0] == closing);
    assert(from_closing.drop_first() =~= rest);
}

/// Scanning a run of valid blocks adds each of them, in order, and goes on
/// behind them.
pub proof fn lemma_run_document(
    doc: Seq<BlockSource>,
    rest: Seq<Seq<u8>>,
    found: Seq<BlockView>,
)
    requires
        forall|i: int| 0 <= i < doc.len() ==> valid_block(#[trigger] doc[i]),
    ensures
        run(document_lines(doc) + rest, ScanState::Outside, found) == run(
            rest,
            ScanState::Outside,
            found + decoded_document(doc),
        ),
    decreases doc.len(),
{
    if doc.len() == 0 {
        assert(document_lines(doc) + rest =~= rest);
        assert(found + decoded_document(doc) =~= found);
    } else {
        let tail = doc.drop_first();
        let behind = document_lines(tail) + rest;
        assert(document_lines(doc) + rest =~= source_lines(doc[0]) + behind);
        assert(valid_block(doc[0]));
        lemma_run_block(doc[0], behind, found);
        assert forall|i: int| 0 <= i < tail.len() implies valid_block(#[trigger] tail[i]) by {
            assert(tail[i] == doc[i + 1]);
        }
        lemma_run_document(tail, rest, found.push(decoded_block(doc[0])));
        assert(found.push(decoded_block(doc[0])) + decoded_document(tail) =~= found
            + decoded_document(doc));
    }
}

/// A file that holds N valid blocks, with free text before, between and
/// behind them, decodes to exactly those N blocks in file order, each with
/// its own label and the decoding of its own body.
pub proof fn lemma_valid_file_yields_every_block(
    text: Seq<u8>,
    doc: Seq<BlockSource>,
    trailer: Seq<Seq<u8>>,
)
    requires
        lines_from(text, 0) == document_lines(doc) + trailer,
        forall|i: int| 0 <= i < doc.len() ==> valid_block(#[trigger] doc[i]),
        free_text(trailer),
    ensures
        pem_blocks(text) == Ok::<Seq<BlockView>, Failure>(decoded_document(doc)),
        forall|limit: nat|
            text.len() <= limit ==> #[trigger] bounded_pem_blocks(text, limit) == Ok::<
                Seq<BlockView>,
                Failure,
            >(decoded_document(doc)),
        decoded_document(doc).len() == doc.len(),
        forall|i: int|
            0 <= i < doc.len() ==> (#[trigger] decoded_document(doc)[i]).label == doc[i].label
                && base64_decoding(doc[i].body.flatten()) == Some(
                decoded_document(doc)[i].payload,
            ),
{
    let none = Seq::<BlockView>::empty();
    lemma_run_document(doc, trailer, none);
    assert(none + decoded_document(doc) =~= decoded_document(doc));
    lemma_free_text_is_skipped(trailer, Seq::empty(), decoded_document(doc));
    assert(trailer + Seq::<Seq<u8>>::empty() =~= trailer);
}

/// A line as a writer of PEM text produces it: without a line feed in it
/// and without a carriage return at its end.
pub open spec fn plain_line(line: Seq<u8>) -> bool {
    &&& forall|i: int| 0 <= i < line.len() ==> #[trigger] line[i] != 10u8
    &&& line.len() > 0 ==> line.last() != 13u8
}

/// The text of a file with these lines, each closed by a line feed.
pub open spec fn render(lines: Seq<Seq<u8>>) -> Seq<u8>
    decreases lines.len(),
{
    if lines.len() == 0 {
        Seq::empty()
    } else {
        lines[0] + seq![10u8] + render(lines.drop_first())
    }
}

/// In a text that opens with a plain line and a line feed, the line ends at
/// that line feed.
pub proof fn lemma_line_len_of_first_line(line: Seq<u8>, tail: Seq<u8>, from: int)
    requires
        plain_line(line),
        0 <= from <= line.len(),
    ensures
        line_len(line + seq![10u8] + tail, from) == line.len() - from,
    decreases line.len() - from,
{
    let text = line + seq![10u8] + tail;
    if from < line.len() {
        assert(text[from] == line[from]);
        lemma_line_len_of_first_line(line, tail, from + 1);
    } else {
        assert(text[from] == 10u8);
    }
}

/// Text in front changes no line length behind it.
pub proof fn lemma_line_len_behind_prefix(prefix: Seq<u8>, text: Seq<u8>, from: int)
    requires
        0 <= from,
    ensures
        line_len(prefix + text, prefix.len() + from) == line_len(text, from),
    decreases text.len() - from,
{
    if from < text.len() {
        assert((prefix + text)[prefix.len() + from] == text[from]);
        if text[from] != 10u8 {
            lemma_line_len_behind_prefix(prefix, text, from + 1);
        }
    }
}

/// Text in front changes no line behind it.
pub proof fn lemma_lines_behind_prefix(prefix: Seq<u8>, text: Seq<u8>, from: int)
    requires
        0 <= from,
    ensures
        lines_from(prefix + text, prefix.len() + from) == lines_from(text, from),
    decreases text.len() - from,
{
    if from < text.len() {
        lemma_line_len_behind_prefix(prefix, text, from);
        let end = from + line_len(text, from);
        lemma_line_len_bound(text, from);
        assert((prefix + text).subrange(prefix.len() + from, prefix.len() + end) =~= text.subrange(
            from,
            end,
        ));
        if end < text.len() {
            lemma_lines_behind_prefix(prefix, text, end + 1);
        }
    }
}

/// A line ends within the text.
pub proof fn lemma_line_len_bound(text: Seq<u8>, from: int)
    requires
        0 <= from <= text.len(),
    ensures
        from + line_len(text, from) <= text.len(),
    decreases text.len() - from,
{
    if from < text.len() && text[from] != 10u8 {
        lemma_line_len_bound(text, from + 1);
    }
}

/// Reading the lines of a rendered text gives back the lines that were
/// rendered.
pub proof fn lemma_lines_of_rendered_text(lines: Seq<Seq<u8>>)
    requires
        forall|i: int| 0 <= i < lines.len() ==> plain_line(#[trigger] lines[i]),
    ensures
        lines_from(render(lines), 0) == lines,
    decreases lines.len(),
{
    if lines.len() == 0 {
        assert(lines_from(render(lines), 0) =~= lines);
    } else {
        let line = lines[0];
        let rest = lines.drop_first();
        let tail = render(rest);
        let text = line + seq![10u8] + tail;
        assert(plain_line(line));
        lemma_line_len_of_first_line(line, tail, 0);
        assert(text.subrange(0, line.len() as int) =~= line);
        assert(strip_cr(line) == line);
        assert(text =~= (line + seq![10u8]) + tail);
        lemma_lines_behind_prefix(line + seq![10u8], tail, 0);
        assert forall|i: int| 0 <= i < rest.len() implies plain_line(#[trigger] rest[i]) by {
            assert(rest[i] == lines[i + 1]);
        }
        lemma_lines_of_rendered_text(rest);
        assert(lines_from(text, 0) =~= seq![line] + rest);
        assert(seq![line] + rest =~= lines);
    }
}

/// Writing N valid blocks to a file, line by line, and decoding the file
/// gives exactly those N blocks, in the order in which they were written.
pub proof fn lemma_written_file_decodes(doc: Seq<BlockSource>, trailer: Seq<Seq<u8>>)
    requires
        forall|i: int| 0 <= i < doc.len() ==> valid_block(#[trigger] doc[i]),
        free_text(trailer),
        forall|i: int|
            0 <= i < (document_lines(doc) + trailer).len() ==> plain_line(
                #[trigger] (document_lines(doc) + trailer)[i],
            ),
    ensures
        pem_blocks(render(document_lines(doc) + trailer)) == Ok::<Seq<BlockView>, Failure>(
            decoded_document(doc),
        ),
        decoded_document(doc).len() == doc.len(),
{
    lemma_lines_of_rendered_text(document_lines(doc) + trailer);
    lemma_valid_file_yields_every_block(render(document_lines(doc) + trailer), doc, trailer);
}

/// A block whose `END` label differs from its `BEGIN` label is reported as
/// a label mismatch that names both labels and the block's index, whatever
/// follows it in the file: it is never skipped.
pub proof fn lemma_label_mismatch_is_reported(
    text: Seq<u8>,
    doc: Seq<BlockSource>,
    bad: BlockSource,
    rest: Seq<Seq<u8>>,
)
    requires
        lines_from(text, 0) == document_lines(doc) + source_lines(bad) + rest,
        forall|i: int| 0 <= i < doc.len() ==> valid_block(#[trigger] doc[i]),
        well_framed(bad),
        bad.closing != bad.label,
    ensures
        pem_blocks(text) == Err::<Seq<BlockView>, Failure>(
            Failure::LabelMismatch { index: doc.len(), begin: bad.label, end: bad.closing },
        ),
        forall|limit: nat|
            text.len() <= limit ==> #[trigger] bounded_pem_blocks(text, limit) == Err::<
                Seq<BlockView>,
                Failure,
            >(Failure::LabelMismatch { index: doc.len(), begin: bad.label, end: bad.closing }),
        forall|limit: nat| (#[trigger] bounded_pem_blocks(text, limit)) is Err,
{
    let none = Seq::<BlockView>::empty();
    assert(document_lines(doc) + source_lines(bad) + rest =~= document_lines(doc) + (
    source_lines(bad) + rest));
    lemma_run_document(doc, source_lines(bad) + rest, none);
    assert(none + decoded_document(doc) =~= decoded_document(doc));
    lemma_run_block(bad, rest, decoded_document(doc));
}

/// Scanning two runs of lines one after the other is scanning the second
/// from where the first ended; a fault in the first ends the scan.
pub proof fn lemma_run_splits(
    first: Seq<Seq<u8>>,
    second: Seq<Seq<u8>>,
    state: ScanState,
    found: Seq<BlockView>,
)
    ensures
        run(first + second, state, found) == match run(first, state, found).end {
            Ok(next) => run(second, next, run(first, state, found).blocks),
            Err(_) => run(first, state, found),
        },
    decreases first.len(),
{
    if first.len() == 0 {
        assert(first + second =~= second);
    } else {
        assert((first + second)[0] == first[0]);
        assert((first + second).drop_first() =~= first.drop_first() + second);
        match crate::pem::step(state, found, first[0]) {
            Ok((next, blocks)) => {
                lemma_run_splits(first.drop_first(), second, next, blocks);
            },
            Err(_) => {},
        }
    }
}

/// A block with differing labels makes the whole file fail, whatever
/// stands before and behind it, as long as it does not lie inside the body
/// of an earlier block that was never closed. The failure is the mismatch
/// of this block, or a fault that came before it: the file never decodes.
pub proof fn lemma_label_mismatch_is_never_skipped(
    text: Seq<u8>,
    before: Seq<Seq<u8>>,
    bad: BlockSource,
    rest: Seq<Seq<u8>>,
)
    requires
        lines_from(text, 0) == before + source_lines(bad) + rest,
        well_framed(bad),
        bad.closing != bad.label,
        !(run(before, ScanState::Outside, Seq::empty()).end matches Ok(
            ScanState::InBody { .. },
        )),
    ensures
        pem_blocks(text) is Err,
        forall|limit: nat| (#[trigger] bounded_pem_blocks(text, limit)) is Err,
        match run(before, ScanState::Outside, Seq::empty()).end {
            Ok(_) => pem_blocks(text) == Err::<Seq<BlockView>, Failure>(
                Failure::LabelMismatch {
                    index: run(before, ScanState::Outside, Seq::empty()).blocks.len(),
                    begin: bad.label,
                    end: bad.closing,
                },
            ),
            Err(failure) => pem_blocks(text) == Err::<Seq<BlockView>, Failure>(failure),
        },
{
    let none = Seq::<BlockView>::empty();
    assert(before + source_lines(bad) + rest =~= before + (source_lines(bad) + rest));
    lemma_run_splits(before, source_lines(bad) + rest, ScanState::Outside, none);
    let reached = run(before, ScanState::Outside, none);
    match reached.end {
        Ok(_) => {
            lemma_run_block(bad, rest, reached.blocks);
        },
        Err(_) => {},
    }
}

/// The blocks before a fault are not lost to a single pass: a file of N
/// valid blocks and one with differing labels yields the N blocks, then the
/// fault.
pub proof fn lemma_blocks_before_a_fault_are_yielded(
    text: Seq<u8>,
    doc: Seq<BlockSource>,
    bad: BlockSource,
    rest: Seq<Seq<u8>>,
)
    requires
        lines_from(text, 0) == document_lines(doc) + source_lines(bad) + rest,
        forall|i: int| 0 <= i < doc.len() ==> valid_block(#[trigger] doc[i]),
        well_framed(bad),
        bad.closing != bad.label,
    ensures
        pem_outcome(text).blocks == decoded_document(doc),
        pem_outcome(text).end == Err::<ScanState, Failure>(
            Failure::LabelMismatch { index: doc.len(), begin: bad.label, end: bad.closing },
        ),
{
    let none = Seq::<BlockView>::empty();
    assert(document_lines(doc) + source_lines(bad) + rest =~= document_lines(doc) + (
    source_lines(bad) + rest));
    lemma_run_document(doc, source_lines(bad) + rest, none);
    assert(none + decoded_document(doc) =~= decoded_document(doc));
    lemma_run_block(bad, rest, decoded_document(doc));
}

/// A block whose body does not decode is reported with its index.
pub proof fn lemma_undecodable_body_is_reported(
    text: Seq<u8>,
    doc: Seq<BlockSource>,
    bad: BlockSource,
    rest: Seq<Seq<u8>>,
)
    requires
        lines_from(text, 0) == document_lines(doc) + source_lines(bad) + rest,
        forall|i: int| 0 <= i < doc.len() ==> valid_block(#[trigger] doc[i]),
        well_framed(bad),
        bad.closing == bad.label,
        base64_decoding(bad.body.flatten()).is_none(),
    ensures
        pem_blocks(text) == Err::<Seq<BlockView>, Failure>(
            Failure::InvalidBody { index: doc.len() },
        ),
{
    let none = Seq::<BlockView>::empty();
    assert(document_lines(doc) + source_lines(bad) + rest =~= document_lines(doc) + (
    source_lines(bad) + rest));
    lemma_run_document(doc, source_lines(bad) + rest, none);
    assert(none + decoded_document(doc) =~= decoded_document(doc));
    lemma_run_block(bad, rest, decoded_document(doc));
}

} // verus!
