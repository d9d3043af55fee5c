//! What holds of every run of the parser.
//!
//! A run is a function of the lines, the padding and the assembler's answers.
//! With an assembler that answers alike for the same text, running again gives
//! the same result. A block of bytes leaves the record that its lines write,
//! a block of instructions leaves what the assembler gave, topped up as the
//! padding says, and a block that is never closed makes the run fail.

use crate::block::{closed_record, group, padding_tops_up, BlockKind, BlockView, PaddingView};
use crate::error::HaikuErrorView;
use crate::ips::PatchRecordView;
use crate::parse::{
    answered, byte_list, byte_list_accepts, ended, patch_definition, scans_to, token_byte,
};
use crate::scan::{
    closing, encoded_view, line_kind, mnemonic_of, opening, resolution, transition, LineKind,
    PendingView, ScanView, StepView,
};
use crate::text::{tokens, trim_start};
use vstd::prelude::*;

verus! {

/// What a scan of `lines` that starts in `state`, with `records` left so far,
/// comes to when the assembler is the function `model` of the text.
pub open spec fn scan_with(
    model: spec_fn(Seq<char>) -> Option<Seq<u8>>,
    state: ScanView,
    records: Seq<PatchRecordView>,
    lines: Seq<Seq<char>>,
    padding: PaddingView,
) -> Result<Seq<PatchRecordView>, HaikuErrorView>
    decreases lines.len(),
{
    if lines.len() == 0 {
        ended(state, records)
    } else {
        let rest = lines.drop_first();
        match transition(state, lines[0], padding) {
            Err(e) => Err(e),
            Ok(StepView::Continue(next)) => scan_with(model, next, records, rest, padding),
            Ok(StepView::Emit(next, record)) => scan_with(
                model,
                next,
                records.push(record),
                rest,
                padding,
            ),
            Ok(StepView::Assemble(pending)) => match resolution(pending, model(pending.mnemonic)) {
                Err(e) => Err(e),
                Ok(next) => scan_with(model, next, records, rest, padding),
            },
        }
    }
}

/// Whether every answer of the assembler `encode` is the one that `model`
/// has for the text.
pub open spec fn follows<F: Fn(String) -> Option<Vec<u8>>>(
    encode: F,
    model: spec_fn(Seq<char>) -> Option<Seq<u8>>,
) -> bool {
    forall|text: String, encoded: Option<Vec<u8>>| #[trigger]
        encode.ensures((text,), encoded) ==> encoded_view(encoded) == model(text@)
}

/// With an assembler that follows `model`, a scan comes to what `scan_with`
/// says for `model`, and to nothing else.
pub proof fn scan_follows_model<F: Fn(String) -> Option<Vec<u8>>>(
    encode: F,
    model: spec_fn(Seq<char>) -> Option<Seq<u8>>,
    state: ScanView,
    records: Seq<PatchRecordView>,
    lines: Seq<Seq<char>>,
    padding: PaddingView,
    result: Result<Seq<PatchRecordView>, HaikuErrorView>,
)
    requires
        follows(encode, model),
        scans_to(encode, state, records, lines, padding, result),
    ensures
        result == scan_with(model, state, records, lines, padding),
    decreases lines.len(),
{
    if lines.len() > 0 {
        let rest = lines.drop_first();
        match transition(state, lines[0], padding) {
            Err(e) => {},
            Ok(StepView::Continue(next)) => {
                scan_follows_model(encode, model, next, records, rest, padding, result);
            },
            Ok(StepView::Emit(next, record)) => {
                scan_follows_model(
                    encode,
                    model,
                    next,
                    records.push(record),
                    rest,
                    padding,
                    result,
                );
            },
            Ok(StepView::Assemble(pending)) => {
                let answer = choose|answer: Option<Seq<u8>>|
                    #![trigger answered(encode, pending.mnemonic, answer)]
                    answered(encode, pending.mnemonic, answer) && match resolution(
                        pending,
                        answer,
                    ) {
                        Err(e) => result == Err::<Seq<PatchRecordView>, HaikuErrorView>(e),
                        Ok(next) => scans_to(encode, next, records, rest, padding, result),
                    };
                assert(answer == model(pending.mnemonic));
                match resolution(pending, answer) {
                    Err(e) => {},
                    Ok(next) => {
                        scan_follows_model(encode, model, next, records, rest, padding, result);
                    },
                }
            },
        }
    }
}

/// Whether the assembler `encode` gives the same answer whenever it is asked
/// for the same text.
pub open spec fn answers_alike<F: Fn(String) -> Option<Vec<u8>>>(encode: F) -> bool {
    forall|
        first: String,
        second: String,
        first_encoded: Option<Vec<u8>>,
        second_encoded: Option<Vec<u8>>,
    |
        #![trigger
            encode.ensures((first,), first_encoded),
            encode.ensures((second,), second_encoded)
        ]
        first@ == second@ && encode.ensures((first,), first_encoded) && encode.ensures(
            (second,),
            second_encoded,
        ) ==> encoded_view(first_encoded) == encoded_view(second_encoded)
}

/// Running the scan again on the same lines, with the same padding and an
/// assembler that answers alike for the same text, comes to the same result.
pub proof fn scan_repeats<F: Fn(String) -> Option<Vec<u8>>>(
    encode: F,
    state: ScanView,
    records: Seq<PatchRecordView>,
    lines: Seq<Seq<char>>,
    padding: PaddingView,
    first: Result<Seq<PatchRecordView>, HaikuErrorView>,
    second: Result<Seq<PatchRecordView>, HaikuErrorView>,
)
    requires
        answers_alike(encode),
        scans_to(encode, state, records, lines, padding, first),
        scans_to(encode, state, records, lines, padding, second),
    ensures
        first == second,
    decreases lines.len(),
{
    if lines.len() > 0 {
        let rest = lines.drop_first();
        match transition(state, lines[0], padding) {
            Err(e) => {},
            Ok(StepView::Continue(next)) => {
                scan_repeats(encode, next, records, rest, padding, first, second);
            },
            Ok(StepView::Emit(next, record)) => {
                scan_repeats(encode, next, records.push(record), rest, padding, first, second);
            },
            Ok(StepView::Assemble(pending)) => {
                let one = choose|answer: Option<Seq<u8>>|
                    #![trigger answered(encode, pending.mnemonic, answer)]
                    answered(encode, pending.mnemonic, answer) && match resolution(
                        pending,
                        answer,
                    ) {
                        Err(e) => first == Err::<Seq<PatchRecordView>, HaikuErrorView>(e),
                        Ok(next) => scans_to(encode, next, records, rest, padding, first),
                    };
                let other = choose|answer: Option<Seq<u8>>|
                    #![trigger answered(encode, pending.mnemonic, answer)]
                    answered(encode, pending.mnemonic, answer) && match resolution(
                        pending,
                        answer,
                    ) {
                        Err(e) => second == Err::<Seq<PatchRecordView>, HaikuErrorView>(e),
                        Ok(next) => scans_to(encode, next, records, rest, padding, second),
                    };
                assert(one == other);
                match resolution(pending, one) {
                    Err(e) => {},
                    Ok(next) => {
                        scan_repeats(encode, next, records, rest, padding, first, second);
                    },
                }
            },
        }
    }
}

/// The bytes that a line inside a block of bytes adds to it: none for a line
/// that the scan passes over, and the bytes of its tokens for a line whose
/// tokens all write bytes. The closing line and a line with any other token
/// add nothing that could be named.
pub open spec fn line_bytes(raw: Seq<char>) -> Option<Seq<u8>> {
    let content = trim_start(raw);
    let toks = tokens(content);
    if line_kind(content) != LineKind::Content {
        Some(Seq::empty())
    } else if !closing(content) && forall|k: int|
        0 <= k < toks.len() ==> (#[trigger] token_byte(toks[k])) is Some {
        Some(Seq::new(toks.len(), |k: int| token_byte(toks[k])->Some_0))
    } else {
        None
    }
}

/// The bytes that the lines `body` add to a block of bytes, in order, where
/// every line adds some.
pub open spec fn lines_bytes(body: Seq<Seq<char>>) -> Option<Seq<u8>>
    decreases body.len(),
{
    if body.len() == 0 {
        Some(Seq::empty())
    } else {
        match (line_bytes(body[0]), lines_bytes(body.drop_first())) {
            (Some(first), Some(others)) => Some(first + others),
            _ => None,
        }
    }
}

/// Inside a block of bytes, lines that add bytes for which the block has room
/// take the scan to the same block with those bytes added.
proof fn lemma_body_scans<F: Fn(String) -> Option<Vec<u8>>>(
    encode: F,
    block: BlockView,
    records: Seq<PatchRecordView>,
    body: Seq<Seq<char>>,
    rest: Seq<Seq<char>>,
    padding: PaddingView,
    result: Result<Seq<PatchRecordView>, HaikuErrorView>,
)
    requires
        block.kind == BlockKind::Bytes,
        lines_bytes(body) is Some,
        lines_bytes(body)->Some_0.len() <= block.remaining(),
    ensures
        scans_to(encode, ScanView::InBlock(block), records, body + rest, padding, result)
            == scans_to(
            encode,
            ScanView::InBlock(block.with_bytes(lines_bytes(body)->Some_0)),
            records,
            rest,
            padding,
            result,
        ),
    decreases body.len(),
{
    if body.len() == 0 {
        assert(body + rest == rest);
        assert(block.with_bytes(Seq::empty()).accumulated == block.accumulated);
    } else {
        let lines = body + rest;
        let content = trim_start(body[0]);
        let first = line_bytes(body[0])->Some_0;
        let others = lines_bytes(body.drop_first())->Some_0;
        assert(lines[0] == body[0]);
        assert(lines.drop_first() == body.drop_first() + rest);
        let next = block.with_bytes(first);
        if line_kind(content) == LineKind::Content {
            let toks = tokens(content);
            byte_list_accepts(toks, block.start_offset, block.remaining() as nat);
            let read = byte_list(toks, block.start_offset, block.remaining() as nat)->Ok_0;
            assert(read == first);
        } else {
            assert(next.accumulated == block.accumulated);
        }
        assert(transition(ScanView::InBlock(block), body[0], padding) == Ok::<
            StepView,
            HaikuErrorView,
        >(StepView::Continue(ScanView::InBlock(next))));
        lemma_body_scans(encode, next, records, body.drop_first(), rest, padding, result);
        assert(next.with_bytes(others).accumulated == block.with_bytes(
            first + others,
        ).accumulated);
    }
}

/// A block of bytes that is opened, filled with no more bytes than its
/// capacity and closed leaves one record: its offset is the one that the
/// opening line names, and its payload is exactly the bytes that the lines in
/// between write, in order. The scan then goes on outside every block with the
/// lines that follow.
pub proof fn bytes_block_leaves_its_record<F: Fn(String) -> Option<Vec<u8>>>(
    encode: F,
    records: Seq<PatchRecordView>,
    header: Seq<char>,
    body: Seq<Seq<char>>,
    close: Seq<char>,
    rest: Seq<Seq<char>>,
    padding: PaddingView,
    result: Result<Seq<PatchRecordView>, HaikuErrorView>,
)
    requires
        opening(trim_start(header)) == Some(BlockKind::Bytes),
        patch_definition(trim_start(header)) is Ok,
        lines_bytes(body) is Some,
        lines_bytes(body)->Some_0.len() <= patch_definition(trim_start(header))->Ok_0.1,
        closing(trim_start(close)),
    ensures
        scans_to(
            encode,
            ScanView::Scanning,
            records,
            seq![header] + body + seq![close] + rest,
            padding,
            result,
        ) == scans_to(
            encode,
            ScanView::Scanning,
            records.push(
                PatchRecordView {
                    offset: patch_definition(trim_start(header))->Ok_0.0,
                    payload: lines_bytes(body)->Some_0,
                },
            ),
            rest,
            padding,
            result,
        ),
{
    let definition = patch_definition(trim_start(header))->Ok_0;
    let bytes = lines_bytes(body)->Some_0;
    let lines = seq![header] + body + seq![close] + rest;
    let block = BlockView {
        kind: BlockKind::Bytes,
        start_offset: definition.0,
        capacity: definition.1,
        accumulated: Seq::empty(),
    };
    lemma_opening_is_content(trim_start(header));
    assert(lines[0] == header);
    assert(lines.drop_first() == body + (seq![close] + rest));
    assert(transition(ScanView::Scanning, header, padding) == Ok::<StepView, HaikuErrorView>(
        StepView::Continue(ScanView::InBlock(block)),
    ));
    lemma_body_scans(encode, block, records, body, seq![close] + rest, padding, result);
    let full = block.with_bytes(bytes);
    assert(full.accumulated == bytes);
    assert((seq![close] + rest)[0] == close);
    assert((seq![close] + rest).drop_first() == rest);
    assert(transition(ScanView::InBlock(full), close, padding) == Ok::<StepView, HaikuErrorView>(
        StepView::Emit(ScanView::Scanning, closed_record(full, padding)),
    ));
}

/// A block of bytes that is opened and never closed before the lines end makes
/// the scan fail with `UnterminatedBlock` at the block's start offset, so that
/// no records come out.
pub proof fn unclosed_bytes_block_fails<F: Fn(String) -> Option<Vec<u8>>>(
    encode: F,
    records: Seq<PatchRecordView>,
    header: Seq<char>,
    body: Seq<Seq<char>>,
    padding: PaddingView,
    result: Result<Seq<PatchRecordView>, HaikuErrorView>,
)
    requires
        opening(trim_start(header)) == Some(BlockKind::Bytes),
        patch_definition(trim_start(header)) is Ok,
        lines_bytes(body) is Some,
        lines_bytes(body)->Some_0.len() <= patch_definition(trim_start(header))->Ok_0.1,
        scans_to(encode, ScanView::Scanning, records, seq![header] + body, padding, result),
    ensures
        result == Err::<Seq<PatchRecordView>, HaikuErrorView>(
            HaikuErrorView::UnterminatedBlock {
                start_offset: patch_definition(trim_start(header))->Ok_0.0,
            },
        ),
{
    let definition = patch_definition(trim_start(header))->Ok_0;
    let lines = seq![header] + body;
    let block = BlockView {
        kind: BlockKind::Bytes,
        start_offset: definition.0,
        capacity: definition.1,
        accumulated: Seq::empty(),
    };
    lemma_opening_is_content(trim_start(header));
    assert(lines[0] == header);
    assert(lines.drop_first() == body + Seq::<Seq<char>>::empty());
    assert(transition(ScanView::Scanning, header, padding) == Ok::<StepView, HaikuErrorView>(
        StepView::Continue(ScanView::InBlock(block)),
    ));
    lemma_body_scans(encode, block, records, body, Seq::empty(), padding, result);
}

/// The bytes that the lines `body` add to the block of instructions `block`
/// when `model` assembles: each line that the scan does not pass over is
/// assembled as it stands, or as what it expands to at the offset where it
/// lands, and its bytes are added if the block has room for them. Where a line
/// closes the block, is turned down or has no room, nothing can be named.
pub open spec fn assembled_bytes(
    model: spec_fn(Seq<char>) -> Option<Seq<u8>>,
    block: BlockView,
    body: Seq<Seq<char>>,
) -> Option<Seq<u8>>
    decreases body.len(),
{
    if body.len() == 0 {
        Some(Seq::empty())
    } else {
        let content = trim_start(body[0]);
        let others = body.drop_first();
        if line_kind(content) != LineKind::Content {
            assembled_bytes(model, block, others)
        } else if closing(content) {
            None
        } else {
            match model(mnemonic_of(content, block.write_offset())) {
                None => None,
                Some(bytes) => if bytes.len() <= block.remaining() {
                    match assembled_bytes(model, block.with_bytes(bytes), others) {
                        Some(more) => Some(bytes + more),
                        None => None,
                    }
                } else {
                    None
                },
            }
        }
    }
}

/// Inside a block of instructions, lines whose bytes the block has room for
/// take the scan to the same block with those bytes added.
proof fn lemma_instructions_scan(
    model: spec_fn(Seq<char>) -> Option<Seq<u8>>,
    block: BlockView,
    records: Seq<PatchRecordView>,
    body: Seq<Seq<char>>,
    rest: Seq<Seq<char>>,
    padding: PaddingView,
)
    requires
        block.kind == BlockKind::Instructions,
        block.wf(),
        assembled_bytes(model, block, body) is Some,
    ensures
        assembled_bytes(model, block, body)->Some_0.len() <= block.remaining(),
        scan_with(model, ScanView::InBlock(block), records, body + rest, padding) == scan_with(
            model,
            ScanView::InBlock(block.with_bytes(assembled_bytes(model, block, body)->Some_0)),
            records,
            rest,
            padding,
        ),
    decreases body.len(),
{
    if body.len() == 0 {
        assert(body + rest == rest);
        assert(block.with_bytes(Seq::empty()).accumulated == block.accumulated);
    } else {
        let lines = body + rest;
        let content = trim_start(body[0]);
        let others = body.drop_first();
        assert(lines[0] == body[0]);
        assert(lines.drop_first() == others + rest);
        if line_kind(content) != LineKind::Content {
            lemma_instructions_scan(model, block, records, others, rest, padding);
        } else {
            let bytes = model(mnemonic_of(content, block.write_offset()))->Some_0;
            let next = block.with_bytes(bytes);
            let more = assembled_bytes(model, next, others)->Some_0;
            let pending = PendingView {
                block,
                line: content,
                mnemonic: mnemonic_of(content, block.write_offset()),
            };
            assert(transition(ScanView::InBlock(block), body[0], padding) == Ok::<
                StepView,
                HaikuErrorView,
            >(StepView::Assemble(pending)));
            lemma_instructions_scan(model, next, records, others, rest, padding);
            assert(next.with_bytes(more).accumulated == block.with_bytes(
                bytes + more,
            ).accumulated);
        }
    }
}

/// A block of instructions that is opened, filled with instructions whose
/// bytes it has room for, and closed leaves one record, and the run goes on
/// outside every block with the lines that follow. The record's offset is the
/// one that the opening line names. Its payload begins with the bytes that the
/// assembler gave, in the order of the lines. Under enabled padding it has
/// exactly the capacity in bytes; where the room that remained is a multiple of
/// the pattern's length, what follows the assembled bytes is the fill pattern,
/// once for each run of that length.
pub proof fn instruction_block_leaves_its_record<F: Fn(String) -> Option<Vec<u8>>>(
    encode: F,
    model: spec_fn(Seq<char>) -> Option<Seq<u8>>,
    records: Seq<PatchRecordView>,
    header: Seq<char>,
    body: Seq<Seq<char>>,
    close: Seq<char>,
    rest: Seq<Seq<char>>,
    padding: PaddingView,
    result: Result<Seq<PatchRecordView>, HaikuErrorView>,
) -> (record: PatchRecordView)
    requires
        follows(encode, model),
        padding.fill_pattern.len() > 0,
        opening(trim_start(header)) == Some(BlockKind::Instructions),
        patch_definition(trim_start(header)) is Ok,
        assembled_bytes(model, opened(header), body) is Some,
        closing(trim_start(close)),
        scans_to(
            encode,
            ScanView::Scanning,
            records,
            seq![header] + body + seq![close] + rest,
            padding,
            result,
        ),
    ensures
        result == scan_with(model, ScanView::Scanning, records.push(record), rest, padding),
        record.offset == opened(header).start_offset,
        ({
            let bytes = assembled_bytes(model, opened(header), body)->Some_0;
            let capacity = opened(header).capacity as int;
            let length = padding.fill_pattern.len() as int;
            &&& bytes.len() <= capacity
            &&& record.payload.take(bytes.len() as int) == bytes
            &&& !padding.enabled ==> record.payload == bytes
            &&& padding.enabled ==> record.payload.len() == capacity
            &&& padding.enabled && (capacity - bytes.len()) % length == 0 ==> forall|index: int|
                0 <= index < (capacity - bytes.len()) / length ==> #[trigger] group(
                    record.payload,
                    bytes.len() as int,
                    length,
                    index,
                ) == padding.fill_pattern
        }),
{
    let block = opened(header);
    let bytes = assembled_bytes(model, block, body)->Some_0;
    let lines = seq![header] + body + seq![close] + rest;
    scan_follows_model(encode, model, ScanView::Scanning, records, lines, padding, result);
    lemma_opening_is_content(trim_start(header));
    assert(lines[0] == header);
    assert(lines.drop_first() == body + (seq![close] + rest));
    assert(transition(ScanView::Scanning, header, padding) == Ok::<StepView, HaikuErrorView>(
        StepView::Continue(ScanView::InBlock(block)),
    ));
    lemma_instructions_scan(model, block, records, body, seq![close] + rest, padding);
    let full = block.with_bytes(bytes);
    assert(full.accumulated == bytes);
    assert((seq![close] + rest)[0] == close);
    assert((seq![close] + rest).drop_first() == rest);
    assert(transition(ScanView::InBlock(full), close, padding) == Ok::<StepView, HaikuErrorView>(
        StepView::Emit(ScanView::Scanning, closed_record(full, padding)),
    ));
    let record = closed_record(full, padding);
    if padding.enabled {
        padding_tops_up(full, padding);
    } else {
        assert(record.payload.take(bytes.len() as int) == bytes);
    }
    record
}

/// Whatever the assembler gave before, the line that closes a block of
/// instructions under enabled padding leaves a record of exactly the block's
/// capacity: the bytes gathered, then the fill pattern, once for each run of
/// its length where the room that remained is a multiple of that length.
pub proof fn closing_line_tops_up(
    block: BlockView,
    close: Seq<char>,
    padding: PaddingView,
) -> (record: PatchRecordView)
    requires
        block.kind == BlockKind::Instructions,
        block.wf(),
        padding.enabled,
        padding.fill_pattern.len() > 0,
        closing(trim_start(close)),
    ensures
        transition(ScanView::InBlock(block), close, padding) == Ok::<StepView, HaikuErrorView>(
            StepView::Emit(ScanView::Scanning, record),
        ),
        record.offset == block.start_offset,
        record.payload.len() == block.capacity,
        record.payload.take(block.accumulated.len() as int) == block.accumulated,
        block.remaining() % (padding.fill_pattern.len() as int) == 0 ==> forall|index: int|
            0 <= index < block.remaining() / (padding.fill_pattern.len() as int)
                ==> #[trigger] group(
                record.payload,
                block.accumulated.len() as int,
                padding.fill_pattern.len() as int,
                index,
            ) == padding.fill_pattern,
{
    padding_tops_up(block, padding);
    closed_record(block, padding)
}

/// The empty block that the opening line `header` opens.
pub open spec fn opened(header: Seq<char>) -> BlockView {
    BlockView {
        kind: opening(trim_start(header))->Some_0,
        start_offset: patch_definition(trim_start(header))->Ok_0.0,
        capacity: patch_definition(trim_start(header))->Ok_0.1,
        accumulated: Seq::empty(),
    }
}

/// A run whose lines end inside a block fails with `UnterminatedBlock` at the
/// block's start offset, whatever the block holds.
pub proof fn open_block_at_the_end_fails<F: Fn(String) -> Option<Vec<u8>>>(
    encode: F,
    block: BlockView,
    records: Seq<PatchRecordView>,
    padding: PaddingView,
    result: Result<Seq<PatchRecordView>, HaikuErrorView>,
)
    requires
        scans_to(encode, ScanView::InBlock(block), records, Seq::empty(), padding, result),
    ensures
        result == Err::<Seq<PatchRecordView>, HaikuErrorView>(
            HaikuErrorView::UnterminatedBlock { start_offset: block.start_offset },
        ),
{
}

/// A line that opens a block is neither a comment nor a directive.
proof fn lemma_opening_is_content(content: Seq<char>)
    requires
        opening(content) is Some,
    ensures
        line_kind(content) == LineKind::Content,
{
    assert(content.subrange(0, 5)[0] == content[0]);
    assert(content.subrange(0, 6)[0] == content[0]);
}

} // verus!
