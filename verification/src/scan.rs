//! The scan of a patch definition, line by line.
//!
//! The scan is either outside every block or inside one. Each line moves it
//! on: a line may be passed over, open a block, add bytes to the open block,
//! ask for an instruction to be assembled, or close the block, which leaves a
//! record. Assembling is not done here: the scan hands out the text to
//! assemble and takes the bytes back.

use crate::block::{closed_record, BlockContext, BlockKind, BlockView, PaddingPolicy, PaddingView};
use crate::error::{HaikuError, HaikuErrorView, Offender, OffenderView};
use crate::ips::{PatchRecord, PatchRecordView};
use crate::macros::{get_macro, macro_expansion};
use crate::parse::{
    byte_list, byte_list_accepts, parse_byte_list, parse_patch_definition, patch_definition,
};
use crate::text::{
    has_prefix, is_space, is_whitespace, skip_spaces, starts_with, to_chars, tokens, trim_start,
};
use vstd::pervasive::unreached;
use vstd::prelude::*;
use vstd::string::*;

verus! {

/// What a line is to the scan, whatever state the scan is in.
#[derive(Clone, Copy, Debug, PartialEq, Eq, Structural)]
pub enum LineKind {
    /// Nothing but whitespace, or a comment after `//`: passed over.
    Comment,
    /// A script directive after `#`: passed over.
    Directive,
    /// Anything else.
    Content,
}

/// What a line without leading whitespace is to the scan.
pub open spec fn line_kind(content: Seq<char>) -> LineKind {
    if content.len() == 0 || (content.len() >= 2 && content[0] == '/' && content[1] == '/') {
        LineKind::Comment
    } else if content[0] == '#' {
        LineKind::Directive
    } else {
        LineKind::Content
    }
}

/// The word that opens a block of bytes.
pub open spec fn bytes_word() -> Seq<char> {
    seq!['b', 'y', 't', 'e', 's']
}

/// The word that opens a block of instructions.
pub open spec fn instrs_word() -> Seq<char> {
    seq!['i', 'n', 's', 't', 'r', 's']
}

/// Whether `content` begins with `word` and whitespace after it.
pub open spec fn begins_with_word(content: Seq<char>, word: Seq<char>) -> bool {
    has_prefix(content, word) && content.len() > word.len() && is_space(content[word.len() as int])
}

/// The kind of block that a line opens, if it opens one.
pub open spec fn opening(content: Seq<char>) -> Option<BlockKind> {
    if begins_with_word(content, bytes_word()) {
        Some(BlockKind::Bytes)
    } else if begins_with_word(content, instrs_word()) {
        Some(BlockKind::Instructions)
    } else {
        None
    }
}

/// Whether a line closes the open block.
pub open spec fn closing(content: Seq<char>) -> bool {
    content.len() > 0 && content[0] == '}'
}

/// Where the scan is: outside every block, or inside the one that is open.
#[derive(Debug, PartialEq, Eq)]
pub enum ScanState {
    Scanning,
    InBlock(BlockContext),
}

/// A `ScanState` over the view of its block.
pub enum ScanView {
    Scanning,
    InBlock(BlockView),
}

/// An instruction on its way through the assembler: the block it belongs to,
/// its line, and the text to assemble, which is the line or what the line
/// expands to.
#[derive(Debug, PartialEq, Eq)]
pub struct Pending {
    pub block: BlockContext,
    pub line: String,
    pub mnemonic: String,
}

/// A `Pending` over views.
pub struct PendingView {
    pub block: BlockView,
    pub line: Seq<char>,
    pub mnemonic: Seq<char>,
}

/// What a line did to the scan.
#[derive(Debug, PartialEq, Eq)]
pub enum Step {
    /// The scan goes on in the given state.
    Continue(ScanState),
    /// A block closed and left a record; the scan goes on in the given state.
    Emit(ScanState, PatchRecord),
    /// An instruction is to be assembled; `resolve` takes its bytes and gives
    /// the state in which the scan goes on.
    Assemble(Pending),
}

/// A `Step` over views.
pub enum StepView {
    Continue(ScanView),
    Emit(ScanView, PatchRecordView),
    Assemble(PendingView),
}

impl View for ScanState {
    type V = ScanView;

    open spec fn view(&self) -> ScanView {
        match self {
            ScanState::Scanning => ScanView::Scanning,
            ScanState::InBlock(block) => ScanView::InBlock(block@),
        }
    }
}

impl View for Pending {
    type V = PendingView;

    open spec fn view(&self) -> PendingView {
        PendingView { block: self.block@, line: self.line@, mnemonic: self.mnemonic@ }
    }
}

impl View for Step {
    type V = StepView;

    open spec fn view(&self) -> StepView {
        match self {
            Step::Continue(state) => StepView::Continue(state@),
            Step::Emit(state, record) => StepView::Emit(state@, record@),
            Step::Assemble(pending) => StepView::Assemble(pending@),
        }
    }
}

/// The bytes that an assembler gave, as a sequence.
pub open spec fn encoded_view(encoded: Option<Vec<u8>>) -> Option<Seq<u8>> {
    match encoded {
        Some(bytes) => Some(bytes@),
        None => None,
    }
}

/// The text to assemble for an instruction line that lands at `offset`: what
/// the line expands to if it is a pseudo-instruction, else the line itself.
pub open spec fn mnemonic_of(content: Seq<char>, offset: nat) -> Seq<char> {
    match macro_expansion(content, offset) {
        Some(text) => text,
        None => content,
    }
}

/// What a line without leading whitespace does to the scan outside a block:
/// it opens a block, or it is out of place.
pub open spec fn transition_outside(content: Seq<char>) -> Result<StepView, HaikuErrorView> {
    match opening(content) {
        None => Err(HaikuErrorView::UnexpectedToken { line: content }),
        Some(kind) => match patch_definition(content) {
            Err(e) => Err(e),
            Ok(definition) => Ok(
                StepView::Continue(
                    ScanView::InBlock(
                        BlockView {
                            kind,
                            start_offset: definition.0,
                            capacity: definition.1,
                            accumulated: Seq::empty(),
                        },
                    ),
                ),
            ),
        },
    }
}

/// What a line without leading whitespace does to the scan inside a block:
/// it closes the block, adds its bytes to it, or has an instruction assembled.
pub open spec fn transition_inside(
    block: BlockView,
    content: Seq<char>,
    padding: PaddingView,
) -> Result<StepView, HaikuErrorView> {
    if closing(content) {
        Ok(StepView::Emit(ScanView::Scanning, closed_record(block, padding)))
    } else {
        match block.kind {
            BlockKind::Bytes => match byte_list(
                tokens(content),
                block.start_offset,
                block.remaining() as nat,
            ) {
                Err(e) => Err(e),
                Ok(bytes) => Ok(StepView::Continue(ScanView::InBlock(block.with_bytes(bytes)))),
            },
            BlockKind::Instructions => Ok(
                StepView::Assemble(
                    PendingView {
                        block,
                        line: content,
                        mnemonic: mnemonic_of(content, block.write_offset()),
                    },
                ),
            ),
        }
    }
}

/// What the line `raw` does to the scan in `state`. Comments and directives
/// leave the state as it is; any other line counts without its leading
/// whitespace.
pub open spec fn transition(state: ScanView, raw: Seq<char>, padding: PaddingView) -> Result<
    StepView,
    HaikuErrorView,
> {
    let content = trim_start(raw);
    match line_kind(content) {
        LineKind::Comment => Ok(StepView::Continue(state)),
        LineKind::Directive => Ok(StepView::Continue(state)),
        LineKind::Content => match state {
            ScanView::Scanning => transition_outside(content),
            ScanView::InBlock(block) => transition_inside(block, content, padding),
        },
    }
}

/// The state after the assembler answered for a pending instruction. Without
/// bytes the instruction was turned down; bytes that have no room in the block
/// exceed its capacity; else they are added to the block.
pub open spec fn resolution(pending: PendingView, encoded: Option<Seq<u8>>) -> Result<
    ScanView,
    HaikuErrorView,
> {
    match encoded {
        None => Err(
            HaikuErrorView::AssembleError {
                start_offset: pending.block.start_offset,
                line: pending.line,
            },
        ),
        Some(bytes) => if bytes.len() <= pending.block.remaining() {
            Ok(ScanView::InBlock(pending.block.with_bytes(bytes)))
        } else {
            Err(
                HaikuErrorView::CapacityExceeded {
                    start_offset: pending.block.start_offset,
                    offender: OffenderView::Instruction(pending.line),
                },
            )
        },
    }
}

/// Whether the input may end in `state`: only outside every block.
pub open spec fn completion(state: ScanView) -> Result<(), HaikuErrorView> {
    match state {
        ScanView::Scanning => Ok(()),
        ScanView::InBlock(block) => Err(
            HaikuErrorView::UnterminatedBlock { start_offset: block.start_offset },
        ),
    }
}

/// Tells what a raw line is to the scan, and hands out the line without its
/// leading whitespace.
pub fn classify_line<'a>(raw: &'a str) -> (r: (LineKind, &'a str))
    ensures
        r.1@ == trim_start(raw@),
        r.0 == line_kind(r.1@),
{
    let chars = to_chars(raw);
    let start = skip_spaces(&chars, 0);
    let content = raw.substring_char(start, chars.len());
    let kind = if start == chars.len() {
        LineKind::Comment
    } else if chars.len() - start >= 2 && chars[start] == '/' && chars[start + 1] == '/' {
        LineKind::Comment
    } else if chars[start] == '#' {
        LineKind::Directive
    } else {
        LineKind::Content
    };
    (kind, content)
}

/// Tells which kind of block the characters open, if any.
fn opening_kind(content: &Vec<char>) -> (r: Option<BlockKind>)
    ensures
        r == opening(content@),
{
    let bytes: Vec<char> = vec!['b', 'y', 't', 'e', 's'];
    let instrs: Vec<char> = vec!['i', 'n', 's', 't', 'r', 's'];
    assert(bytes@ == bytes_word());
    assert(instrs@ == instrs_word());
    if starts_with(content, &bytes) && content.len() > 5 && is_whitespace(content[5]) {
        Some(BlockKind::Bytes)
    } else if starts_with(content, &instrs) && content.len() > 6 && is_whitespace(content[6]) {
        Some(BlockKind::Instructions)
    } else {
        None
    }
}

/// Moves the scan over one raw line.
pub fn step(state: ScanState, raw_line: &str, padding: &PaddingPolicy) -> (r: Result<
    Step,
    HaikuError,
>)
    ensures
        match r {
            Ok(step) => transition(state@, raw_line@, padding@) == Ok::<StepView, HaikuErrorView>(
                step@,
            ),
            Err(e) => transition(state@, raw_line@, padding@) == Err::<StepView, HaikuErrorView>(
                e@,
            ),
        },
{
    let (kind, line) = classify_line(raw_line);
    match kind {
        LineKind::Comment => Ok(Step::Continue(state)),
        LineKind::Directive => Ok(Step::Continue(state)),
        LineKind::Content => match state {
            ScanState::Scanning => {
                let chars = to_chars(line);
                match opening_kind(&chars) {
                    None => Err(HaikuError::UnexpectedToken { line: line.to_owned() }),
                    Some(kind) => {
                        let (start_offset, capacity) = parse_patch_definition(line)?;
                        let block = BlockContext::open(kind, start_offset, capacity);
                        Ok(Step::Continue(ScanState::InBlock(block)))
                    },
                }
            },
            ScanState::InBlock(block) => {
                if line.get_char(0) == '}' {
                    let record = block.close(padding);
                    Ok(Step::Emit(ScanState::Scanning, record))
                } else {
                    match block.kind() {
                        BlockKind::Bytes => {
                            let bytes = parse_byte_list(
                                line,
                                block.start_offset(),
                                block.remaining(),
                            )?;
                            proof {
                                byte_list_accepts(
                                    tokens(line@),
                                    block@.start_offset,
                                    block@.remaining() as nat,
                                );
                            }
                            match block.append(bytes) {
                                Some(block) => Ok(Step::Continue(ScanState::InBlock(block))),
                                None => unreached(),
                            }
                        },
                        BlockKind::Instructions => {
                            let mnemonic = match get_macro(line, block.write_offset()) {
                                Some(text) => text,
                                None => line.to_owned(),
                            };
                            Ok(Step::Assemble(Pending { block, line: line.to_owned(), mnemonic }))
                        },
                    }
                }
            },
        },
    }
}

/// Takes the assembler's answer for a pending instruction: the bytes it
/// encoded, or `None` where it turned the instruction down.
pub fn resolve(pending: Pending, encoded: Option<Vec<u8>>) -> (r: Result<ScanState, HaikuError>)
    ensures
        match r {
            Ok(state) => resolution(pending@, encoded_view(encoded)) == Ok::<
                ScanView,
                HaikuErrorView,
            >(state@),
            Err(e) => resolution(pending@, encoded_view(encoded)) == Err::<
                ScanView,
                HaikuErrorView,
            >(e@),
        },
{
    let Pending { block, line, mnemonic } = pending;
    let start_offset = block.start_offset();
    match encoded {
        None => Err(HaikuError::AssembleError { start_offset, line }),
        Some(bytes) => match block.append(bytes) {
            Some(block) => Ok(ScanState::InBlock(block)),
            None => Err(
                HaikuError::CapacityExceeded {
                    start_offset,
                    offender: Offender::Instruction(line),
                },
            ),
        },
    }
}

/// Ends the scan: the input may end only outside every block.
pub fn finish(state: &ScanState) -> (r: Result<(), HaikuError>)
    ensures
        match r {
            Ok(_) => completion(state@) is Ok,
            Err(e) => completion(state@) == Err::<(), HaikuErrorView>(e@),
        },
{
    match state {
        ScanState::Scanning => Ok(()),
        ScanState::InBlock(block) => Err(
            HaikuError::UnterminatedBlock { start_offset: block.start_offset() },
        ),
    }
}

} // verus!
