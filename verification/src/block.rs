//! An open block and the padding that tops it up when it closes.

use crate::ips::{PatchRecord, PatchRecordView};
use vstd::prelude::*;

verus! {

/// What a block holds.
#[derive(Clone, Copy, Debug, PartialEq, Eq, Structural)]
pub enum BlockKind {
    /// Bytes written out as hexadecimal tokens.
    Bytes,
    /// Instructions, one per line, that an assembler encodes.
    Instructions,
}

/// Whether an instruction block that is not full is topped up when it closes,
/// and with which bytes. The fill pattern is never empty.
#[derive(Debug, PartialEq, Eq)]
pub struct PaddingPolicy {
    enabled: bool,
    fill_pattern: Vec<u8>,
}

/// A `PaddingPolicy` with its pattern as a sequence.
pub struct PaddingView {
    pub enabled: bool,
    pub fill_pattern: Seq<u8>,
}

/// A block between its opening and its closing line. The bytes gathered and
/// the room that remains always add up to the capacity.
#[derive(Debug, PartialEq, Eq)]
pub struct BlockContext {
    kind: BlockKind,
    start_offset: u32,
    capacity: u32,
    remaining: u32,
    accumulated: Vec<u8>,
}

/// A `BlockContext` with its bytes as a sequence. The room that remains is
/// the capacity less the number of bytes.
pub struct BlockView {
    pub kind: BlockKind,
    pub start_offset: u32,
    pub capacity: u32,
    pub accumulated: Seq<u8>,
}

impl BlockView {
    /// Whether the bytes gathered are within the capacity.
    pub open spec fn wf(self) -> bool {
        self.accumulated.len() <= self.capacity
    }

    /// How many bytes the block can still take.
    pub open spec fn remaining(self) -> int {
        self.capacity - self.accumulated.len()
    }

    /// The offset at which the next byte will land.
    pub open spec fn write_offset(self) -> nat {
        self.start_offset as nat + self.accumulated.len()
    }

    /// The block after `bytes` were added to it.
    pub open spec fn with_bytes(self, bytes: Seq<u8>) -> BlockView {
        BlockView { accumulated: self.accumulated + bytes, ..self }
    }
}

/// The first `n` bytes of `pattern` repeated without end.
pub open spec fn fill(pattern: Seq<u8>, n: nat) -> Seq<u8> {
    Seq::new(n, |i: int| pattern[i % (pattern.len() as int)])
}

/// The bytes of a block that closes. An instruction block is topped up to its
/// capacity with the fill pattern where padding is enabled; where the room
/// that remains is no multiple of the pattern's length, the last repetition is
/// cut short. Any other block keeps the bytes it has.
pub open spec fn closed_payload(block: BlockView, padding: PaddingView) -> Seq<u8> {
    if block.kind == BlockKind::Instructions && padding.enabled && block.remaining() > 0 {
        block.accumulated + fill(padding.fill_pattern, block.remaining() as nat)
    } else {
        block.accumulated
    }
}

/// The record that a block leaves when it closes.
pub open spec fn closed_record(block: BlockView, padding: PaddingView) -> PatchRecordView {
    PatchRecordView { offset: block.start_offset, payload: closed_payload(block, padding) }
}

/// The `index`-th run of `length` bytes in `payload` after its first `start`
/// bytes.
pub open spec fn group(payload: Seq<u8>, start: int, length: int, index: int) -> Seq<u8> {
    payload.subrange(start + index * length, start + (index + 1) * length)
}

/// An instruction block that closes under enabled padding has exactly its
/// capacity in bytes, and begins with the bytes that were gathered. Where the
/// room that remained is a multiple of the pattern's length, what follows them
/// is the fill pattern, once for each run of that length.
pub proof fn padding_tops_up(block: BlockView, padding: PaddingView)
    requires
        block.kind == BlockKind::Instructions,
        block.wf(),
        padding.enabled,
        padding.fill_pattern.len() > 0,
    ensures
        closed_payload(block, padding).len() == block.capacity,
        closed_payload(block, padding).take(block.accumulated.len() as int) == block.accumulated,
        block.remaining() % (padding.fill_pattern.len() as int) == 0 ==> forall|index: int|
            0 <= index < block.remaining() / (padding.fill_pattern.len() as int)
                ==> #[trigger] group(
                closed_payload(block, padding),
                block.accumulated.len() as int,
                padding.fill_pattern.len() as int,
                index,
            ) == padding.fill_pattern,
{
    let payload = closed_payload(block, padding);
    let gathered = block.accumulated.len() as int;
    let length = padding.fill_pattern.len() as int;
    let room = block.remaining();
    assert(payload.take(gathered) == block.accumulated);
    if room % length == 0 {
        assert forall|index: int| 0 <= index < room / length implies #[trigger] group(
            payload,
            gathered,
            length,
            index,
        ) == padding.fill_pattern by {
            assert((index + 1) * length <= room && 0 <= index * length && (index + 1) * length
                == index * length + length) by (nonlinear_arith)
                requires
                    0 <= index < room / length,
                    room % length == 0,
                    length > 0,
            ;
            let run = group(payload, gathered, length, index);
            assert(run.len() == length);
            assert forall|j: int| 0 <= j < length implies run[j] == padding.fill_pattern[j] by {
                assert((index * length + j) % length == j) by (nonlinear_arith)
                    requires
                        0 <= j < length,
                        0 <= index,
                ;
                assert(run[j] == payload[gathered + index * length + j]);
            }
            assert(run == padding.fill_pattern);
        }
    }
}

impl View for PaddingPolicy {
    type V = PaddingView;

    closed spec fn view(&self) -> PaddingView {
        PaddingView { enabled: self.enabled, fill_pattern: self.fill_pattern@ }
    }
}

impl View for BlockContext {
    type V = BlockView;

    closed spec fn view(&self) -> BlockView {
        BlockView {
            kind: self.kind,
            start_offset: self.start_offset,
            capacity: self.capacity,
            accumulated: self.accumulated@,
        }
    }
}

impl PaddingPolicy {
    #[verifier::type_invariant]
    spec fn has_pattern(self) -> bool {
        self.fill_pattern@.len() > 0
    }

    /// A policy with the given pattern, or `None` for an empty pattern.
    pub fn new(enabled: bool, fill_pattern: Vec<u8>) -> (r: Option<PaddingPolicy>)
        ensures
            r is None <==> fill_pattern@.len() == 0,
            r matches Some(policy) ==> policy@ == (PaddingView {
                enabled,
                fill_pattern: fill_pattern@,
            }),
    {
        if fill_pattern.len() == 0 {
            None
        } else {
            Some(PaddingPolicy { enabled, fill_pattern })
        }
    }

    /// Padding with the no-op instruction of AArch64, enabled.
    pub fn aarch64() -> (r: PaddingPolicy)
        ensures
            r@ == (PaddingView {
                enabled: true,
                fill_pattern: seq![0x1fu8, 0x20u8, 0x03u8, 0xd5u8],
            }),
    {
        let mut fill_pattern: Vec<u8> = Vec::new();
        fill_pattern.push(0x1f);
        fill_pattern.push(0x20);
        fill_pattern.push(0x03);
        fill_pattern.push(0xd5);
        assert(fill_pattern@ == seq![0x1fu8, 0x20u8, 0x03u8, 0xd5u8]);
        PaddingPolicy { enabled: true, fill_pattern }
    }

    /// Whether blocks are topped up.
    pub fn enabled(&self) -> (r: bool)
        ensures
            r == self@.enabled,
    {
        self.enabled
    }

    /// The bytes that top a block up, repeated as often as needed.
    pub fn fill_pattern(&self) -> (r: &Vec<u8>)
        ensures
            r@ == self@.fill_pattern,
            r@.len() > 0,
    {
        proof {
            use_type_invariant(self);
        }
        &self.fill_pattern
    }
}

impl BlockContext {
    #[verifier::type_invariant]
    spec fn adds_up(self) -> bool {
        self.accumulated@.len() + self.remaining == self.capacity
    }

    /// An empty block of the given kind, start offset and capacity.
    pub fn open(kind: BlockKind, start_offset: u32, capacity: u32) -> (r: BlockContext)
        ensures
            r@ == (BlockView { kind, start_offset, capacity, accumulated: Seq::empty() }),
    {
        BlockContext { kind, start_offset, capacity, remaining: capacity, accumulated: Vec::new() }
    }

    /// What the block holds.
    pub fn kind(&self) -> (r: BlockKind)
        ensures
            r == self@.kind,
    {
        self.kind
    }

    /// The offset of the block's first byte.
    pub fn start_offset(&self) -> (r: u32)
        ensures
            r == self@.start_offset,
    {
        self.start_offset
    }

    /// How many bytes the block may hold.
    pub fn capacity(&self) -> (r: u32)
        ensures
            r == self@.capacity,
    {
        self.capacity
    }

    /// How many bytes the block can still take.
    pub fn remaining(&self) -> (r: u32)
        ensures
            r == self@.remaining(),
            self@.wf(),
    {
        proof {
            use_type_invariant(self);
        }
        self.remaining
    }

    /// The bytes gathered so far.
    pub fn accumulated(&self) -> (r: &Vec<u8>)
        ensures
            r@ == self@.accumulated,
            self@.wf(),
    {
        proof {
            use_type_invariant(self);
        }
        &self.accumulated
    }

    /// The offset at which the next byte will land.
    pub fn write_offset(&self) -> (r: u64)
        ensures
            r == self@.write_offset(),
            self@.wf(),
    {
        proof {
            use_type_invariant(self);
        }
        self.start_offset as u64 + self.accumulated.len() as u64
    }

    /// Adds `bytes` to the block if there is room for all of them. Without
    /// room the block is given up and `None` comes back.
    pub fn append(self, bytes: Vec<u8>) -> (r: Option<BlockContext>)
        ensures
            self@.wf(),
            r is Some <==> bytes@.len() <= self@.remaining(),
            r matches Some(block) ==> block@ == self@.with_bytes(bytes@),
    {
        proof {
            use_type_invariant(&self);
        }
        if bytes.len() > self.remaining as usize {
            return None;
        }
        let BlockContext { kind, start_offset, capacity, remaining, accumulated } = self;
        let mut accumulated = accumulated;
        let mut bytes = bytes;
        let added: u32 = bytes.len() as u32;
        accumulated.append(&mut bytes);
        let remaining: u32 = remaining - added;
        Some(BlockContext { kind, start_offset, capacity, remaining, accumulated })
    }

    /// Closes the block and hands out its record, topped up as `padding` says.
    pub fn close(self, padding: &PaddingPolicy) -> (r: PatchRecord)
        ensures
            self@.wf(),
            r@ == closed_record(self@, padding@),
    {
        proof {
            use_type_invariant(&self);
        }
        let BlockContext { kind, start_offset, capacity, remaining, accumulated } = self;
        let mut payload = accumulated;
        let pad: bool = match kind {
            BlockKind::Instructions => padding.enabled(),
            BlockKind::Bytes => false,
        };
        if pad && remaining > 0 {
            let pattern = padding.fill_pattern();
            let ghost gathered = payload@;
            let mut i: u32 = 0;
            while i < remaining
                invariant
                    i <= remaining,
                    pattern@.len() > 0,
                    payload@ == gathered + fill(pattern@, i as nat),
                decreases remaining - i,
            {
                payload.push(pattern[i as usize % pattern.len()]);
                assert(fill(pattern@, (i + 1) as nat) == fill(pattern@, i as nat).push(
                    pattern@[i as int % (pattern@.len() as int)],
                ));
                i = i + 1;
            }
        }
        PatchRecord { offset: start_offset, payload }
    }
}

} // verus!
