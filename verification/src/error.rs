//! The failures of a run, each with the place it came from, and their messages.

use crate::hex::{prefixed_hex, push_prefixed_hex, NumberError};
use vstd::prelude::*;
use vstd::string::*;

verus! {

/// What in the configuration was not understood.
#[derive(Debug, PartialEq, Eq)]
pub enum ConfigFault {
    /// The architecture's name is none of the known ones.
    Architecture(String),
    /// The address width is none of 16, 32 and 64.
    AddressSize(u8),
}

/// What did not fit into a block any more.
#[derive(Debug, PartialEq, Eq)]
pub enum Offender {
    /// A byte of a byte list.
    Byte(u8),
    /// The bytes of an instruction, named by its line.
    Instruction(String),
}

/// Why a run stopped.
#[derive(Debug, PartialEq, Eq)]
pub enum HaikuError {
    /// The configuration names an unknown architecture or address width.
    ConfigError { fault: ConfigFault },
    /// A line that opens no block stands outside every block.
    UnexpectedToken { line: String },
    /// The offset or the capacity of a block's opening line is no number of at most 32 bits.
    InvalidHeader { line: String, reason: NumberError },
    /// A token of a byte list is no byte of one or two hexadecimal digits.
    InvalidByte { start_offset: u32, token: String },
    /// A block would hold more bytes than its capacity.
    CapacityExceeded { start_offset: u32, offender: Offender },
    /// The assembler turned an instruction down.
    AssembleError { start_offset: u32, line: String },
    /// A record's offset or length is too large for the IPS format.
    FormatLimitExceeded { index: usize, offset: u32, length: usize },
    /// The input ended inside a block.
    UnterminatedBlock { start_offset: u32 },
}

/// A `ConfigFault` with its text as a sequence of characters.
pub enum ConfigFaultView {
    Architecture(Seq<char>),
    AddressSize(u8),
}

/// An `Offender` with its text as a sequence of characters.
pub enum OffenderView {
    Byte(u8),
    Instruction(Seq<char>),
}

/// A `HaikuError` with its texts as sequences of characters.
pub enum HaikuErrorView {
    ConfigError { fault: ConfigFaultView },
    UnexpectedToken { line: Seq<char> },
    InvalidHeader { line: Seq<char>, reason: NumberError },
    InvalidByte { start_offset: u32, token: Seq<char> },
    CapacityExceeded { start_offset: u32, offender: OffenderView },
    AssembleError { start_offset: u32, line: Seq<char> },
    FormatLimitExceeded { index: nat, offset: u32, length: nat },
    UnterminatedBlock { start_offset: u32 },
}

impl View for ConfigFault {
    type V = ConfigFaultView;

    open spec fn view(&self) -> ConfigFaultView {
        match self {
            ConfigFault::Architecture(name) => ConfigFaultView::Architecture(name@),
            ConfigFault::AddressSize(size) => ConfigFaultView::AddressSize(*size),
        }
    }
}

impl View for Offender {
    type V = OffenderView;

    open spec fn view(&self) -> OffenderView {
        match self {
            Offender::Byte(b) => OffenderView::Byte(*b),
            Offender::Instruction(line) => OffenderView::Instruction(line@),
        }
    }
}

impl View for HaikuError {
    type V = HaikuErrorView;

    open spec fn view(&self) -> HaikuErrorView {
        match self {
            HaikuError::ConfigError { fault } => HaikuErrorView::ConfigError { fault: fault@ },
            HaikuError::UnexpectedToken { line } => HaikuErrorView::UnexpectedToken { line: line@ },
            HaikuError::InvalidHeader { line, reason } => HaikuErrorView::InvalidHeader {
                line: line@,
                reason: *reason,
            },
            HaikuError::InvalidByte { start_offset, token } => HaikuErrorView::InvalidByte {
                start_offset: *start_offset,
                token: token@,
            },
            HaikuError::CapacityExceeded {
                start_offset,
                offender,
            } => HaikuErrorView::CapacityExceeded {
                start_offset: *start_offset,
                offender: offender@,
            },
            HaikuError::AssembleError { start_offset, line } => HaikuErrorView::AssembleError {
                start_offset: *start_offset,
                line: line@,
            },
            HaikuError::FormatLimitExceeded {
                index,
                offset,
                length,
            } => HaikuErrorView::FormatLimitExceeded {
                index: *index as nat,
                offset: *offset,
                length: *length as nat,
            },
            HaikuError::UnterminatedBlock { start_offset } => HaikuErrorView::UnterminatedBlock {
                start_offset: *start_offset,
            },
        }
    }
}

/// The sentence that tells why a run of characters is no number.
pub open spec fn number_message(reason: NumberError) -> Seq<char> {
    match reason {
        NumberError::Empty => "cannot parse integer from empty string"@,
        NumberError::InvalidDigit => "invalid digit found in string"@,
        NumberError::TooLarge => "number too large to fit in target type"@,
    }
}

impl HaikuErrorView {
    /// The sentence that reports this failure.
    pub open spec fn message(self) -> Seq<char> {
        match self {
            HaikuErrorView::ConfigError { fault } => match fault {
                ConfigFaultView::Architecture(_) => "invalid architecture"@,
                ConfigFaultView::AddressSize(_) => "invalid address size mode"@,
            },
            HaikuErrorView::UnexpectedToken { line } => "Unexpected token on line "@ + line,
            HaikuErrorView::InvalidHeader { line, reason } => number_message(reason),
            HaikuErrorView::InvalidByte { start_offset, token } =>
                "Invalid digit in byte patch for haiku @ "@ + prefixed_hex(start_offset as nat)
                    + " byte "@ + token,
            HaikuErrorView::CapacityExceeded { start_offset, offender } => match offender {
                OffenderView::Byte(b) => "Maximum size exceeded for haiku @ "@ + prefixed_hex(
                    start_offset as nat,
                ) + " with byte "@ + prefixed_hex(b as nat),
                OffenderView::Instruction(line) => "Max length exceeded for haiku @ "@
                    + prefixed_hex(start_offset as nat) + " on instruction ["@ + line + "]"@,
            },
            HaikuErrorView::AssembleError { start_offset, line } => "Failed to assemble ["@ + line
                + "]"@,
            HaikuErrorView::FormatLimitExceeded { index, offset, length } =>
                "IPS limits exceeded by the patch @ "@ + prefixed_hex(offset as nat)
                    + " of length "@ + prefixed_hex(length),
            HaikuErrorView::UnterminatedBlock { start_offset } => "Unterminated haiku @ "@
                + prefixed_hex(start_offset as nat),
        }
    }
}

/// The sentence that tells why a run of characters is no number.
pub fn number_error_text(reason: NumberError) -> (r: &'static str)
    ensures
        r@ == number_message(reason),
{
    match reason {
        NumberError::Empty => "cannot parse integer from empty string",
        NumberError::InvalidDigit => "invalid digit found in string",
        NumberError::TooLarge => "number too large to fit in target type",
    }
}

impl HaikuError {
    /// The sentence that reports this failure.
    pub fn to_string(&self) -> (r: String)
        ensures
            r@ == self@.message(),
    {
        let mut out = String::new();
        match self {
            HaikuError::ConfigError { fault } => match fault {
                ConfigFault::Architecture(_) => {
                    out.append("invalid architecture");
                },
                ConfigFault::AddressSize(_) => {
                    out.append("invalid address size mode");
                },
            },
            HaikuError::UnexpectedToken { line } => {
                out.append("Unexpected token on line ");
                out.append(line.as_str());
            },
            HaikuError::InvalidHeader { line, reason } => {
                out.append(number_error_text(*reason));
            },
            HaikuError::InvalidByte { start_offset, token } => {
                out.append("Invalid digit in byte patch for haiku @ ");
                push_prefixed_hex(&mut out, *start_offset as u64);
                out.append(" byte ");
                out.append(token.as_str());
            },
            HaikuError::CapacityExceeded { start_offset, offender } => match offender {
                Offender::Byte(b) => {
                    out.append("Maximum size exceeded for haiku @ ");
                    push_prefixed_hex(&mut out, *start_offset as u64);
                    out.append(" with byte ");
                    push_prefixed_hex(&mut out, *b as u64);
                },
                Offender::Instruction(line) => {
                    out.append("Max length exceeded for haiku @ ");
                    push_prefixed_hex(&mut out, *start_offset as u64);
                    out.append(" on instruction [");
                    out.append(line.as_str());
                    out.append("]");
                },
            },
            HaikuError::AssembleError { start_offset, line } => {
                out.append("Failed to assemble [");
                out.append(line.as_str());
                out.append("]");
            },
            HaikuError::FormatLimitExceeded { index, offset, length } => {
                out.append("IPS limits exceeded by the patch @ ");
                push_prefixed_hex(&mut out, *offset as u64);
                out.append(" of length ");
                push_prefixed_hex(&mut out, *length as u64);
            },
            HaikuError::UnterminatedBlock { start_offset } => {
                out.append("Unterminated haiku @ ");
                push_prefixed_hex(&mut out, *start_offset as u64);
            },
        }
        assert(out@ =~= self@.message());
        out
    }
}

} // verus!
