//! Turns patch definitions written as text into records of bytes at offsets,
//! and those records into an IPS patch.
//!
//! A patch definition, a *haiku*, is read line by line. A line that is empty
//! or begins with `//` is a comment, and one that begins with `#` is a script
//! directive; both are passed over. All other lines belong to blocks:
//!
//! ```text
//! bytes 304F1 8 {
//!     00 43 11 FF
//!     31 24 31 12
//! }
//! instrs 145b78 2F {
//!     mov x0, x1
//!     !call #0x13cc8c
//! }
//! ```
//!
//! A block opens with its kind, its start offset and its capacity, both in
//! hexadecimal digits without a sign, and closes with `}`. A block of bytes
//! holds bytes of one or two hexadecimal digits each.
//! A block of instructions holds one instruction per line, which an assembler
//! encodes; `!call` and `!jump` stand for branches to an absolute address. An
//! instruction block that is not full may be topped up with a fill pattern.
//! Each block leaves one record, and `ips::generate_ips` encodes the records.
//!
//! The assembler is no part of this crate. `parse::parse_haiku` takes it as a
//! function from text to bytes, and `scan::step` with `scan::resolve` let a
//! caller run the scan line by line and do the assembling in between.

pub mod arch;
pub mod args;
pub mod block;
pub mod error;
pub mod hex;
pub mod ips;
pub mod macros;
pub mod parse;
pub mod runs;
pub mod scan;
pub mod text;
