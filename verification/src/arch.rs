//! The assembler's configuration: which architecture it encodes for, and in
//! which mode.
//!
//! A mode is a set of flags in one `u32`, with the values that the Keystone
//! engine gives them.

use crate::error::{ConfigFault, ConfigFaultView, HaikuError, HaikuErrorView};
use crate::text::{text_is, to_chars};
use vstd::prelude::*;
use vstd::string::*;

verus! {

/// The architectures that the assembler knows.
#[derive(Clone, Copy, Debug, PartialEq, Eq, Structural)]
pub enum Arch {
    ARM,
    ARM64,
    MIPS,
    X86,
    PPC,
    SPARC,
    SYSTEMZ,
    HEXAGON,
    MAX,
}

/// Mode flag: little-endian encoding. It has no bit of its own.
pub const MODE_LITTLE_ENDIAN: u32 = 0;

/// Mode flag: big-endian encoding.
pub const MODE_BIG_ENDIAN: u32 = 0x4000_0000;

/// Mode flag: 16-bit addresses.
pub const MODE_16: u32 = 2;

/// Mode flag: 32-bit addresses.
pub const MODE_32: u32 = 4;

/// Mode flag: 64-bit addresses.
pub const MODE_64: u32 = 8;

/// An architecture with a mode, as the assembler is opened with.
#[derive(Clone, Copy, Debug, PartialEq, Eq, Structural)]
pub struct AssemblerConfig {
    pub architecture: Arch,
    pub mode: u32,
}

/// The architecture that `name` stands for.
pub open spec fn architecture_of(name: Seq<char>) -> Option<Arch> {
    if name == "arm"@ {
        Some(Arch::ARM)
    } else if name == "aarch64"@ {
        Some(Arch::ARM64)
    } else if name == "x86"@ {
        Some(Arch::X86)
    } else if name == "mips"@ {
        Some(Arch::MIPS)
    } else if name == "ppc"@ {
        Some(Arch::PPC)
    } else if name == "sparc"@ {
        Some(Arch::SPARC)
    } else if name == "systemz"@ {
        Some(Arch::SYSTEMZ)
    } else if name == "hexagon"@ {
        Some(Arch::HEXAGON)
    } else if name == "max"@ {
        Some(Arch::MAX)
    } else {
        None
    }
}

/// The flag of the byte order: little-endian for `true`, big-endian for
/// `false`.
pub open spec fn endian_flag(little_endian: bool) -> u32 {
    if little_endian {
        MODE_LITTLE_ENDIAN
    } else {
        MODE_BIG_ENDIAN
    }
}

/// The flag of an address width of 16, 32 or 64 bits.
pub open spec fn width_flag(address_size: u8) -> Option<u32> {
    if address_size == 16 {
        Some(MODE_16)
    } else if address_size == 32 {
        Some(MODE_32)
    } else if address_size == 64 {
        Some(MODE_64)
    } else {
        None
    }
}

/// The mode for a byte order and, where one is given, an address width: the
/// flags of both together.
pub open spec fn mode_flags(address_size: Option<u8>, little_endian: bool) -> Option<u32> {
    match address_size {
        None => Some(endian_flag(little_endian)),
        Some(size) => match width_flag(size) {
            Some(flag) => Some(endian_flag(little_endian) | flag),
            None => None,
        },
    }
}

/// Given a string, get the architecture it names.
pub fn get_architecture(arch: &str) -> (r: Result<Arch, HaikuError>)
    ensures
        match r {
            Ok(a) => architecture_of(arch@) == Some(a),
            Err(e) => architecture_of(arch@) is None && e@ == (HaikuErrorView::ConfigError {
                fault: ConfigFaultView::Architecture(arch@),
            }),
        },
{
    let name = to_chars(arch);
    if text_is(&name, "arm") {
        Ok(Arch::ARM)
    } else if text_is(&name, "aarch64") {
        Ok(Arch::ARM64)
    } else if text_is(&name, "x86") {
        Ok(Arch::X86)
    } else if text_is(&name, "mips") {
        Ok(Arch::MIPS)
    } else if text_is(&name, "ppc") {
        Ok(Arch::PPC)
    } else if text_is(&name, "sparc") {
        Ok(Arch::SPARC)
    } else if text_is(&name, "systemz") {
        Ok(Arch::SYSTEMZ)
    } else if text_is(&name, "hexagon") {
        Ok(Arch::HEXAGON)
    } else if text_is(&name, "max") {
        Ok(Arch::MAX)
    } else {
        Err(HaikuError::ConfigError { fault: ConfigFault::Architecture(arch.to_owned()) })
    }
}

/// Given an address width and a byte order, return the mode's flags.
/// `endianness` is `true` for little and `false` for big.
pub fn get_mode_flags(address_size: Option<u8>, endianness: bool) -> (r: Result<u32, HaikuError>)
    ensures
        match r {
            Ok(mode) => mode_flags(address_size, endianness) == Some(mode),
            Err(e) => {
                &&& mode_flags(address_size, endianness) is None
                &&& address_size matches Some(size)
                &&& e@ == (HaikuErrorView::ConfigError {
                    fault: ConfigFaultView::AddressSize(size),
                })
            },
        },
{
    let mode: u32 = if endianness {
        MODE_LITTLE_ENDIAN
    } else {
        MODE_BIG_ENDIAN
    };
    match address_size {
        None => Ok(mode),
        Some(size) => {
            let bit_mode: u32 = if size == 16 {
                MODE_16
            } else if size == 32 {
                MODE_32
            } else if size == 64 {
                MODE_64
            } else {
                return Err(HaikuError::ConfigError { fault: ConfigFault::AddressSize(size) });
            };
            Ok(mode | bit_mode)
        },
    }
}

/// Each flag of a mode can be read back from it: the width's flag under the
/// three width flags, and the byte order under the big-endian flag.
pub proof fn mode_flags_read_back(address_size: Option<u8>, little_endian: bool)
    requires
        mode_flags(address_size, little_endian) is Some,
    ensures
        ({
            let mode = mode_flags(address_size, little_endian)->Some_0;
            &&& mode & MODE_BIG_ENDIAN == endian_flag(little_endian)
            &&& mode & (MODE_16 | MODE_32 | MODE_64) == match address_size {
                Some(size) => width_flag(size)->Some_0,
                None => 0u32,
            }
        }),
{
    assert(0u32 & 0x4000_0000u32 == 0u32) by (bit_vector);
    assert(0x4000_0000u32 & 0x4000_0000u32 == 0x4000_0000u32) by (bit_vector);
    assert(0u32 & (2u32 | 4u32 | 8u32) == 0u32) by (bit_vector);
    assert(0x4000_0000u32 & (2u32 | 4u32 | 8u32) == 0u32) by (bit_vector);
    assert(forall|e: u32, w: u32|
        (e == 0 || e == 0x4000_0000) && (w == 2 || w == 4 || w == 8) ==> #[trigger] ((e | w)
            & 0x4000_0000u32) == e && (e | w) & (2u32 | 4u32 | 8u32) == w) by (bit_vector);
}

} // verus!
