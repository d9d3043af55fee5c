//! What a run is told on the command line, and the assembler's configuration
//! that follows from it.

use crate::arch::{architecture_of, get_architecture, get_mode_flags, mode_flags, AssemblerConfig};
use crate::error::{ConfigFaultView, HaikuError, HaikuErrorView};
use vstd::prelude::*;
use vstd::string::*;

verus! {

/// The arguments of a run.
#[derive(Debug, PartialEq, Eq)]
pub struct Args {
    /// Input file
    pub haiku_name: String,
    /// Generated output file
    pub ips_name: String,
    /// Assembler backend to use
    pub architecture: String,
    /// Endianness of the assembler's output; byte patches are unaffected.
    pub little_endian: bool,
    /// n-bit address. Valid values: 16, 32, 64 (optional)
    pub address_size: Option<u8>,
}

/// The configuration for an architecture's name, a byte order and an address
/// width. An unknown architecture is reported before an unknown width.
pub open spec fn config_of(
    architecture: Seq<char>,
    little_endian: bool,
    address_size: Option<u8>,
) -> Result<AssemblerConfig, HaikuErrorView> {
    match architecture_of(architecture) {
        None => Err(
            HaikuErrorView::ConfigError { fault: ConfigFaultView::Architecture(architecture) },
        ),
        Some(arch) => match mode_flags(address_size, little_endian) {
            None => Err(
                HaikuErrorView::ConfigError {
                    fault: ConfigFaultView::AddressSize(address_size.unwrap()),
                },
            ),
            Some(mode) => Ok(AssemblerConfig { architecture: arch, mode }),
        },
    }
}

impl Args {
    /// The assembler's configuration for these arguments.
    pub fn assembler_config(&self) -> (r: Result<AssemblerConfig, HaikuError>)
        ensures
            match r {
                Ok(config) => config_of(self.architecture@, self.little_endian, self.address_size)
                    == Ok::<AssemblerConfig, HaikuErrorView>(config),
                Err(e) => config_of(self.architecture@, self.little_endian, self.address_size)
                    == Err::<AssemblerConfig, HaikuErrorView>(e@),
            },
    {
        let architecture = get_architecture(self.architecture.as_str())?;
        let mode = get_mode_flags(self.address_size, self.little_endian)?;
        Ok(AssemblerConfig { architecture, mode })
    }
}

} // verus!
