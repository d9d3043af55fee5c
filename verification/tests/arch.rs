use haiku::arch::{
    get_architecture, get_mode_flags, Arch, MODE_16, MODE_32, MODE_64, MODE_BIG_ENDIAN,
    MODE_LITTLE_ENDIAN,
};
use haiku::args::Args;
use haiku::error::{ConfigFault, HaikuError};

#[test]
fn properly_gets_all_architectures() {
    let tests = [
        ("arm", Arch::ARM),
        ("aarch64", Arch::ARM64),
        ("x86", Arch::X86),
        ("mips", Arch::MIPS),
        ("ppc", Arch::PPC),
        ("sparc", Arch::SPARC),
        ("systemz", Arch::SYSTEMZ),
        ("hexagon", Arch::HEXAGON),
        ("max", Arch::MAX),
    ];

    for test in tests {
        let result = get_architecture(test.0).unwrap();
        assert_eq!(result, test.1);
    }
}

#[test]
fn will_error_on_invalid_architecture() {
    let test = "aarch65";
    let result = get_architecture(test);

    assert!(result.is_err());
    assert_eq!(result.unwrap_err().to_string(), "invalid architecture");
}

#[test]
fn sets_correct_bitflags_for_mode() {
    let address_size = Some(16 as u8);
    let mode = get_mode_flags(address_size, false).unwrap();

    assert_eq!(mode & MODE_16, MODE_16);
    assert_eq!(mode & MODE_LITTLE_ENDIAN, MODE_LITTLE_ENDIAN);
}

#[test]
fn invalid_architecture_names_the_input() {
    assert_eq!(
        get_architecture("ARM"),
        Err(HaikuError::ConfigError { fault: ConfigFault::Architecture("ARM".to_string()) })
    );
    assert!(get_architecture("").is_err());
    assert!(get_architecture("arm ").is_err());
}

#[test]
fn mode_flags_have_exact_values() {
    assert_eq!(get_mode_flags(None, true), Ok(0));
    assert_eq!(get_mode_flags(None, false), Ok(0x4000_0000));
    assert_eq!(get_mode_flags(Some(16), true), Ok(2));
    assert_eq!(get_mode_flags(Some(32), true), Ok(4));
    assert_eq!(get_mode_flags(Some(64), true), Ok(8));
    assert_eq!(get_mode_flags(Some(16), false), Ok(0x4000_0002));
    assert_eq!(get_mode_flags(Some(32), false), Ok(0x4000_0004));
    assert_eq!(get_mode_flags(Some(64), false), Ok(0x4000_0008));
}

#[test]
fn mode_flags_can_be_read_back() {
    for little in [true, false] {
        for (size, flag) in [(16u8, MODE_16), (32u8, MODE_32), (64u8, MODE_64)] {
            let mode = get_mode_flags(Some(size), little).unwrap();
            assert_eq!(mode & (MODE_16 | MODE_32 | MODE_64), flag);
            assert_eq!(mode & MODE_BIG_ENDIAN, if little { 0 } else { MODE_BIG_ENDIAN });
        }
    }
}

#[test]
fn will_error_on_invalid_address_size() {
    for size in [0u8, 8, 15, 17, 48, 128, 255] {
        let result = get_mode_flags(Some(size), true);
        assert_eq!(
            result,
            Err(HaikuError::ConfigError { fault: ConfigFault::AddressSize(size) })
        );
        assert_eq!(result.unwrap_err().to_string(), "invalid address size mode");
    }
}

fn args(architecture: &str, little_endian: bool, address_size: Option<u8>) -> Args {
    Args {
        haiku_name: "patch.haiku".to_string(),
        ips_name: "patch.ips".to_string(),
        architecture: architecture.to_string(),
        little_endian,
        address_size,
    }
}

#[test]
fn arguments_give_the_assembler_configuration() {
    let config = args("aarch64", true, None).assembler_config().unwrap();
    assert_eq!(config.architecture, Arch::ARM64);
    assert_eq!(config.mode, MODE_LITTLE_ENDIAN);

    let config = args("mips", false, Some(32)).assembler_config().unwrap();
    assert_eq!(config.architecture, Arch::MIPS);
    assert_eq!(config.mode, MODE_BIG_ENDIAN | MODE_32);
}

#[test]
fn unknown_architecture_is_reported_before_unknown_width() {
    assert_eq!(
        args("z80", true, Some(7)).assembler_config(),
        Err(HaikuError::ConfigError { fault: ConfigFault::Architecture("z80".to_string()) })
    );
    assert_eq!(
        args("x86", true, Some(7)).assembler_config(),
        Err(HaikuError::ConfigError { fault: ConfigFault::AddressSize(7) })
    );
}
