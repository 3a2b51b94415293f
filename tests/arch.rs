use ksasm::arch::{Architecture, BaseArch, EngineConfig, ModeFlag};

const TARGETS: [Architecture; 13] = [
    Architecture::Arm,
    Architecture::ArmThumb,
    Architecture::Arm64,
    Architecture::Mips32,
    Architecture::Mips64,
    Architecture::Ppc32,
    Architecture::Ppc64,
    Architecture::Sparc32,
    Architecture::Sparc64,
    Architecture::Sysz,
    Architecture::X86_16,
    Architecture::X86_32,
    Architecture::X86_64,
];

#[test]
fn targets_select_distinct_pairs() {
    for (i, a) in TARGETS.iter().enumerate() {
        for (j, b) in TARGETS.iter().enumerate() {
            let ca = a.engine_config();
            let cb = b.engine_config();
            if i != j {
                assert!((ca.arch, ca.mode) != (cb.arch, cb.mode), "{a:?} and {b:?}");
            }
        }
    }
}

#[test]
fn documented_pairs() {
    let c = |arch, mode, intel_syntax| EngineConfig { arch, mode, intel_syntax };
    assert_eq!(Architecture::Arm.engine_config(), c(BaseArch::Arm, ModeFlag::Arm, false));
    assert_eq!(Architecture::ArmThumb.engine_config(), c(BaseArch::Arm, ModeFlag::Thumb, false));
    assert_eq!(Architecture::Arm64.engine_config(), c(BaseArch::Arm64, ModeFlag::Arm, false));
    assert_eq!(Architecture::Mips32.engine_config(), c(BaseArch::Mips, ModeFlag::Mips32, false));
    assert_eq!(Architecture::Mips64.engine_config(), c(BaseArch::Mips, ModeFlag::Mips64, false));
    assert_eq!(Architecture::Ppc32.engine_config(), c(BaseArch::Ppc, ModeFlag::Ppc32, false));
    assert_eq!(Architecture::Ppc64.engine_config(), c(BaseArch::Ppc, ModeFlag::Ppc64, false));
    assert_eq!(Architecture::Sparc32.engine_config(), c(BaseArch::Sparc, ModeFlag::Sparc32, false));
    assert_eq!(Architecture::Sparc64.engine_config(), c(BaseArch::Sparc, ModeFlag::Sparc64, false));
    assert_eq!(
        Architecture::Sysz.engine_config(),
        c(BaseArch::SystemZ, ModeFlag::LittleEndian, false)
    );
    assert_eq!(Architecture::X86_16.engine_config(), c(BaseArch::X86, ModeFlag::Mode16, true));
    assert_eq!(Architecture::X86_32.engine_config(), c(BaseArch::X86, ModeFlag::Mode32, true));
    assert_eq!(Architecture::X86_64.engine_config(), c(BaseArch::X86, ModeFlag::Mode64, true));
}

#[test]
fn only_x86_asks_for_intel_syntax() {
    for a in TARGETS {
        let cfg = a.engine_config();
        assert_eq!(cfg.intel_syntax, cfg.arch == BaseArch::X86);
    }
}
