//! Named CPU targets and the assembler engine configuration each one selects.
use vstd::prelude::*;

verus! {

/// The CPU targets a user can name.
#[derive(Debug, Clone, Copy, PartialEq, Eq, Structural)]
pub enum Architecture {
    Arm,
    ArmThumb,
    Arm64,
    Mips32,
    Mips64,
    Ppc32,
    Ppc64,
    Sparc32,
    Sparc64,
    Sysz,
    X86_16,
    X86_32,
    X86_64,
}

/// The engine's base architectures used by the targets.
#[derive(Debug, Clone, Copy, PartialEq, Eq, Structural)]
pub enum BaseArch {
    Arm,
    Arm64,
    Mips,
    Ppc,
    Sparc,
    SystemZ,
    X86,
}

/// The engine's mode flags used by the targets.
#[derive(Debug, Clone, Copy, PartialEq, Eq, Structural)]
pub enum ModeFlag {
    Arm,
    Thumb,
    Mips32,
    Mips64,
    Ppc32,
    Ppc64,
    Sparc32,
    Sparc64,
    LittleEndian,
    Mode16,
    Mode32,
    Mode64,
}

/// Everything needed to open and set up an engine for one target.
#[derive(Debug, Clone, Copy, PartialEq, Eq, Structural)]
pub struct EngineConfig {
    pub arch: BaseArch,
    pub mode: ModeFlag,
    /// Whether to ask the opened engine for Intel syntax. The request is best
    /// effort: an engine that refuses it is still used, with its default syntax.
    pub intel_syntax: bool,
}

/// The (base architecture, mode) pair of each target.
pub open spec fn arch_mode_of(a: Architecture) -> (BaseArch, ModeFlag) {
    match a {
        Architecture::Arm => (BaseArch::Arm, ModeFlag::Arm),
        Architecture::ArmThumb => (BaseArch::Arm, ModeFlag::Thumb),
        Architecture::Arm64 => (BaseArch::Arm64, ModeFlag::Arm),
        Architecture::Mips32 => (BaseArch::Mips, ModeFlag::Mips32),
        Architecture::Mips64 => (BaseArch::Mips, ModeFlag::Mips64),
        Architecture::Ppc32 => (BaseArch::Ppc, ModeFlag::Ppc32),
        Architecture::Ppc64 => (BaseArch::Ppc, ModeFlag::Ppc64),
        Architecture::Sparc32 => (BaseArch::Sparc, ModeFlag::Sparc32),
        Architecture::Sparc64 => (BaseArch::Sparc, ModeFlag::Sparc64),
        Architecture::Sysz => (BaseArch::SystemZ, ModeFlag::LittleEndian),
        Architecture::X86_16 => (BaseArch::X86, ModeFlag::Mode16),
        Architecture::X86_32 => (BaseArch::X86, ModeFlag::Mode32),
        Architecture::X86_64 => (BaseArch::X86, ModeFlag::Mode64),
    }
}

/// The x86 targets are the ones that ask for Intel syntax.
pub open spec fn is_x86(a: Architecture) -> bool {
    a == Architecture::X86_16 || a == Architecture::X86_32 || a == Architecture::X86_64
}

pub open spec fn config_of(a: Architecture) -> EngineConfig {
    EngineConfig { arch: arch_mode_of(a).0, mode: arch_mode_of(a).1, intel_syntax: is_x86(a) }
}

impl Architecture {
    /// The engine configuration this target selects.
    pub fn engine_config(&self) -> (r: EngineConfig)
        ensures
            r == config_of(*self),
    {
        let (arch, mode) = match self {
            Architecture::Arm => (BaseArch::Arm, ModeFlag::Arm),
            Architecture::ArmThumb => (BaseArch::Arm, ModeFlag::Thumb),
            Architecture::Arm64 => (BaseArch::Arm64, ModeFlag::Arm),
            Architecture::Mips32 => (BaseArch::Mips, ModeFlag::Mips32),
            Architecture::Mips64 => (BaseArch::Mips, ModeFlag::Mips64),
            Architecture::Ppc32 => (BaseArch::Ppc, ModeFlag::Ppc32),
            Architecture::Ppc64 => (BaseArch::Ppc, ModeFlag::Ppc64),
            Architecture::Sparc32 => (BaseArch::Sparc, ModeFlag::Sparc32),
            Architecture::Sparc64 => (BaseArch::Sparc, ModeFlag::Sparc64),
            Architecture::Sysz => (BaseArch::SystemZ, ModeFlag::LittleEndian),
            Architecture::X86_16 => (BaseArch::X86, ModeFlag::Mode16),
            Architecture::X86_32 => (BaseArch::X86, ModeFlag::Mode32),
            Architecture::X86_64 => (BaseArch::X86, ModeFlag::Mode64),
        };
        let intel_syntax = match self {
            Architecture::X86_16 | Architecture::X86_32 | Architecture::X86_64 => true,
            _ => false,
        };
        EngineConfig { arch, mode, intel_syntax }
    }
}

/// Different targets select different (base architecture, mode) pairs, and
/// exactly the x86 targets ask for Intel syntax.
pub proof fn lemma_targets_distinct(a: Architecture, b: Architecture)
    ensures
        a != b ==> arch_mode_of(a) != arch_mode_of(b),
        config_of(a).intel_syntax <==> config_of(a).arch == BaseArch::X86,
{
}

} // verus!
