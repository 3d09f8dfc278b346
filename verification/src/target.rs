use vstd::prelude::*;

verus! {

/// The target profiles: the fixed remote hardware profile and the native
/// host profile.
#[derive(Debug, Clone, Copy, PartialEq, Eq, Structural)]
pub enum CompileTarget {
    QuantinuumHardware,
    Native,
}

impl Default for CompileTarget {
    fn default() -> (r: Self)
        ensures
            r == CompileTarget::QuantinuumHardware,
    {
        CompileTarget::QuantinuumHardware
    }
}

/// The code-generation effort levels of the native backend.
#[derive(Debug, Clone, Copy, PartialEq, Eq, Structural)]
pub enum OptLevel {
    O0,
    O1,
    O2,
    O3,
}

/// The parameters a target profile fixes for native code generation: the
/// architecture triple (the host's own when unset), position-independent
/// relocation, and the effort level.
#[derive(Debug, Clone, PartialEq, Eq)]
pub struct MachineConfig {
    pub triple: Option<String>,
    pub reloc_pic: bool,
    pub level: OptLevel,
}

impl CompileTarget {
    /// The code-generation parameters of the profile: the remote hardware
    /// profile fixes the bare-metal 64-bit Arm triple, the native profile
    /// uses the host's default triple; both relocate position-independently.
    pub fn machine(self, level: OptLevel) -> (m: MachineConfig)
        ensures
            m.reloc_pic,
            m.level == level,
            match self {
                CompileTarget::QuantinuumHardware => m.triple matches Some(t) && t@
                    == "arm64-unknown-none"@,
                CompileTarget::Native => m.triple is None,
            },
    {
        match self {
            CompileTarget::QuantinuumHardware => MachineConfig {
                triple: Some("arm64-unknown-none".to_owned()),
                reloc_pic: true,
                level,
            },
            CompileTarget::Native => MachineConfig { triple: None, reloc_pic: true, level },
        }
    }
}

} // verus!
