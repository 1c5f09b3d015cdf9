use vstd::prelude::*;

verus! {

/// Word size of an executable format.
#[derive(PartialEq, Eq, Debug, Clone, Copy, Structural)]
pub enum Bitness {
    Bit32,
    Bit64,
}

impl Bitness {
    pub open spec fn num_bits(self) -> u32 {
        match self {
            Bitness::Bit32 => 32,
            Bitness::Bit64 => 64,
        }
    }

    /// The identification byte that announces this word size.
    pub open spec fn code(self) -> u8 {
        match self {
            Bitness::Bit32 => 1,
            Bitness::Bit64 => 2,
        }
    }

    pub fn to_num_bits(&self) -> (r: u32)
        ensures
            r == self.num_bits(),
    {
        match self {
            Bitness::Bit32 => 32,
            Bitness::Bit64 => 64,
        }
    }

    pub fn from_code(c: u8) -> (r: Option<Bitness>)
        ensures
            r == Bitness::of_code(c),
    {
        match c {
            1 => Some(Bitness::Bit32),
            2 => Some(Bitness::Bit64),
            _ => None,
        }
    }

    pub open spec fn of_code(c: u8) -> Option<Bitness> {
        if c == 1 {
            Some(Bitness::Bit32)
        } else if c == 2 {
            Some(Bitness::Bit64)
        } else {
            None
        }
    }
}

/// Operating system ABI announced by an ELF header.
#[derive(PartialEq, Eq, Debug, Clone, Copy, Structural)]
pub enum ABI {
    SystemV,
    HPUX,
    NetBSD,
    Linux,
    GNUHurd,
    Solaris,
    AIXMonterey,
    IRIX,
    FreeBSD,
    Tru64,
    NovellModesto,
    OpenBSD,
    OpenVMS,
    NonStopKernel,
    AROS,
    FenixOS,
    NuxiCloudABI,
    StratusTechnologiesOpenVOS,
}

impl ABI {
    /// The code that stands for this value in the header.
    pub open spec fn code(self) -> u8 {
        match self {
            ABI::SystemV => 0x00,
            ABI::HPUX => 0x01,
            ABI::NetBSD => 0x02,
            ABI::Linux => 0x03,
            ABI::GNUHurd => 0x04,
            ABI::Solaris => 0x06,
            ABI::AIXMonterey => 0x07,
            ABI::IRIX => 0x08,
            ABI::FreeBSD => 0x09,
            ABI::Tru64 => 0x0A,
            ABI::NovellModesto => 0x0B,
            ABI::OpenBSD => 0x0C,
            ABI::OpenVMS => 0x0D,
            ABI::NonStopKernel => 0x0E,
            ABI::AROS => 0x0F,
            ABI::FenixOS => 0x10,
            ABI::NuxiCloudABI => 0x11,
            ABI::StratusTechnologiesOpenVOS => 0x12,
        }
    }

    /// Looks `c` up in the table; `None` when no value has that code.
    pub fn from_code(c: u8) -> (r: Option<ABI>)
        ensures
            match r {
                Some(v) => v.code() == c,
                None => forall|v: ABI| #[trigger] v.code() != c,
            },
    {
        match c {
            0x00 => Some(ABI::SystemV),
            0x01 => Some(ABI::HPUX),
            0x02 => Some(ABI::NetBSD),
            0x03 => Some(ABI::Linux),
            0x04 => Some(ABI::GNUHurd),
            0x06 => Some(ABI::Solaris),
            0x07 => Some(ABI::AIXMonterey),
            0x08 => Some(ABI::IRIX),
            0x09 => Some(ABI::FreeBSD),
            0x0A => Some(ABI::Tru64),
            0x0B => Some(ABI::NovellModesto),
            0x0C => Some(ABI::OpenBSD),
            0x0D => Some(ABI::OpenVMS),
            0x0E => Some(ABI::NonStopKernel),
            0x0F => Some(ABI::AROS),
            0x10 => Some(ABI::FenixOS),
            0x11 => Some(ABI::NuxiCloudABI),
            0x12 => Some(ABI::StratusTechnologiesOpenVOS),
            _ => None,
        }
    }
}

/// Target machine announced by an ELF header.
#[derive(PartialEq, Eq, Debug, Clone, Copy, Structural)]
pub enum InstructionSet {
    NospecificinstructionSet,
    ATandTWE32100,
    SPARC,
    X86,
    Motorola68000M68k,
    Motorola88000M88k,
    IntelMCU,
    Intel80860,
    MIPS,
    IBMSystem370,
    MIPSRS3000LittleEndian,
    Reserved0,
    Reserved1,
    Reserved2,
    Reserved3,
    HewlettPackardPARISC,
    Intel80960,
    PowerPC,
    PowerPC64bit,
    S390,
    IBMSPUSPC,
    Reserved4,
    Reserved5,
    Reserved6,
    Reserved7,
    Reserved8,
    Reserved9,
    Reserved10,
    Reserved11,
    Reserved12,
    Reserved13,
    Reserved14,
    Reserved15,
    NECV800,
    FujitsuFR20,
    TRWRH32,
    MotorolaRCE,
    ArmArmv7AArch32,
    DigitalAlpha,
    SuperH,
    SPARCVersion9,
    SiemensTriCoreEmbeddedProcessor,
    ArgonautRISCCore,
    HitachiH8300,
    HitachiH8300H,
    HitachiH8S,
    HitachiH8500,
    IA64,
    StanfordMIPSX,
    MotorolaColdFire,
    MotorolaM68HC12,
    FujitsuMMAMultimediaAccelerator,
    SiemensPCP,
    SonynCPUembeddedRISCProcessor,
    DensoNDR1microProcessor,
    MotorolaStarCoreProcessor,
    ToyotaME16Processor,
    STMicroelectronicsST100Processor,
    AdvancedLogicCorpTinyJEmbeddedProcessorFamily,
    AMDx86_64,
    SonyDSPProcessor,
    DigitalEquipmentCorpPDP10,
    DigitalEquipmentCorpPDP11,
    SiemensFX66microcontroller,
    STMicroelectronicsST9816bitMicrocontroller,
    STMicroelectronicsST78bitMicrocontroller,
    MotorolaMC68HC16Microcontroller,
    MotorolaMC68HC11Microcontroller,
    MotorolaMC68HC08Microcontroller,
    MotorolaMC68HC05Microcontroller,
    SiliconGraphicsSVx,
    STMicroelectronicsST198bitMicrocontroller,
    DigitalVAX,
    AxisCommunications32bitEmbeddedProcessor,
    InfineonTechnologies32bitEmbeddedProcessor,
    Element1464bitDSPProcessor,
    LSILogic16bitDSPProcessor,
    TMS320C6000Family,
    MCSTElbruse2k,
    Arm64bitsArmv8AArch64,
    ZilogZ80,
    RISCV,
    BerkeleyPacketFilter,
    WDC65C816,
}

impl InstructionSet {
    /// The code that stands for this value in the header.
    pub open spec fn code(self) -> u16 {
        match self {
            InstructionSet::NospecificinstructionSet => 0x00,
            InstructionSet::ATandTWE32100 => 0x01,
            InstructionSet::SPARC => 0x02,
            InstructionSet::X86 => 0x03,
            InstructionSet::Motorola68000M68k => 0x04,
            InstructionSet::Motorola88000M88k => 0x05,
            InstructionSet::IntelMCU => 0x06,
            InstructionSet::Intel80860 => 0x07,
            InstructionSet::MIPS => 0x08,
            InstructionSet::IBMSystem370 => 0x09,
            InstructionSet::MIPSRS3000LittleEndian => 0x0A,
            InstructionSet::Reserved0 => 0x0B,
            InstructionSet::Reserved1 => 0x0C,
            InstructionSet::Reserved2 => 0x0D,
            InstructionSet::Reserved3 => 0x0E,
            InstructionSet::HewlettPackardPARISC => 0x0F,
            InstructionSet::Intel80960 => 0x13,
            InstructionSet::PowerPC => 0x14,
            InstructionSet::PowerPC64bit => 0x15,
            InstructionSet::S390 => 0x16,
            InstructionSet::IBMSPUSPC => 0x17,
            InstructionSet::Reserved4 => 0x18,
            InstructionSet::Reserved5 => 0x19,
            InstructionSet::Reserved6 => 0x1A,
            InstructionSet::Reserved7 => 0x1B,
            InstructionSet::Reserved8 => 0x1C,
            InstructionSet::Reserved9 => 0x1D,
            InstructionSet::Reserved10 => 0x1E,
            InstructionSet::Reserved11 => 0x1F,
            InstructionSet::Reserved12 => 0x20,
            InstructionSet::Reserved13 => 0x21,
            InstructionSet::Reserved14 => 0x22,
            InstructionSet::Reserved15 => 0x23,
            InstructionSet::NECV800 => 0x24,
            InstructionSet::FujitsuFR20 => 0x25,
            InstructionSet::TRWRH32 => 0x26,
            InstructionSet::MotorolaRCE => 0x27,
            InstructionSet::ArmArmv7AArch32 => 0x28,
            InstructionSet::DigitalAlpha => 0x29,
            InstructionSet::SuperH => 0x2A,
            InstructionSet::SPARCVersion9 => 0x2B,
            InstructionSet::SiemensTriCoreEmbeddedProcessor => 0x2C,
            InstructionSet::ArgonautRISCCore => 0x2D,
            InstructionSet::HitachiH8300 => 0x2E,
            InstructionSet::HitachiH8300H => 0x2F,
            InstructionSet::HitachiH8S => 0x30,
            InstructionSet::HitachiH8500 => 0x31,
            InstructionSet::IA64 => 0x32,
            InstructionSet::StanfordMIPSX => 0x33,
            InstructionSet::MotorolaColdFire => 0x34,
            InstructionSet::MotorolaM68HC12 => 0x35,
            InstructionSet::FujitsuMMAMultimediaAccelerator => 0x36,
            InstructionSet::SiemensPCP => 0x37,
            InstructionSet::SonynCPUembeddedRISCProcessor => 0x38,
            InstructionSet::DensoNDR1microProcessor => 0x39,
            InstructionSet::MotorolaStarCoreProcessor => 0x3A,
            InstructionSet::ToyotaME16Processor => 0x3B,
            InstructionSet::STMicroelectronicsST100Processor => 0x3C,
            InstructionSet::AdvancedLogicCorpTinyJEmbeddedProcessorFamily => 0x3D,
            InstructionSet::AMDx86_64 => 0x3E,
            InstructionSet::SonyDSPProcessor => 0x3F,
            InstructionSet::DigitalEquipmentCorpPDP10 => 0x40,
            InstructionSet::DigitalEquipmentCorpPDP11 => 0x41,
            InstructionSet::SiemensFX66microcontroller => 0x42,
            InstructionSet::STMicroelectronicsST9816bitMicrocontroller => 0x43,
            InstructionSet::STMicroelectronicsST78bitMicrocontroller => 0x44,
            InstructionSet::MotorolaMC68HC16Microcontroller => 0x45,
            InstructionSet::MotorolaMC68HC11Microcontroller => 0x46,
            InstructionSet::MotorolaMC68HC08Microcontroller => 0x47,
            InstructionSet::MotorolaMC68HC05Microcontroller => 0x48,
            InstructionSet::SiliconGraphicsSVx => 0x49,
            InstructionSet::STMicroelectronicsST198bitMicrocontroller => 0x4A,
            InstructionSet::DigitalVAX => 0x4B,
            InstructionSet::AxisCommunications32bitEmbeddedProcessor => 0x4C,
            InstructionSet::InfineonTechnologies32bitEmbeddedProcessor => 0x4D,
            InstructionSet::Element1464bitDSPProcessor => 0x4E,
            InstructionSet::LSILogic16bitDSPProcessor => 0x4F,
            InstructionSet::TMS320C6000Family => 0x8C,
            InstructionSet::MCSTElbruse2k => 0xAF,
            InstructionSet::Arm64bitsArmv8AArch64 => 0xB7,
            InstructionSet::ZilogZ80 => 0xDC,
            InstructionSet::RISCV => 0xF3,
            InstructionSet::BerkeleyPacketFilter => 0xF7,
            InstructionSet::WDC65C816 => 0x101,
        }
    }

    /// Looks `c` up in the table; `None` when no value has that code.
    pub fn from_code(c: u16) -> (r: Option<InstructionSet>)
        ensures
            match r {
                Some(v) => v.code() == c,
                None => forall|v: InstructionSet| #[trigger] v.code() != c,
            },
    {
        match c {
            0x00 => Some(InstructionSet::NospecificinstructionSet),
            0x01 => Some(InstructionSet::ATandTWE32100),
            0x02 => Some(InstructionSet::SPARC),
            0x03 => Some(InstructionSet::X86),
            0x04 => Some(InstructionSet::Motorola68000M68k),
            0x05 => Some(InstructionSet::Motorola88000M88k),
            0x06 => Some(InstructionSet::IntelMCU),
            0x07 => Some(InstructionSet::Intel80860),
            0x08 => Some(InstructionSet::MIPS),
            0x09 => Some(InstructionSet::IBMSystem370),
            0x0A => Some(InstructionSet::MIPSRS3000LittleEndian),
            0x0B => Some(InstructionSet::Reserved0),
            0x0C => Some(InstructionSet::Reserved1),
            0x0D => Some(InstructionSet::Reserved2),
            0x0E => Some(InstructionSet::Reserved3),
            0x0F => Some(InstructionSet::HewlettPackardPARISC),
            0x13 => Some(InstructionSet::Intel80960),
            0x14 => Some(InstructionSet::PowerPC),
            0x15 => Some(InstructionSet::PowerPC64bit),
            0x16 => Some(InstructionSet::S390),
            0x17 => Some(InstructionSet::IBMSPUSPC),
            0x18 => Some(InstructionSet::Reserved4),
            0x19 => Some(InstructionSet::Reserved5),
            0x1A => Some(InstructionSet::Reserved6),
            0x1B => Some(InstructionSet::Reserved7),
            0x1C => Some(InstructionSet::Reserved8),
            0x1D => Some(InstructionSet::Reserved9),
            0x1E => Some(InstructionSet::Reserved10),
            0x1F => Some(InstructionSet::Reserved11),
            0x20 => Some(InstructionSet::Reserved12),
            0x21 => Some(InstructionSet::Reserved13),
            0x22 => Some(InstructionSet::Reserved14),
            0x23 => Some(InstructionSet::Reserved15),
            0x24 => Some(InstructionSet::NECV800),
            0x25 => Some(InstructionSet::FujitsuFR20),
            0x26 => Some(InstructionSet::TRWRH32),
            0x27 => Some(InstructionSet::MotorolaRCE),
            0x28 => Some(InstructionSet::ArmArmv7AArch32),
            0x29 => Some(InstructionSet::DigitalAlpha),
            0x2A => Some(InstructionSet::SuperH),
            0x2B => Some(InstructionSet::SPARCVersion9),
            0x2C => Some(InstructionSet::SiemensTriCoreEmbeddedProcessor),
            0x2D => Some(InstructionSet::ArgonautRISCCore),
            0x2E => Some(InstructionSet::HitachiH8300),
            0x2F => Some(InstructionSet::HitachiH8300H),
            0x30 => Some(InstructionSet::HitachiH8S),
            0x31 => Some(InstructionSet::HitachiH8500),
            0x32 => Some(InstructionSet::IA64),
            0x33 => Some(InstructionSet::StanfordMIPSX),
            0x34 => Some(InstructionSet::MotorolaColdFire),
            0x35 => Some(InstructionSet::MotorolaM68HC12),
            0x36 => Some(InstructionSet::FujitsuMMAMultimediaAccelerator),
            0x37 => Some(InstructionSet::SiemensPCP),
            0x38 => Some(InstructionSet::SonynCPUembeddedRISCProcessor),
            0x39 => Some(InstructionSet::DensoNDR1microProcessor),
            0x3A => Some(InstructionSet::MotorolaStarCoreProcessor),
            0x3B => Some(InstructionSet::ToyotaME16Processor),
            0x3C => Some(InstructionSet::STMicroelectronicsST100Processor),
            0x3D => Some(InstructionSet::AdvancedLogicCorpTinyJEmbeddedProcessorFamily),
            0x3E => Some(InstructionSet::AMDx86_64),
            0x3F => Some(InstructionSet::SonyDSPProcessor),
            0x40 => Some(InstructionSet::DigitalEquipmentCorpPDP10),
            0x41 => Some(InstructionSet::DigitalEquipmentCorpPDP11),
            0x42 => Some(InstructionSet::SiemensFX66microcontroller),
            0x43 => Some(InstructionSet::STMicroelectronicsST9816bitMicrocontroller),
            0x44 => Some(InstructionSet::STMicroelectronicsST78bitMicrocontroller),
            0x45 => Some(InstructionSet::MotorolaMC68HC16Microcontroller),
            0x46 => Some(InstructionSet::MotorolaMC68HC11Microcontroller),
            0x47 => Some(InstructionSet::MotorolaMC68HC08Microcontroller),
            0x48 => Some(InstructionSet::MotorolaMC68HC05Microcontroller),
            0x49 => Some(InstructionSet::SiliconGraphicsSVx),
            0x4A => Some(InstructionSet::STMicroelectronicsST198bitMicrocontroller),
            0x4B => Some(InstructionSet::DigitalVAX),
            0x4C => Some(InstructionSet::AxisCommunications32bitEmbeddedProcessor),
            0x4D => Some(InstructionSet::InfineonTechnologies32bitEmbeddedProcessor),
            0x4E => Some(InstructionSet::Element1464bitDSPProcessor),
            0x4F => Some(InstructionSet::LSILogic16bitDSPProcessor),
            0x8C => Some(InstructionSet::TMS320C6000Family),
            0xAF => Some(InstructionSet::MCSTElbruse2k),
            0xB7 => Some(InstructionSet::Arm64bitsArmv8AArch64),
            0xDC => Some(InstructionSet::ZilogZ80),
            0xF3 => Some(InstructionSet::RISCV),
            0xF7 => Some(InstructionSet::BerkeleyPacketFilter),
            0x101 => Some(InstructionSet::WDC65C816),
            _ => None,
        }
    }
}

/// Object file type of an ELF header.
#[derive(PartialEq, Eq, Debug, Clone, Copy, Structural)]
pub enum FileType {
    EtNone,
    EtRel,
    EtExec,
    EtDyn,
    EtCore,
    EtLoos,
    EtHios,
    EtLoproc,
    EtHiproc,
}

impl FileType {
    /// The file type that the code `c` announces; the two reserved ranges map
    /// to their lowest member.
    pub open spec fn of_code(c: u16) -> Option<FileType> {
        if c == 0 {
            Some(FileType::EtNone)
        } else if c == 1 {
            Some(FileType::EtRel)
        } else if c == 2 {
            Some(FileType::EtExec)
        } else if c == 3 {
            Some(FileType::EtDyn)
        } else if c == 4 {
            Some(FileType::EtCore)
        } else if 0xFE00 <= c <= 0xFEFF {
            Some(FileType::EtLoos)
        } else if 0xFF00 <= c {
            Some(FileType::EtLoproc)
        } else {
            None
        }
    }

    pub fn from_code(c: u16) -> (r: Option<FileType>)
        ensures
            r == FileType::of_code(c),
    {
        if c == 0 {
            Some(FileType::EtNone)
        } else if c == 1 {
            Some(FileType::EtRel)
        } else if c == 2 {
            Some(FileType::EtExec)
        } else if c == 3 {
            Some(FileType::EtDyn)
        } else if c == 4 {
            Some(FileType::EtCore)
        } else if 0xFE00 <= c && c <= 0xFEFF {
            Some(FileType::EtLoos)
        } else if 0xFF00 <= c {
            Some(FileType::EtLoproc)
        } else {
            None
        }
    }
}

} // verus!
