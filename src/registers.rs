use vstd::prelude::*;

verus! {

/// Name of the 21164 internal processor register with index `v`, if there is one.
/// The indices 0x100 to 0x157 belong to the instruction box, 0x200 to 0x217 to
/// the memory box.
pub open spec fn ipr_name(v: u16) -> Option<Seq<char>> {
    match v {
        0x100 => Some("ISR"@),
        0x101 => Some("ITB_TAG"@),
        0x102 => Some("ITB_PTE"@),
        0x103 => Some("ITB_ASN"@),
        0x104 => Some("ITB_PTE_TEMP"@),
        0x105 => Some("ITB_IA"@),
        0x106 => Some("ITB_IAP"@),
        0x107 => Some("ITB_IS"@),
        0x108 => Some("SIRR"@),
        0x109 => Some("ASTRR"@),
        0x10A => Some("ASTER"@),
        0x10B => Some("EXC_ADDR"@),
        0x10C => Some("EXC_SUM"@),
        0x10D => Some("EXC_MASK"@),
        0x10E => Some("PAL_BASE"@),
        0x10F => Some("ICM"@),
        0x110 => Some("IPLR"@),
        0x111 => Some("INTID"@),
        0x112 => Some("IFAULT_VA_FORM"@),
        0x113 => Some("IVPTBR"@),
        0x115 => Some("HWINT_CLR"@),
        0x116 => Some("SL_XMIT"@),
        0x117 => Some("SL_RCV"@),
        0x118 => Some("ICSR"@),
        0x119 => Some("IC_FLUSH_CTL"@),
        0x11A => Some("ICPERR_STAT"@),
        0x11C => Some("PMCTR"@),
        0x140 => Some("PALtemp0"@),
        0x141 => Some("PALtemp1"@),
        0x142 => Some("PALtemp2"@),
        0x143 => Some("PALtemp3"@),
        0x144 => Some("PALtemp4"@),
        0x145 => Some("PALtemp5"@),
        0x146 => Some("PALtemp6"@),
        0x147 => Some("PALtemp7"@),
        0x148 => Some("PALtemp8"@),
        0x149 => Some("PALtemp9"@),
        0x14A => Some("PALtemp10"@),
        0x14B => Some("PALtemp11"@),
        0x14C => Some("PALtemp12"@),
        0x14D => Some("PALtemp13"@),
        0x14E => Some("PALtemp14"@),
        0x14F => Some("PALtemp15"@),
        0x150 => Some("PALtemp16"@),
        0x151 => Some("PALtemp17"@),
        0x152 => Some("PALtemp18"@),
        0x153 => Some("PALtemp19"@),
        0x154 => Some("PALtemp20"@),
        0x155 => Some("PALtemp21"@),
        0x156 => Some("PALtemp22"@),
        0x157 => Some("PALtemp23"@),
        0x200 => Some("DTB_ASN"@),
        0x201 => Some("DTB_CM"@),
        0x202 => Some("DTB_TAG"@),
        0x203 => Some("DTB_PTE"@),
        0x204 => Some("DTB_PTE_TEMP"@),
        0x205 => Some("MM_STAT"@),
        0x206 => Some("VA"@),
        0x207 => Some("VA_FORM"@),
        0x208 => Some("MVPTBR"@),
        0x209 => Some("DTB_IAP"@),
        0x20A => Some("DTB_IA"@),
        0x20B => Some("DTB_IS"@),
        0x20C => Some("ALT_MODE"@),
        0x20D => Some("CC"@),
        0x20E => Some("CC_CTL"@),
        0x20F => Some("MCSR"@),
        0x210 => Some("DC_FLUSH"@),
        0x212 => Some("DC_PERR_STAT"@),
        0x213 => Some("DC_TEST_CTL"@),
        0x214 => Some("DC_TEST_TAG"@),
        0x215 => Some("DC_TEST_TAG_TEMP"@),
        0x216 => Some("DC_MODE"@),
        0x217 => Some("MAF_MODE"@),
        _ => None,
    }
}

/// How the internal processor register with index `v` is shown: its name,
/// or `UNKNOWN` for an index that names no register.
pub open spec fn ipr_label(v: u16) -> Seq<char> {
    match ipr_name(v) {
        Some(n) => n,
        None => "UNKNOWN"@,
    }
}

/// Name of the internal processor register with index `value`; an index that
/// names no register reads `UNKNOWN`.
pub fn ipr_decode(value: u16) -> (name: &'static str)
    ensures
        name@ == ipr_label(value),
{
    match value {
        0x100 => "ISR",
        0x101 => "ITB_TAG",
        0x102 => "ITB_PTE",
        0x103 => "ITB_ASN",
        0x104 => "ITB_PTE_TEMP",
        0x105 => "ITB_IA",
        0x106 => "ITB_IAP",
        0x107 => "ITB_IS",
        0x108 => "SIRR",
        0x109 => "ASTRR",
        0x10A => "ASTER",
        0x10B => "EXC_ADDR",
        0x10C => "EXC_SUM",
        0x10D => "EXC_MASK",
        0x10E => "PAL_BASE",
        0x10F => "ICM",
        0x110 => "IPLR",
        0x111 => "INTID",
        0x112 => "IFAULT_VA_FORM",
        0x113 => "IVPTBR",
        0x115 => "HWINT_CLR",
        0x116 => "SL_XMIT",
        0x117 => "SL_RCV",
        0x118 => "ICSR",
        0x119 => "IC_FLUSH_CTL",
        0x11A => "ICPERR_STAT",
        0x11C => "PMCTR",
        0x140 => "PALtemp0",
        0x141 => "PALtemp1",
        0x142 => "PALtemp2",
        0x143 => "PALtemp3",
        0x144 => "PALtemp4",
        0x145 => "PALtemp5",
        0x146 => "PALtemp6",
        0x147 => "PALtemp7",
        0x148 => "PALtemp8",
        0x149 => "PALtemp9",
        0x14A => "PALtemp10",
        0x14B => "PALtemp11",
        0x14C => "PALtemp12",
        0x14D => "PALtemp13",
        0x14E => "PALtemp14",
        0x14F => "PALtemp15",
        0x150 => "PALtemp16",
        0x151 => "PALtemp17",
        0x152 => "PALtemp18",
        0x153 => "PALtemp19",
        0x154 => "PALtemp20",
        0x155 => "PALtemp21",
        0x156 => "PALtemp22",
        0x157 => "PALtemp23",
        0x200 => "DTB_ASN",
        0x201 => "DTB_CM",
        0x202 => "DTB_TAG",
        0x203 => "DTB_PTE",
        0x204 => "DTB_PTE_TEMP",
        0x205 => "MM_STAT",
        0x206 => "VA",
        0x207 => "VA_FORM",
        0x208 => "MVPTBR",
        0x209 => "DTB_IAP",
        0x20A => "DTB_IA",
        0x20B => "DTB_IS",
        0x20C => "ALT_MODE",
        0x20D => "CC",
        0x20E => "CC_CTL",
        0x20F => "MCSR",
        0x210 => "DC_FLUSH",
        0x212 => "DC_PERR_STAT",
        0x213 => "DC_TEST_CTL",
        0x214 => "DC_TEST_TAG",
        0x215 => "DC_TEST_TAG_TEMP",
        0x216 => "DC_MODE",
        0x217 => "MAF_MODE",
        _ => "UNKNOWN",
    }
}

/// Software names of the 32 integer registers under the Alpha calling
/// convention, by register number.
pub open spec fn register_names() -> Seq<Seq<char>> {
    seq![
        "v0"@, "t0"@, "t1"@, "t2"@, "t3"@, "t4"@, "t5"@, "t6"@,
        "t7"@, "s0"@, "s1"@, "s2"@, "s3"@, "s4"@, "s5"@, "s6"@,
        "a0"@, "a1"@, "a2"@, "a3"@, "a4"@, "a5"@, "t8"@, "t9"@,
        "t10"@, "t11"@, "ra"@, "pv"@, "at"@, "gp"@, "sp"@, "zero"@,
    ]
}

/// Software name of integer register `n`.
pub fn reg_name(n: u32) -> (name: &'static str)
    requires
        n < 32,
    ensures
        name@ == register_names()[n as int],
{
    match n {
        0 => "v0",
        1 => "t0",
        2 => "t1",
        3 => "t2",
        4 => "t3",
        5 => "t4",
        6 => "t5",
        7 => "t6",
        8 => "t7",
        9 => "s0",
        10 => "s1",
        11 => "s2",
        12 => "s3",
        13 => "s4",
        14 => "s5",
        15 => "s6",
        16 => "a0",
        17 => "a1",
        18 => "a2",
        19 => "a3",
        20 => "a4",
        21 => "a5",
        22 => "t8",
        23 => "t9",
        24 => "t10",
        25 => "t11",
        26 => "ra",
        27 => "pv",
        28 => "at",
        29 => "gp",
        30 => "sp",
        _ => "zero",
    }
}

} // verus!
