use alpha_srom::{annotate_line, decode, ipr_decode, occurs_at, reg_name, DecodeError};

#[test]
fn mfpr_selects_register_fields() {
    assert_eq!(decode("pal19\t0x00190000"), Ok("HW_MFPR: read UNKNOWN to t11".to_string()));
    assert_eq!(decode("pal19\t0x190100"), Ok("HW_MFPR: read ISR to t11".to_string()));
}

#[test]
fn mtpr_writes_register_to_ipr() {
    assert_eq!(decode("pal1d 0x00010101"), Ok("HW_MTPR: write t0 to ITB_TAG".to_string()));
    // decimal 65793 is 0x10101
    assert_eq!(decode("pal1d 65793"), Ok("HW_MTPR: write t0 to ITB_TAG".to_string()));
    assert_eq!(decode("pal1d 0x1f0217"), Ok("HW_MTPR: write zero to MAF_MODE".to_string()));
}

#[test]
fn other_privileged_forms() {
    assert_eq!(decode("pal1b 0x0"), Ok("HW_LD".to_string()));
    assert_eq!(decode("pal1e 0"), Ok("HW_REI".to_string()));
    assert_eq!(decode("  pal1f   0x12345678  rest"), Ok("HW_ST".to_string()));
}

#[test]
fn operand_bits_above_the_fields_are_ignored() {
    // bits 21 and up, and bits 16-20 of the IPR field, play no part
    assert_eq!(decode("pal19 0xffe00100"), Ok("HW_MFPR: read ISR to v0".to_string()));
    assert_eq!(decode("pal19 +256"), Ok("HW_MFPR: read ISR to v0".to_string()));
}

#[test]
fn decode_errors() {
    assert_eq!(decode(""), Err(DecodeError::MissingMnemonic));
    assert_eq!(decode(" \t "), Err(DecodeError::MissingMnemonic));
    assert_eq!(decode("pal19"), Err(DecodeError::MissingOperand));
    assert_eq!(decode("pal19   "), Err(DecodeError::MissingOperand));
    assert_eq!(decode("pal19 0xZZ"), Err(DecodeError::BadOperand));
    assert_eq!(decode("pal19 0x"), Err(DecodeError::BadOperand));
    assert_eq!(decode("pal19 12ab"), Err(DecodeError::BadOperand));
    assert_eq!(decode("pal19 4294967296"), Err(DecodeError::BadOperand));
    assert_eq!(decode("pal19 0x100000000"), Err(DecodeError::BadOperand));
    assert_eq!(decode("pal19 -1"), Err(DecodeError::BadOperand));
    assert_eq!(decode("pal19 +"), Err(DecodeError::BadOperand));
    assert_eq!(decode("pal1c 0x0"), Err(DecodeError::UnknownMnemonic));
    assert_eq!(decode("pal190 0x0"), Err(DecodeError::UnknownMnemonic));
}

#[test]
fn largest_operand_parses() {
    assert_eq!(decode("pal1d 4294967295"), Ok("HW_MTPR: write zero to UNKNOWN".to_string()));
    assert_eq!(decode("pal1d 0xFFFFFFFF"), Ok("HW_MTPR: write zero to UNKNOWN".to_string()));
}

#[test]
fn ipr_names_by_table() {
    assert_eq!(ipr_decode(0x100), "ISR");
    assert_eq!(ipr_decode(0x11c), "PMCTR");
    assert_eq!(ipr_decode(0x157), "PALtemp23");
    assert_eq!(ipr_decode(0x200), "DTB_ASN");
    assert_eq!(ipr_decode(0x217), "MAF_MODE");
}

#[test]
fn unknown_ipr_reads_unknown() {
    assert_eq!(ipr_decode(0x0001), "UNKNOWN");
    assert_eq!(ipr_decode(0x0000), "UNKNOWN");
    assert_eq!(ipr_decode(0x114), "UNKNOWN");
    assert_eq!(ipr_decode(0x211), "UNKNOWN");
    assert_eq!(ipr_decode(0xffff), "UNKNOWN");
}

#[test]
fn register_names_by_number() {
    assert_eq!(reg_name(0), "v0");
    assert_eq!(reg_name(9), "s0");
    assert_eq!(reg_name(16), "a0");
    assert_eq!(reg_name(25), "t11");
    assert_eq!(reg_name(26), "ra");
    assert_eq!(reg_name(31), "zero");
}

#[test]
fn annotate_privileged_line() {
    let line = "   0:\t00 01 19 64 \tpal19\t0x190100";
    assert_eq!(
        annotate_line(line),
        Ok("   0:\t00 01 19 64 \tpal19\t0x190100 ; HW_MFPR: read ISR to t11".to_string())
    );
}

#[test]
fn annotate_keeps_other_lines() {
    let line = "   4:\t00 00 fe 2f \tunop";
    assert_eq!(annotate_line(line), Ok(line.to_string()));
    assert_eq!(annotate_line(""), Ok(String::new()));
    // without the tab the mnemonic column is not recognised
    assert_eq!(annotate_line("pal19 0x0"), Ok("pal19 0x0".to_string()));
}

#[test]
fn annotate_reports_decode_errors() {
    assert_eq!(annotate_line("   8:\t00 00 00 70 \tpal1c\t0x0"), Err(DecodeError::UnknownMnemonic));
    assert_eq!(annotate_line("   8:\t\tpal19"), Err(DecodeError::MissingOperand));
}

#[test]
fn occurs_at_finds_literal() {
    let s = "ab\tpal19";
    assert!(occurs_at(s, 8, 2, "\tpal1"));
    assert!(!occurs_at(s, 8, 1, "\tpal1"));
    assert!(!occurs_at(s, 8, 5, "\tpal1"));
}
