//! Decoding of Alpha 21164 serial-ROM dumps: reassembly of the scrambled
//! scan-chain records into linear instruction words, and symbolic decoding
//! of the privileged PALcode instructions found in a disassembly listing.

mod bits;
mod descramble;
mod image;
mod pal;
mod registers;
mod text;

pub use bits::{bit_of, lemma_bits_determine_word};
pub use descramble::{
    chain_bit, descramble, descrambles_to, lemma_descramble_deterministic,
    lemma_descramble_uniform, lemma_flip_one_chain_bit, lemma_permutation_injective,
    permutation_entry, permutation_table, process_line, DescrambleError, RECORD_WORDS,
};
pub use image::{
    concat_quads, descramble_image, descramble_records, image_bytes, le_bytes, le_image, le_word,
    lemma_image_round_trip, record_of, split_records, SromImage, RECORD_BYTES,
};
pub use pal::{
    annotate_line, annotate_spec, decode, decode_spec, describe, find_marker, ipr_field,
    marker_at, occurs_at, parse_operand, reg_field, DecodeError,
};
pub use registers::{ipr_decode, ipr_label, ipr_name, reg_name, register_names};
pub use text::{
    all_digits, digit_value, digits_value, is_ascii_space, parse_unsigned, skip_spaces, word_end,
};
