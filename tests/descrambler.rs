use alpha_srom::{
    descramble, descramble_image, descramble_records, image_bytes, permutation_table,
    process_line, split_records, DescrambleError, RECORD_BYTES,
};

#[test]
fn permutation_table_has_128_entries_below_192() {
    let t = permutation_table();
    assert_eq!(t.len(), 128);
    assert!(t.iter().all(|&s| s < 192));
    assert_eq!(t[0], 42);
    assert_eq!(t[31], 104);
    assert_eq!(t[32], 43);
    assert_eq!(t[64], 128);
    assert_eq!(t[96], 129);
    assert_eq!(t[127], 191);
}

#[test]
fn zero_record_gives_zero_quad() {
    assert_eq!(descramble(&[0; 6]), [0; 4]);
}

#[test]
fn all_ones_record_gives_all_ones_quad() {
    assert_eq!(descramble(&[0xffff_ffff; 6]), [0xffff_ffff; 4]);
}

#[test]
fn descramble_twice_gives_same_words() {
    let r = [0x0123_4567, 0x89ab_cdef, 0xdead_beef, 0xcafe_babe, 0x0bad_f00d, 0x1357_9bdf];
    assert_eq!(descramble(&r), descramble(&r));
}

#[test]
fn descramble_mixed_record() {
    let r = [0x0123_4567, 0x89ab_cdef, 0xdead_beef, 0xcafe_babe, 0x0bad_f00d, 0x1357_9bdf];
    assert_eq!(descramble(&r), [0x371b_588d, 0xfdf7_fd7d, 0x5f5f_13c3, 0x11bb_3ec2]);
}

fn with_chain_bit(s: usize) -> [u32; 6] {
    let mut r = [0u32; 6];
    r[s >> 5] ^= 1 << (s & 31);
    r
}

#[test]
fn flipping_a_mapped_chain_bit_flips_its_data_bit() {
    // chain bit 42 feeds data bit 0, chain bit 43 data bit 32
    assert_eq!(descramble(&with_chain_bit(42)), [1, 0, 0, 0]);
    assert_eq!(descramble(&with_chain_bit(43)), [0, 1, 0, 0]);
    assert_eq!(descramble(&with_chain_bit(105)), [0, 0x8000_0000, 0, 0]);
    assert_eq!(descramble(&with_chain_bit(130)), [0, 0, 2, 0]);
    assert_eq!(descramble(&with_chain_bit(191)), [0, 0, 0, 0x8000_0000]);
}

#[test]
fn flipping_an_unmapped_chain_bit_changes_nothing() {
    for s in [0usize, 41, 106, 127] {
        assert_eq!(descramble(&with_chain_bit(s)), [0; 4]);
    }
    let r = [0x0123_4567, 0x89ab_cdef, 0xdead_beef, 0xcafe_babe, 0x0bad_f00d, 0x1357_9bdf];
    let mut r2 = r;
    r2[3] ^= 1 << 10; // chain bit 106
    assert_eq!(descramble(&r), descramble(&r2));
}

#[test]
fn flipping_one_chain_bit_in_a_mixed_record() {
    let r = [0x0123_4567, 0x89ab_cdef, 0xdead_beef, 0xcafe_babe, 0x0bad_f00d, 0x1357_9bdf];
    let t = permutation_table();
    for s in [42usize, 77, 150] {
        let mut r2 = r;
        r2[s >> 5] ^= 1 << (s & 31);
        let q = descramble(&r);
        let q2 = descramble(&r2);
        for k in 0..128usize {
            let differs = ((q[k >> 5] ^ q2[k >> 5]) >> (k & 31)) & 1 == 1;
            assert_eq!(differs, t[k] as usize == s);
        }
    }
}

#[test]
fn process_line_takes_six_words() {
    let r = [0x0123_4567, 0x89ab_cdef, 0xdead_beef, 0xcafe_babe, 0x0bad_f00d, 0x1357_9bdf];
    assert_eq!(process_line(&r), Ok(descramble(&r)));
}

#[test]
fn process_line_refuses_other_lengths() {
    assert_eq!(process_line(&[1, 2, 3, 4, 5]), Err(DescrambleError::WrongWordCount(5)));
    assert_eq!(process_line(&[0; 7]), Err(DescrambleError::WrongWordCount(7)));
    assert_eq!(process_line(&[]), Err(DescrambleError::WrongWordCount(0)));
}

#[test]
fn split_records_reads_little_endian_words() {
    let data: Vec<u8> = (1..=50).collect();
    let rs = split_records(&data);
    assert_eq!(rs.len(), 2);
    assert_eq!(
        rs[0],
        [0x0403_0201, 0x0807_0605, 0x0c0b_0a09, 0x100f_0e0d, 0x1413_1211, 0x1817_1615]
    );
    // the 25th byte of each record carries no data
    assert_eq!(rs[1][0], 0x1d1c_1b1a);
    assert_eq!(rs[1][5], 0x3130_2f2e);
}

#[test]
fn image_of_37_bytes_holds_one_record() {
    let data: Vec<u8> = (1..=37).collect();
    let img = descramble_image(&data);
    assert_eq!(RECORD_BYTES, 25);
    assert_eq!(img.records.len(), 1);
    assert_eq!(img.discarded, 12);
    assert_eq!(img.quads, vec![[0x1908_0819, 0x9119_9108, 0x4767_6545, 0x2110_0110]]);
    assert_eq!(img.bytes.len(), 16);
}

#[test]
fn image_of_whole_records_discards_nothing() {
    let data = vec![0xffu8; 75];
    let img = descramble_image(&data);
    assert_eq!(img.records.len(), 3);
    assert_eq!(img.discarded, 0);
    assert_eq!(img.bytes, vec![0xffu8; 48]);
}

#[test]
fn short_image_is_empty() {
    let img = descramble_image(&[7u8; 24]);
    assert!(img.records.is_empty());
    assert!(img.quads.is_empty());
    assert!(img.bytes.is_empty());
    assert_eq!(img.discarded, 24);
}

#[test]
fn image_bytes_are_the_quads_little_endian() {
    let qs = vec![[0x0403_0201, 0x0807_0605, 0x0c0b_0a09, 0x100f_0e0d], [0xdead_beef, 0, 1, 0x8000_0000]];
    let bytes = image_bytes(&qs);
    let expected: Vec<u8> = qs.iter().flat_map(|q| q.iter().flat_map(|w| w.to_le_bytes())).collect();
    assert_eq!(bytes, expected);
    assert_eq!(&bytes[..4], &[1, 2, 3, 4]);
    assert_eq!(&bytes[16..20], &[0xef, 0xbe, 0xad, 0xde]);
}

#[test]
fn image_round_trip() {
    let data: Vec<u8> = (0..=255u8).cycle().take(25 * 9 + 3).map(|b| b.wrapping_mul(37)).collect();
    let img = descramble_image(&data);
    assert_eq!(img.quads, descramble_records(&img.records));
    let words: Vec<u32> = img
        .bytes
        .chunks_exact(4)
        .map(|c| u32::from_le_bytes([c[0], c[1], c[2], c[3]]))
        .collect();
    let concat: Vec<u32> = img.quads.iter().flat_map(|q| q.iter().copied()).collect();
    assert_eq!(words, concat);
    assert_eq!(img.discarded, 3);
}
