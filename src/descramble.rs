use vstd::prelude::*;
use crate::bits::{bit_of, lemma_bits_determine_word, lemma_flip_bit, lemma_set_bit};

verus! {

/// Number of 32-bit words of a record that the scan chain carries.
pub const RECORD_WORDS: usize = 6;

/// Position in the 192-bit scan chain that supplies data bit `k` (`0 <= k < 128`).
///
/// The data comes from two 64-bit stretches of the chain, bits 42 to 105 and
/// bits 128 to 191. Within a stretch the even positions fill the lower of two
/// output words and the odd positions the upper one.
pub open spec fn permutation_entry(k: int) -> int {
    let base: int = if k < 32 {
        42
    } else if k < 64 {
        43
    } else if k < 96 {
        128
    } else {
        129
    };
    base + 2 * (k % 32)
}

/// The fill map of the 21164 scan chain: entry `k` is the chain position of
/// data bit `k`.
pub fn permutation_table() -> (t: [u8; 128])
    ensures
        forall|k: int| 0 <= k < 128 ==> t[k] as int == #[trigger] permutation_entry(k),
        forall|k: int| 0 <= k < 128 ==> t[k] < 192,
{
    let t: [u8; 128] = [
        42, 44, 46, 48, 50, 52, 54, 56,
        58, 60, 62, 64, 66, 68, 70, 72,
        74, 76, 78, 80, 82, 84, 86, 88,
        90, 92, 94, 96, 98, 100, 102, 104,
        43, 45, 47, 49, 51, 53, 55, 57,
        59, 61, 63, 65, 67, 69, 71, 73,
        75, 77, 79, 81, 83, 85, 87, 89,
        91, 93, 95, 97, 99, 101, 103, 105,
        128, 130, 132, 134, 136, 138, 140, 142,
        144, 146, 148, 150, 152, 154, 156, 158,
        160, 162, 164, 166, 168, 170, 172, 174,
        176, 178, 180, 182, 184, 186, 188, 190,
        129, 131, 133, 135, 137, 139, 141, 143,
        145, 147, 149, 151, 153, 155, 157, 159,
        161, 163, 165, 167, 169, 171, 173, 175,
        177, 179, 181, 183, 185, 187, 189, 191,
    ];
    t
}

/// No chain bit feeds two data bits: the fill map never repeats an entry.
pub proof fn lemma_permutation_injective(j: int, k: int)
    requires
        0 <= j < 128,
        0 <= k < 128,
        permutation_entry(j) == permutation_entry(k),
    ensures
        j == k,
{
    assert(j == 32 * (j / 32) + j % 32);
    assert(k == 32 * (k / 32) + k % 32);
}

/// Bit `i` of the bit string formed by the words `w`, word 0 holding bits 0 to 31.
pub open spec fn chain_bit(w: Seq<u32>, i: int) -> bool {
    bit_of(w[i / 32], (i % 32) as u32)
}

/// `q` is what the record `r` descrambles to: four words whose data bit `k`
/// is the chain bit of `r` at `permutation_entry(k)`.
pub open spec fn descrambles_to(r: Seq<u32>, q: Seq<u32>) -> bool {
    &&& q.len() == 4
    &&& forall|k: int| 0 <= k < 128 ==> #[trigger] chain_bit(q, k) == chain_bit(r, permutation_entry(k))
}

/// Reassembles the four data words of one scan-chain record.
pub fn descramble(record: &[u32; 6]) -> (q: [u32; 4])
    ensures
        descrambles_to(record@, q@),
{
    let table = permutation_table();
    let mut out: [u32; 4] = [0, 0, 0, 0];
    assert forall|j: int| 0 <= j < 128 implies !#[trigger] chain_bit(out@, j) by {
        let c = (j % 32) as u32;
        assert(!bit_of(0u32, c)) by (bit_vector);
    }
    let mut k: usize = 0;
    while k < 128
        invariant
            k <= 128,
            out@.len() == 4,
            forall|j: int| 0 <= j < 128 ==> table[j] as int == #[trigger] permutation_entry(j),
            forall|j: int| 0 <= j < 128 ==> table[j] < 192,
            forall|j: int|
                0 <= j < k ==> #[trigger] chain_bit(out@, j) == chain_bit(record@, permutation_entry(j)),
            forall|j: int| k <= j < 128 ==> !#[trigger] chain_bit(out@, j),
        decreases 128 - k,
    {
        let s: usize = table[k] as usize;
        let in_word: usize = s >> 5;
        let in_offset: usize = s & 31;
        assert(s >> 5 == s / 32 && s & 31 == s % 32) by (bit_vector);
        let word: u32 = record[in_word];
        let bit: u32 = (word >> (in_offset as u32)) & 1;
        assert((bit != 0) == bit_of(word, in_offset as u32)) by (bit_vector)
            requires
                bit == (word >> (in_offset as u32)) & 1,
        ;
        let out_word: usize = k >> 5;
        let out_offset: usize = k & 31;
        assert(k >> 5 == k / 32 && k & 31 == k % 32) by (bit_vector);
        let ghost prev = out@;
        if bit != 0 {
            out[out_word] = out[out_word] | (1u32 << (out_offset as u32));
        }
        assert forall|j: int| 0 <= j < 128 && j != k implies #[trigger] chain_bit(out@, j) == chain_bit(
            prev,
            j,
        ) by {
            if bit != 0 && j / 32 == k / 32 {
                lemma_set_bit(prev[(k / 32) as int], (k % 32) as u32, (j % 32) as u32);
            }
        }
        proof {
            if bit != 0 {
                lemma_set_bit(prev[(k / 32) as int], (k % 32) as u32, (k % 32) as u32);
            }
        }
        assert(chain_bit(out@, k as int) == chain_bit(record@, permutation_entry(k as int)));
        k = k + 1;
    }
    out
}

/// Why a slice of words cannot be descrambled.
#[derive(Debug, Clone, Copy, PartialEq, Eq, Structural)]
pub enum DescrambleError {
    /// A record has exactly six words; the slice held this many.
    WrongWordCount(usize),
}

/// Descrambles a record given as a slice, which must hold exactly six words.
pub fn process_line(line: &[u32]) -> (r: Result<[u32; 4], DescrambleError>)
    ensures
        line@.len() == RECORD_WORDS ==> (r matches Ok(q) && descrambles_to(line@, q@)),
        line@.len() != RECORD_WORDS ==> r == Err::<[u32; 4], DescrambleError>(
            DescrambleError::WrongWordCount(line@.len() as usize),
        ),
{
    if line.len() != RECORD_WORDS {
        return Err(DescrambleError::WrongWordCount(line.len()));
    }
    let record: [u32; 6] = [line[0], line[1], line[2], line[3], line[4], line[5]];
    assert(record@ =~= line@);
    Ok(descramble(&record))
}

/// Four words are equal when they agree on all 128 bits.
proof fn lemma_quad_from_bits(a: Seq<u32>, b: Seq<u32>)
    requires
        a.len() == 4,
        b.len() == 4,
        forall|k: int| 0 <= k < 128 ==> #[trigger] chain_bit(a, k) == chain_bit(b, k),
    ensures
        a == b,
{
    assert forall|w: int| 0 <= w < 4 implies a[w] == b[w] by {
        assert forall|i: u32| i < 32 implies bit_of(a[w], i) == bit_of(b[w], i) by {
            let k = 32 * w + i;
            assert(k / 32 == w && k % 32 == i);
            assert(chain_bit(a, k) == chain_bit(b, k));
        }
        lemma_bits_determine_word(a[w], b[w]);
    }
    assert(a =~= b);
}

/// The contract of `descramble` leaves no freedom: a record has exactly one
/// descrambled form, so descrambling the same record twice gives the same words.
pub proof fn lemma_descramble_deterministic(r: Seq<u32>, q1: Seq<u32>, q2: Seq<u32>)
    requires
        r.len() == 6,
        descrambles_to(r, q1),
        descrambles_to(r, q2),
    ensures
        q1 == q2,
{
    assert forall|k: int| 0 <= k < 128 implies #[trigger] chain_bit(q1, k) == chain_bit(q2, k) by {
        assert(chain_bit(q1, k) == chain_bit(r, permutation_entry(k)));
    }
    lemma_quad_from_bits(q1, q2);
}

/// A record of zero words descrambles to four zero words, and a record of
/// all-ones words to four all-ones words.
pub proof fn lemma_descramble_uniform(r: Seq<u32>, q: Seq<u32>, fill: u32)
    requires
        r.len() == 6,
        fill == 0 || fill == 0xffff_ffff,
        forall|i: int| 0 <= i < 6 ==> r[i] == fill,
        descrambles_to(r, q),
    ensures
        q == seq![fill, fill, fill, fill],
{
    let f = seq![fill, fill, fill, fill];
    assert forall|k: int| 0 <= k < 128 implies #[trigger] chain_bit(q, k) == chain_bit(f, k) by {
        let s = permutation_entry(k);
        assert(chain_bit(q, k) == chain_bit(r, s));
        let c = (s % 32) as u32;
        let d = (k % 32) as u32;
        assert(r[s / 32] == fill);
        assert(f[k / 32] == fill);
        assert((fill == 0 || fill == 0xffff_ffff) && c < 32 && d < 32 ==> bit_of(fill, c) == bit_of(
            fill,
            d,
        )) by (bit_vector);
    }
    lemma_quad_from_bits(q, f);
}

/// Flipping chain bit `s` of a record flips exactly those data bits `k` whose
/// entry in the fill map is `s`, and no other.
pub proof fn lemma_flip_one_chain_bit(
    r: Seq<u32>,
    r2: Seq<u32>,
    s: int,
    q: Seq<u32>,
    q2: Seq<u32>,
)
    requires
        r.len() == 6,
        0 <= s < 192,
        r2 == r.update(s / 32, r[s / 32] ^ (1u32 << ((s % 32) as u32))),
        descrambles_to(r, q),
        descrambles_to(r2, q2),
    ensures
        forall|k: int|
            0 <= k < 128 ==> (#[trigger] chain_bit(q2, k) != chain_bit(q, k) <==> permutation_entry(k)
                == s),
{
    assert forall|k: int| 0 <= k < 128 implies (#[trigger] chain_bit(q2, k) != chain_bit(q, k)
        <==> permutation_entry(k) == s) by {
        let t = permutation_entry(k);
        assert(chain_bit(q, k) == chain_bit(r, t));
        assert(chain_bit(q2, k) == chain_bit(r2, t));
        if t / 32 == s / 32 {
            lemma_flip_bit(r[s / 32], (s % 32) as u32, (t % 32) as u32);
        }
    }
}

} // verus!
