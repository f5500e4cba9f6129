use vstd::prelude::*;
use crate::descramble::{descramble, descrambles_to};

verus! {

/// Bytes of one scan-chain record in a dump; the last byte carries no data bit.
pub const RECORD_BYTES: usize = 25;

/// The little-endian word that starts at byte `i` of `b`.
pub open spec fn le_word(b: Seq<u8>, i: int) -> u32 {
    (b[i] as u32) | ((b[i + 1] as u32) << 8u32) | ((b[i + 2] as u32) << 16u32) | ((b[i + 3] as u32)
        << 24u32)
}

/// The four bytes of `w`, least significant first.
pub open spec fn le_bytes(w: u32) -> Seq<u8> {
    seq![(w & 0xff) as u8, ((w >> 8u32) & 0xff) as u8, ((w >> 16u32) & 0xff) as u8, ((w >> 24u32) & 0xff) as u8]
}

/// Record `n` of the dump `data`: the six little-endian words at its start.
pub open spec fn record_of(data: Seq<u8>, n: int) -> Seq<u32> {
    Seq::new(6, |j: int| le_word(data, 25 * n + 4 * j))
}

/// The words of the quads `qs`, one quad after the other.
pub open spec fn concat_quads(qs: Seq<[u32; 4]>) -> Seq<u32> {
    Seq::new(4 * qs.len(), |m: int| qs[m / 4][m % 4])
}

/// The words `ws` written out little-endian, one after the other.
pub open spec fn le_image(ws: Seq<u32>) -> Seq<u8> {
    Seq::new(4 * ws.len(), |i: int| le_bytes(ws[i / 4])[i % 4])
}

/// Reads the little-endian word at byte `i` of `data`.
fn read_le_word(data: &[u8], i: usize) -> (w: u32)
    requires
        i + 4 <= data@.len(),
    ensures
        w == le_word(data@, i as int),
{
    (data[i] as u32) | ((data[i + 1] as u32) << 8u32) | ((data[i + 2] as u32) << 16u32) | ((data[i
        + 3] as u32) << 24u32)
}

/// Splits a dump into its complete records, each read as six little-endian
/// words. Bytes after the last complete record are left out.
pub fn split_records(data: &[u8]) -> (rs: Vec<[u32; 6]>)
    ensures
        rs@.len() == data@.len() / 25,
        forall|n: int| 0 <= n < rs@.len() ==> #[trigger] rs@[n]@ == record_of(data@, n),
{
    let len: usize = data.len();
    let count: usize = len / RECORD_BYTES;
    let mut rs: Vec<[u32; 6]> = Vec::new();
    let mut n: usize = 0;
    while n < count
        invariant
            len == data@.len(),
            count == data@.len() / 25,
            n <= count,
            rs@.len() == n,
            forall|m: int| 0 <= m < n ==> #[trigger] rs@[m]@ == record_of(data@, m),
        decreases count - n,
    {
        assert(25 * n + 25 <= data@.len()) by (nonlinear_arith)
            requires
                n < count,
                count == data@.len() / 25,
        ;
        let base: usize = RECORD_BYTES * n;
        assert(base + 25 <= data@.len());
        let record: [u32; 6] = [
            read_le_word(data, base),
            read_le_word(data, base + 4),
            read_le_word(data, base + 8),
            read_le_word(data, base + 12),
            read_le_word(data, base + 16),
            read_le_word(data, base + 20),
        ];
        assert(record@ =~= record_of(data@, n as int));
        rs.push(record);
        n = n + 1;
    }
    rs
}

/// Descrambles each record, in order.
pub fn descramble_records(records: &Vec<[u32; 6]>) -> (qs: Vec<[u32; 4]>)
    ensures
        qs@.len() == records@.len(),
        forall|n: int| 0 <= n < qs@.len() ==> descrambles_to(records@[n]@, #[trigger] qs@[n]@),
{
    let mut qs: Vec<[u32; 4]> = Vec::new();
    let mut n: usize = 0;
    while n < records.len()
        invariant
            n <= records@.len(),
            qs@.len() == n,
            forall|m: int| 0 <= m < n ==> descrambles_to(records@[m]@, #[trigger] qs@[m]@),
        decreases records@.len() - n,
    {
        let q = descramble(&records[n]);
        qs.push(q);
        n = n + 1;
    }
    qs
}

/// Writes the quads out as the binary image: every word little-endian, in order.
pub fn image_bytes(qs: &Vec<[u32; 4]>) -> (bytes: Vec<u8>)
    requires
        16 * qs@.len() <= usize::MAX,
    ensures
        bytes@ == le_image(concat_quads(qs@)),
{
    let ghost ws = concat_quads(qs@);
    let mut bytes: Vec<u8> = Vec::new();
    let mut n: usize = 0;
    while n < qs.len()
        invariant
            ws == concat_quads(qs@),
            16 * qs@.len() <= usize::MAX,
            n <= qs@.len(),
            bytes@.len() == 16 * n,
            forall|i: int| 0 <= i < 16 * n ==> #[trigger] bytes@[i] == le_bytes(ws[i / 4])[i % 4],
        decreases qs@.len() - n,
    {
        let q: [u32; 4] = qs[n];
        let mut j: usize = 0;
        while j < 4
            invariant
                ws == concat_quads(qs@),
                n < qs@.len(),
                q == qs@[n as int],
                j <= 4,
                bytes@.len() == 16 * n + 4 * j,
                forall|i: int| 0 <= i < 16 * n + 4 * j ==> #[trigger] bytes@[i] == le_bytes(ws[i / 4])[i % 4],
            decreases 4 - j,
        {
            let w: u32 = q[j];
            let ghost m: int = 4 * n + j;
            assert(m / 4 == n && m % 4 == j);
            assert(ws[m] == w);
            let ghost before = bytes@.len();
            bytes.push((w & 0xff) as u8);
            bytes.push(((w >> 8u32) & 0xff) as u8);
            bytes.push(((w >> 16u32) & 0xff) as u8);
            bytes.push(((w >> 24u32) & 0xff) as u8);
            assert forall|i: int| 0 <= i < 16 * n + 4 * (j + 1) implies #[trigger] bytes@[i] == le_bytes(ws[i / 4])[i % 4] by {
                if i >= before {
                    assert(i / 4 == m && i % 4 == i - before);
                }
            }
            j = j + 1;
        }
        n = n + 1;
    }
    assert(bytes@ =~= le_image(ws));
    bytes
}

/// A dump taken apart: its complete records, their descrambled quads, the
/// binary image that holds those quads, and how many trailing bytes were left
/// over because they did not fill a record.
pub struct SromImage {
    pub records: Vec<[u32; 6]>,
    pub quads: Vec<[u32; 4]>,
    pub bytes: Vec<u8>,
    pub discarded: usize,
}

/// Descrambles a whole dump. Only complete records are decoded; a shorter
/// tail is left out and its length reported in `discarded`.
pub fn descramble_image(data: &[u8]) -> (img: SromImage)
    ensures
        img.records@.len() == data@.len() / 25,
        forall|n: int| 0 <= n < img.records@.len() ==> #[trigger] img.records@[n]@ == record_of(data@, n),
        img.quads@.len() == img.records@.len(),
        forall|n: int|
            0 <= n < img.quads@.len() ==> descrambles_to(record_of(data@, n), #[trigger] img.quads@[n]@),
        img.bytes@ == le_image(concat_quads(img.quads@)),
        img.discarded == data@.len() % 25,
{
    let len: usize = data.len();
    let records = split_records(data);
    let quads = descramble_records(&records);
    assert(16 * (len / 25) <= len) by (nonlinear_arith);
    let bytes = image_bytes(&quads);
    SromImage { records, quads, bytes, discarded: len % RECORD_BYTES }
}

/// Reading back the four bytes that `le_bytes` writes gives the word again.
proof fn lemma_le_bytes_round_trip(w: u32)
    ensures
        le_word(le_bytes(w), 0) == w,
{
    let b = le_bytes(w);
    assert(b[0] == (w & 0xff) as u8 && b[1] == ((w >> 8u32) & 0xff) as u8 && b[2] == ((w >> 16u32) & 0xff) as u8
        && b[3] == ((w >> 24u32) & 0xff) as u8);
    assert((((w & 0xff) as u8) as u32) | (((((w >> 8u32) & 0xff) as u8) as u32) << 8u32) | (((((w >> 16u32) & 0xff) as u8) as u32) << 16u32)
        | (((((w >> 24u32) & 0xff) as u8) as u32) << 24u32) == w) by (bit_vector);
}

/// The binary image is the concatenation of the quads, byte for byte: reading
/// it back as little-endian words gives every word of every quad, in order.
pub proof fn lemma_image_round_trip(qs: Seq<[u32; 4]>)
    ensures
        le_image(concat_quads(qs)).len() == 16 * qs.len(),
        forall|m: int|
            0 <= m < 4 * qs.len() ==> le_word(le_image(concat_quads(qs)), 4 * m) == #[trigger] concat_quads(
                qs,
            )[m],
{
    let ws = concat_quads(qs);
    let img = le_image(ws);
    assert forall|m: int| 0 <= m < 4 * qs.len() implies le_word(img, 4 * m) == #[trigger] ws[m] by {
        let b = le_bytes(ws[m]);
        assert forall|c: int| 0 <= c < 4 implies img[4 * m + c] == b[c] by {
            assert((4 * m + c) / 4 == m && (4 * m + c) % 4 == c);
        }
        lemma_le_bytes_round_trip(ws[m]);
        assert(img[4 * m] == b[0]);
        assert(img[4 * m + 1] == b[1]);
        assert(img[4 * m + 2] == b[2]);
        assert(img[4 * m + 3] == b[3]);
    }
}

} // verus!
