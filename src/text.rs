use vstd::prelude::*;

verus! {

/// The characters that ASCII counts as white space.
pub open spec fn is_ascii_space(c: char) -> bool {
    c == ' ' || c == '\t' || c == '\n' || c == '\x0C' || c == '\r'
}

/// First position at or after `i` that holds no white space (or the end).
pub open spec fn skip_spaces(s: Seq<char>, i: int) -> int
    decreases s.len() - i,
{
    if 0 <= i < s.len() && is_ascii_space(s[i]) {
        skip_spaces(s, i + 1)
    } else {
        i
    }
}

/// First position at or after `i` that holds white space (or the end).
pub open spec fn word_end(s: Seq<char>, i: int) -> int
    decreases s.len() - i,
{
    if 0 <= i < s.len() && !is_ascii_space(s[i]) {
        word_end(s, i + 1)
    } else {
        i
    }
}

/// Value of a digit character in bases up to 36; 36 for any other character.
pub open spec fn digit_value(c: char) -> int {
    if '0' <= c <= '9' {
        c as int - '0' as int
    } else if 'a' <= c <= 'z' {
        c as int - 'a' as int + 10
    } else if 'A' <= c <= 'Z' {
        c as int - 'A' as int + 10
    } else {
        36
    }
}

/// Every character of `t` is a digit in base `radix`.
pub open spec fn all_digits(t: Seq<char>, radix: int) -> bool {
    forall|k: int| 0 <= k < t.len() ==> #[trigger] digit_value(t[k]) < radix
}

/// The number that the digits `t` spell in base `radix`, most significant first.
pub open spec fn digits_value(t: Seq<char>, radix: int) -> int
    decreases t.len(),
{
    if t.len() == 0 {
        0
    } else {
        digits_value(t.drop_last(), radix) * radix + digit_value(t.last())
    }
}

/// An unsigned 32-bit number written in base `radix`: an optional `+`, then
/// at least one digit, with a value that fits in 32 bits.
pub open spec fn parse_unsigned(t: Seq<char>, radix: int) -> Option<u32> {
    let body = if t.len() > 0 && t[0] == '+' {
        t.drop_first()
    } else {
        t
    };
    if body.len() > 0 && all_digits(body, radix) && digits_value(body, radix) <= u32::MAX {
        Some(digits_value(body, radix) as u32)
    } else {
        None
    }
}

/// Position of the first non-space character at or after `i`.
pub(crate) fn skip_spaces_from(s: &str, len: usize, i: usize) -> (j: usize)
    requires
        len == s@.len(),
        i <= len,
    ensures
        j == skip_spaces(s@, i as int),
        i <= j <= len,
{
    let mut j: usize = i;
    while j < len && is_space_char(s.get_char(j))
        invariant
            len == s@.len(),
            i <= j <= len,
            skip_spaces(s@, j as int) == skip_spaces(s@, i as int),
        decreases len - j,
    {
        j = j + 1;
    }
    j
}

/// Position of the first white-space character at or after `i`.
pub(crate) fn word_end_from(s: &str, len: usize, i: usize) -> (j: usize)
    requires
        len == s@.len(),
        i <= len,
    ensures
        j == word_end(s@, i as int),
        i <= j <= len,
{
    let mut j: usize = i;
    while j < len && !is_space_char(s.get_char(j))
        invariant
            len == s@.len(),
            i <= j <= len,
            word_end(s@, j as int) == word_end(s@, i as int),
        decreases len - j,
    {
        j = j + 1;
    }
    j
}

fn is_space_char(c: char) -> (r: bool)
    ensures
        r == is_ascii_space(c),
{
    c == ' ' || c == '\t' || c == '\n' || c == '\x0C' || c == '\r'
}

/// Digit values are never negative.
proof fn lemma_digits_value_nonneg(t: Seq<char>, radix: int)
    requires
        all_digits(t, radix),
        radix >= 1,
    ensures
        digits_value(t, radix) >= 0,
    decreases t.len(),
{
    if t.len() > 0 {
        let u = t.drop_last();
        assert(all_digits(u, radix)) by {
            assert forall|k: int| 0 <= k < u.len() implies #[trigger] digit_value(u[k]) < radix by {
                assert(u[k] == t[k]);
            }
        }
        lemma_digits_value_nonneg(u, radix);
        let v = digits_value(u, radix);
        assert(digit_value(t.last()) >= 0);
        assert(v * radix >= 0) by (nonlinear_arith)
            requires
                v >= 0,
                radix >= 1,
        ;
    }
}

/// A prefix of a string of digits spells a number no larger than the whole.
proof fn lemma_prefix_value_le(t: Seq<char>, radix: int, n: int)
    requires
        all_digits(t, radix),
        radix >= 1,
        0 <= n <= t.len(),
    ensures
        digits_value(t.subrange(0, n), radix) <= digits_value(t, radix),
    decreases t.len(),
{
    if n == t.len() {
        assert(t.subrange(0, n) =~= t);
    } else {
        let u = t.drop_last();
        assert(all_digits(u, radix)) by {
            assert forall|k: int| 0 <= k < u.len() implies #[trigger] digit_value(u[k]) < radix by {
                assert(u[k] == t[k]);
            }
        }
        lemma_prefix_value_le(u, radix, n);
        assert(u.subrange(0, n) =~= t.subrange(0, n));
        lemma_digits_value_nonneg(u, radix);
        let v = digits_value(u, radix);
        assert(digit_value(t.last()) >= 0);
        assert(v * radix >= v) by (nonlinear_arith)
            requires
                v >= 0,
                radix >= 1,
        ;
    }
}

fn digit_of(c: char) -> (d: u32)
    ensures
        d == digit_value(c),
{
    if '0' <= c && c <= '9' {
        (c as u32) - ('0' as u32)
    } else if 'a' <= c && c <= 'z' {
        (c as u32) - ('a' as u32) + 10
    } else if 'A' <= c && c <= 'Z' {
        (c as u32) - ('A' as u32) + 10
    } else {
        36
    }
}

/// Reads the characters `a..b` of `s` as an unsigned 32-bit number in base
/// `radix`.
pub(crate) fn parse_unsigned_at(s: &str, a: usize, b: usize, radix: u32) -> (r: Option<u32>)
    requires
        a <= b <= s@.len(),
        2 <= radix <= 36,
    ensures
        r == parse_unsigned(s@.subrange(a as int, b as int), radix as int),
{
    let ghost t = s@.subrange(a as int, b as int);
    let mut p: usize = a;
    if a < b && s.get_char(a) == '+' {
        p = a + 1;
    }
    let ghost body = s@.subrange(p as int, b as int);
    assert(body =~= (if t.len() > 0 && t[0] == '+' { t.drop_first() } else { t }));
    if p == b {
        return None;
    }
    let mut acc: u64 = 0;
    let mut i: usize = p;
    while i < b
        invariant
            a <= p <= i <= b <= s@.len(),
            2 <= radix <= 36,
            body == s@.subrange(p as int, b as int),
            t == s@.subrange(a as int, b as int),
            body == (if t.len() > 0 && t[0] == '+' { t.drop_first() } else { t }),
            all_digits(s@.subrange(p as int, i as int), radix as int),
            acc == digits_value(s@.subrange(p as int, i as int), radix as int),
            acc <= u32::MAX,
        decreases b - i,
    {
        let ghost prev = s@.subrange(p as int, i as int);
        let ghost next_seq = s@.subrange(p as int, i + 1);
        assert(next_seq.drop_last() =~= prev);
        assert(next_seq =~= body.subrange(0, i + 1 - p));
        let d: u32 = digit_of(s.get_char(i));
        if d >= radix {
            assert(!all_digits(body, radix as int)) by {
                assert(body[i - p] == s@[i as int]);
            }
            return None;
        }
        assert(acc * radix <= 0xffff_ffffu64 * 36) by (nonlinear_arith)
            requires
                acc <= 0xffff_ffffu64,
                radix <= 36,
        ;
        let next: u64 = acc * (radix as u64) + (d as u64);
        assert forall|k: int| 0 <= k < next_seq.len() implies #[trigger] digit_value(next_seq[k]) < radix by {
            if k < prev.len() {
                assert(next_seq[k] == prev[k]);
            }
        }
        if next > 0xffff_ffffu64 {
            proof {
                if all_digits(body, radix as int) {
                    lemma_prefix_value_le(body, radix as int, i + 1 - p);
                }
            }
            return None;
        }
        acc = next;
        i = i + 1;
    }
    assert(s@.subrange(p as int, i as int) =~= body);
    Some(acc as u32)
}

} // verus!
