use vstd::prelude::*;
use crate::registers::{ipr_decode, ipr_label, reg_name, register_names};
use crate::text::{
    parse_unsigned, parse_unsigned_at, skip_spaces, skip_spaces_from, word_end, word_end_from,
};

verus! {

/// Why a privileged-instruction fragment could not be decoded.
#[derive(Debug, Clone, Copy, PartialEq, Eq, Structural)]
pub enum DecodeError {
    /// The fragment holds no mnemonic.
    MissingMnemonic,
    /// The mnemonic is not followed by an operand.
    MissingOperand,
    /// The operand is not a 32-bit number, hexadecimal after `0x` or decimal.
    BadOperand,
    /// The mnemonic is not one of the privileged forms this decoder knows.
    UnknownMnemonic,
}

/// The operand token `t` as a number: hexadecimal after a `0x` prefix,
/// decimal otherwise.
pub open spec fn parse_operand(t: Seq<char>) -> Option<u32> {
    if t.len() >= 2 && t[0] == '0' && t[1] == 'x' {
        parse_unsigned(t.subrange(2, t.len() as int), 16)
    } else {
        parse_unsigned(t, 10)
    }
}

/// Internal-register field of an operand: its bits 0 to 15.
pub open spec fn ipr_field(v: u32) -> u16 {
    (v & 0xffff) as u16
}

/// Integer-register field of an operand: its bits 16 to 20.
pub open spec fn reg_field(v: u32) -> int {
    ((v >> 16u32) & 0x1f) as int
}

/// What the privileged instruction `mnemonic` with operand `v` does, in
/// words; `None` for a mnemonic that is none of the privileged forms.
pub open spec fn describe(mnemonic: Seq<char>, v: u32) -> Option<Seq<char>> {
    let ipr = ipr_label(ipr_field(v));
    let reg = register_names()[reg_field(v)];
    if mnemonic == "pal19"@ {
        Some("HW_MFPR: read "@ + ipr + " to "@ + reg)
    } else if mnemonic == "pal1b"@ {
        Some("HW_LD"@)
    } else if mnemonic == "pal1d"@ {
        Some("HW_MTPR: write "@ + reg + " to "@ + ipr)
    } else if mnemonic == "pal1e"@ {
        Some("HW_REI"@)
    } else if mnemonic == "pal1f"@ {
        Some("HW_ST"@)
    } else {
        None
    }
}

/// The outcome of decoding the fragment `s`: its first white-space separated
/// word is the mnemonic, its second the operand.
pub open spec fn decode_spec(s: Seq<char>) -> Result<Seq<char>, DecodeError> {
    let a = skip_spaces(s, 0);
    let b = word_end(s, a);
    let c = skip_spaces(s, b);
    let d = word_end(s, c);
    if a >= s.len() {
        Err(DecodeError::MissingMnemonic)
    } else if c >= s.len() {
        Err(DecodeError::MissingOperand)
    } else {
        match parse_operand(s.subrange(c, d)) {
            None => Err(DecodeError::BadOperand),
            Some(v) => match describe(s.subrange(a, b), v) {
                Some(text) => Ok(text),
                None => Err(DecodeError::UnknownMnemonic),
            },
        }
    }
}

/// Whether `lit` stands in `s` from position `a` on.
pub fn occurs_at(s: &str, len: usize, a: usize, lit: &str) -> (r: bool)
    requires
        len == s@.len(),
        a <= len,
    ensures
        r == (a + lit@.len() <= s@.len() && s@.subrange(a as int, a + lit@.len()) == lit@),
{
    let n: usize = lit.unicode_len();
    if n > len - a {
        return false;
    }
    let mut k: usize = 0;
    while k < n
        invariant
            len == s@.len(),
            n == lit@.len(),
            a + n <= len,
            k <= n,
            forall|m: int| 0 <= m < k ==> s@[a + m] == lit@[m],
        decreases n - k,
    {
        if s.get_char(a + k) != lit.get_char(k) {
            assert(s@.subrange(a as int, a + n)[k as int] != lit@[k as int]);
            return false;
        }
        k = k + 1;
    }
    assert(s@.subrange(a as int, a + n) =~= lit@);
    true
}

/// Whether the characters `a..b` of `s` are exactly `lit`.
fn word_is(s: &str, len: usize, a: usize, b: usize, lit: &str) -> (r: bool)
    requires
        len == s@.len(),
        a <= b <= len,
    ensures
        r == (s@.subrange(a as int, b as int) == lit@),
{
    let n: usize = lit.unicode_len();
    if b - a != n {
        assert(s@.subrange(a as int, b as int).len() != lit@.len());
        return false;
    }
    occurs_at(s, len, a, lit)
}

/// Builds `first + middle + last + tail` as a new string.
fn join4(first: &str, middle: &str, last: &str, tail: &str) -> (r: String)
    ensures
        r@ == first@ + middle@ + last@ + tail@,
{
    let mut r = String::from_str(first);
    r.append(middle);
    r.append(last);
    r.append(tail);
    r
}

/// Decodes a privileged-instruction fragment, such as `pal19 0x190100`, into
/// a description of what it does.
pub fn decode(instruction: &str) -> (r: Result<String, DecodeError>)
    ensures
        match r {
            Ok(text) => decode_spec(instruction@) == Ok::<Seq<char>, DecodeError>(text@),
            Err(e) => decode_spec(instruction@) == Err::<Seq<char>, DecodeError>(e),
        },
{
    let s = instruction;
    let len: usize = s.unicode_len();
    let a = skip_spaces_from(s, len, 0);
    let b = word_end_from(s, len, a);
    let c = skip_spaces_from(s, len, b);
    let d = word_end_from(s, len, c);
    if a >= len {
        return Err(DecodeError::MissingMnemonic);
    }
    if c >= len {
        return Err(DecodeError::MissingOperand);
    }
    let hex = d - c >= 2 && occurs_at(s, len, c, "0x");
    proof {
        reveal_strlit("0x");
        if d - c >= 2 {
            let t = s@.subrange(c as int, d as int);
            assert(s@.subrange(c as int, c + 2) == "0x"@ <==> (t[0] == '0' && t[1] == 'x')) by {
                assert(s@.subrange(c as int, c + 2)[0] == t[0]);
                assert(s@.subrange(c as int, c + 2)[1] == t[1]);
                if t[0] == '0' && t[1] == 'x' {
                    assert(s@.subrange(c as int, c + 2) =~= "0x"@);
                }
            }
            assert(t.subrange(2, t.len() as int) =~= s@.subrange(c + 2, d as int));
        }
    }
    let parsed = if hex {
        parse_unsigned_at(s, c + 2, d, 16)
    } else {
        parse_unsigned_at(s, c, d, 10)
    };
    let v: u32 = match parsed {
        None => {
            return Err(DecodeError::BadOperand);
        },
        Some(v) => v,
    };
    let ipr = ipr_decode((v & 0xffff) as u16);
    let field: u32 = (v >> 16u32) & 0x1f;
    assert(field < 32) by (bit_vector)
        requires
            field == (v >> 16u32) & 0x1f,
    ;
    let reg = reg_name(field);
    if word_is(s, len, a, b, "pal19") {
        Ok(join4("HW_MFPR: read ", ipr, " to ", reg))
    } else if word_is(s, len, a, b, "pal1b") {
        Ok(String::from_str("HW_LD"))
    } else if word_is(s, len, a, b, "pal1d") {
        Ok(join4("HW_MTPR: write ", reg, " to ", ipr))
    } else if word_is(s, len, a, b, "pal1e") {
        Ok(String::from_str("HW_REI"))
    } else if word_is(s, len, a, b, "pal1f") {
        Ok(String::from_str("HW_ST"))
    } else {
        Err(DecodeError::UnknownMnemonic)
    }
}

/// The privileged-instruction mnemonic column of a disassembly line starts
/// at position `i` of `s`.
pub open spec fn marker_at(s: Seq<char>, i: int) -> bool {
    i + "\tpal1"@.len() <= s.len() && s.subrange(i, i + "\tpal1"@.len()) == "\tpal1"@
}

/// First position at or after `i` where the mnemonic column starts.
pub open spec fn find_marker(s: Seq<char>, i: int) -> Option<int>
    decreases s.len() - i,
{
    if i < 0 || i >= s.len() {
        None
    } else if marker_at(s, i) {
        Some(i)
    } else {
        find_marker(s, i + 1)
    }
}

/// The outcome of annotating the disassembly line `s`: the line itself when
/// it holds no privileged instruction, else the line followed by ` ; ` and
/// the decoded description of the fragment from the mnemonic column on.
pub open spec fn annotate_spec(s: Seq<char>) -> Result<Seq<char>, DecodeError> {
    match find_marker(s, 0) {
        None => Ok(s),
        Some(x) => match decode_spec(s.subrange(x, s.len() as int)) {
            Ok(text) => Ok(s + " ; "@ + text),
            Err(e) => Err(e),
        },
    }
}

/// Annotates one line of disassembly: a line with a privileged instruction
/// gets its decoded description appended after ` ; `, any other line is kept.
pub fn annotate_line(line: &str) -> (r: Result<String, DecodeError>)
    ensures
        match r {
            Ok(text) => annotate_spec(line@) == Ok::<Seq<char>, DecodeError>(text@),
            Err(e) => annotate_spec(line@) == Err::<Seq<char>, DecodeError>(e),
        },
{
    let len: usize = line.unicode_len();
    let mut i: usize = 0;
    while i < len && !occurs_at(line, len, i, "\tpal1")
        invariant
            len == line@.len(),
            i <= len,
            find_marker(line@, i as int) == find_marker(line@, 0),
        decreases len - i,
    {
        i = i + 1;
    }
    if i >= len {
        return Ok(String::from_str(line));
    }
    let fragment = line.substring_char(i, len);
    match decode(fragment) {
        Ok(text) => {
            let r = join4(line, " ; ", text.as_str(), "");
            proof {
                reveal_strlit("");
                assert(r@ =~= line@ + " ; "@ + text@);
            }
            Ok(r)
        },
        Err(e) => Err(e),
    }
}

} // verus!
