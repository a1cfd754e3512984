//! Hex decoding for the side-file key text.
use vstd::prelude::*;
use crate::errors::ParserError;

verus! {

/// Value of one hex digit, or -1 for any other byte.
pub open spec fn hex_val(c: u8) -> int {
    if 48 <= c <= 57 {
        c - 48
    } else if 97 <= c <= 102 {
        c - 87
    } else if 65 <= c <= 70 {
        c - 55
    } else {
        -1
    }
}

/// The text is well-formed hex: even length, digits only.
pub open spec fn hex_ok(s: Seq<u8>) -> bool {
    s.len() % 2 == 0 && forall|i: int| 0 <= i < s.len() ==> hex_val(#[trigger] s[i]) >= 0
}

/// Byte i encoded by digit pair 2i, 2i+1.
pub open spec fn hex_byte(s: Seq<u8>, i: int) -> int {
    16 * hex_val(s[2 * i]) + hex_val(s[2 * i + 1])
}

/// Value of one hex digit.
fn hex_val_x(c: u8) -> (r: i32)
    ensures
        r == hex_val(c),
{
    if 48 <= c && c <= 57 {
        (c - 48) as i32
    } else if 97 <= c && c <= 102 {
        (c - 87) as i32
    } else if 65 <= c && c <= 70 {
        (c - 55) as i32
    } else {
        -1
    }
}

/// Decodes hex text into bytes; text of odd length or with a non-digit is a
/// corrupt-key condition.
pub fn decode_hex(s: &[u8]) -> (r: Result<Vec<u8>, ParserError>)
    ensures
        r is Ok <==> hex_ok(s@),
        r is Ok ==> r->Ok_0@.len() == s@.len() / 2 && forall|i: int|
            0 <= i < s@.len() / 2 ==> r->Ok_0@[i] == hex_byte(s@, i),
        r is Err ==> r->Err_0 is Crypto,
{
    if s.len() % 2 != 0 {
        return Err(ParserError::Crypto);
    }
    let n = s.len() / 2;
    let sl = s.len();
    let mut out: Vec<u8> = Vec::new();
    let mut i: usize = 0;
    while i < n
        invariant
            i <= n,
            n == s@.len() / 2,
            sl == s@.len(),
            s@.len() % 2 == 0,
            out@.len() == i,
            forall|j: int| 0 <= j < 2 * i ==> hex_val(#[trigger] s@[j]) >= 0,
            forall|j: int| 0 <= j < i ==> out@[j] == hex_byte(s@, j),
        decreases n - i,
    {
        proof {
            assert(2 * i + 1 < s@.len());
        }
        let hi = hex_val_x(s[2 * i]);
        let lo = hex_val_x(s[2 * i + 1]);
        if hi < 0 || lo < 0 {
            return Err(ParserError::Crypto);
        }
        out.push((16 * hi + lo) as u8);
        i = i + 1;
    }
    proof {
        assert(forall|j: int| 0 <= j < s@.len() ==> hex_val(#[trigger] s@[j]) >= 0);
    }
    Ok(out)
}

} // verus!
