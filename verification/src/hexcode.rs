//! Lowercase hex text for binary payloads, safe to embed in event logs.

use vstd::prelude::*;

use vstd::string::StrSliceExecFns;

verus! {

/// The lowercase hex digit character for a value below sixteen.
pub open spec fn hex_digit(d: nat) -> char {
    if d == 0 {
        '0'
    } else if d == 1 {
        '1'
    } else if d == 2 {
        '2'
    } else if d == 3 {
        '3'
    } else if d == 4 {
        '4'
    } else if d == 5 {
        '5'
    } else if d == 6 {
        '6'
    } else if d == 7 {
        '7'
    } else if d == 8 {
        '8'
    } else if d == 9 {
        '9'
    } else if d == 10 {
        'a'
    } else if d == 11 {
        'b'
    } else if d == 12 {
        'c'
    } else if d == 13 {
        'd'
    } else if d == 14 {
        'e'
    } else {
        'f'
    }
}

/// The characters lowercase hex may contain.
pub open spec fn is_hex_digit(c: char) -> bool {
    ('0' <= c && c <= '9') || ('a' <= c && c <= 'f')
}

/// The value of one lowercase hex digit character.
pub open spec fn hex_nibble_val(c: char) -> nat {
    if '0' <= c && c <= '9' {
        (c as int - '0' as int) as nat
    } else {
        (c as int - 'a' as int + 10) as nat
    }
}

/// The hex text of a byte string: two digits per byte, high nibble first.
pub open spec fn hex_seq(b: Seq<u8>) -> Seq<char> {
    Seq::new(
        2 * b.len(),
        |i: int|
            if i % 2 == 0 {
                hex_digit((b[i / 2] / 16) as nat)
            } else {
                hex_digit((b[i / 2] % 16) as nat)
            },
    )
}

/// Well-formed hex text: even length, lowercase hex digits only.
pub open spec fn valid_hex(s: Seq<char>) -> bool {
    s.len() % 2 == 0 && (forall|i: int| 0 <= i < s.len() ==> is_hex_digit(#[trigger] s[i]))
}

/// The byte string hex text denotes.
pub open spec fn hex_val(s: Seq<char>) -> Seq<u8> {
    Seq::new(
        s.len() / 2,
        |i: int| (16 * hex_nibble_val(s[2 * i]) + hex_nibble_val(s[2 * i + 1])) as u8,
    )
}

/// Relies on `subtle_encoding::hex::encode`: each byte becomes two
/// lowercase hex digits, high nibble first, so the result is ASCII and in
/// particular valid UTF-8.
#[verifier::external_body]
pub fn hex_of_bytes(b: &[u8]) -> (r: String)
    ensures
        r@ == hex_seq(b@),
{
    String::from_utf8(subtle_encoding::hex::encode(b)).unwrap()
}

/// The value of one lowercase hex digit character, or nothing.
fn nibble_val(c: char) -> (r: Option<u8>)
    ensures
        is_hex_digit(c) ==> (r matches Some(d) && d as nat == hex_nibble_val(c) && d < 16),
        !is_hex_digit(c) ==> r is None,
{
    let u = c as u32;
    if '0' <= c && c <= '9' {
        Some((u - 48) as u8)
    } else if 'a' <= c && c <= 'f' {
        Some((u - 87) as u8)
    } else {
        None
    }
}

/// Decodes lowercase hex text; accepts exactly the well-formed texts.
pub fn bytes_of_hex(s: &str) -> (r: Option<Vec<u8>>)
    ensures
        valid_hex(s@) ==> (r matches Some(v) && v@ == hex_val(s@)),
        !valid_hex(s@) ==> r is None,
{
    let len = s.unicode_len();
    if len % 2 != 0 {
        return None;
    }
    let mut out: Vec<u8> = Vec::new();
    let mut i: usize = 0;
    while i < len / 2
        invariant
            len == s@.len(),
            len % 2 == 0,
            0 <= i <= len / 2,
            out@.len() == i,
            forall|j: int|
                0 <= j < 2 * i ==> is_hex_digit(#[trigger] s@[j]),
            forall|j: int|
                0 <= j < i ==> out@[j] == (16 * hex_nibble_val(s@[2 * j]) + hex_nibble_val(
                    s@[2 * j + 1],
                )) as u8,
        decreases len / 2 - i,
    {
        let hi = s.get_char(2 * i);
        let lo = s.get_char(2 * i + 1);
        let h = match nibble_val(hi) {
            Some(d) => d,
            None => {
                return None;
            },
        };
        let l = match nibble_val(lo) {
            Some(d) => d,
            None => {
                return None;
            },
        };
        out.push(16 * h + l);
        i = i + 1;
    }
    assert(out@ =~= hex_val(s@));
    Some(out)
}

/// Decoding the hex text of a byte string yields that byte string, and the
/// text is well formed.
pub proof fn lemma_hex_round_trip(b: Seq<u8>)
    ensures
        valid_hex(hex_seq(b)),
        hex_val(hex_seq(b)) == b,
{
    assert forall|i: int| 0 <= i < hex_seq(b).len() implies is_hex_digit(
        #[trigger] hex_seq(b)[i],
    ) by {
        if i % 2 == 0 {
            assert(0 <= b[i / 2] / 16 < 16);
        }
    }
    assert forall|i: int| 0 <= i < b.len() implies hex_val(hex_seq(b))[i] == b[i] by {
        let s = hex_seq(b);
        assert(s[2 * i] == hex_digit((b[i] / 16) as nat));
        assert(s[2 * i + 1] == hex_digit((b[i] % 16) as nat));
        assert(hex_nibble_val(hex_digit((b[i] / 16) as nat)) == (b[i] / 16) as nat);
        assert(hex_nibble_val(hex_digit((b[i] % 16) as nat)) == (b[i] % 16) as nat);
    }
    assert(hex_val(hex_seq(b)) =~= b);
}

} // verus!
