//! Canonical binary form for event attributes.
//!
//! The schema is fixed: integers are little-endian with a fixed width,
//! strings and byte blobs carry a four-byte length prefix, lists carry a
//! four-byte count. Re-encoding a decoded value reproduces the input
//! byte for byte, and decoding an encoded value restores it exactly.

use vstd::prelude::*;

verus! {

/// `256^k`.
pub open spec fn pow256(k: nat) -> nat
    decreases k,
{
    if k == 0 {
        1
    } else {
        256 * pow256((k - 1) as nat)
    }
}

/// The `k` little-endian bytes of `n`.
pub open spec fn le_bytes(n: nat, k: nat) -> Seq<u8>
    decreases k,
{
    if k == 0 {
        Seq::empty()
    } else {
        seq![(n % 256) as u8] + le_bytes(n / 256, (k - 1) as nat)
    }
}

/// The number a little-endian byte string denotes.
pub open spec fn le_val(s: Seq<u8>) -> nat
    decreases s.len(),
{
    if s.len() == 0 {
        0
    } else {
        s[0] as nat + 256 * le_val(s.drop_first())
    }
}

/// A little-endian byte string of length `k` denotes a value below
/// `256^k`.
pub proof fn lemma_le_val_bound(s: Seq<u8>)
    ensures
        le_val(s) < pow256(s.len()),
    decreases s.len(),
{
    if s.len() > 0 {
        lemma_le_val_bound(s.drop_first());
    }
}

/// Reading back the little-endian bytes of `n` yields `n`, for `n` within
/// width.
pub proof fn lemma_le_val_of_le_bytes(n: nat, k: nat)
    requires
        n < pow256(k),
    ensures
        le_bytes(n, k).len() == k,
        le_val(le_bytes(n, k)) == n,
    decreases k,
{
    if k > 0 {
        lemma_le_val_of_le_bytes(n / 256, (k - 1) as nat);
        let s = le_bytes(n, k);
        assert(s.drop_first() =~= le_bytes(n / 256, (k - 1) as nat));
    }
}

/// Re-encoding the value of a little-endian byte string reproduces it.
pub proof fn lemma_le_bytes_of_le_val(s: Seq<u8>)
    ensures
        le_bytes(le_val(s), s.len()) == s,
    decreases s.len(),
{
    if s.len() > 0 {
        lemma_le_bytes_of_le_val(s.drop_first());
        let n = le_val(s);
        assert(n % 256 == s[0]);
        assert(n / 256 == le_val(s.drop_first()));
        assert(le_bytes(n, s.len()) =~= s);
    }
}

/// Appends the four little-endian bytes of `n`.
pub fn push_u32_le(out: &mut Vec<u8>, n: u32)
    ensures
        final(out)@ == old(out)@ + le_bytes(n as nat, 4),
{
    let ghost start = old(out)@;
    let mut cur: u64 = n as u64;
    let mut i: usize = 0;
    while i < 4
        invariant
            0 <= i <= 4,
            start + le_bytes(n as nat, 4) == out@ + le_bytes(cur as nat, (4 - i) as nat),
        decreases 4 - i,
    {
        let ghost before = out@;
        out.push((cur % 256) as u8);
        proof {
            assert(le_bytes(cur as nat, (4 - i) as nat) == seq![(cur % 256) as u8] + le_bytes(
                cur as nat / 256,
                (4 - i - 1) as nat,
            ));
            assert(before + le_bytes(cur as nat, (4 - i) as nat) =~= before.push(
                (cur % 256) as u8,
            ) + le_bytes(cur as nat / 256, (4 - i - 1) as nat));
        }
        cur = cur / 256;
        i = i + 1;
    }
    assert(out@ =~= start + le_bytes(n as nat, 4));
}

/// Appends the eight little-endian bytes of `n`.
pub fn push_u64_le(out: &mut Vec<u8>, n: u64)
    ensures
        final(out)@ == old(out)@ + le_bytes(n as nat, 8),
{
    let ghost start = old(out)@;
    let mut cur: u64 = n;
    let mut i: usize = 0;
    while i < 8
        invariant
            0 <= i <= 8,
            start + le_bytes(n as nat, 8) == out@ + le_bytes(cur as nat, (8 - i) as nat),
        decreases 8 - i,
    {
        let ghost before = out@;
        out.push((cur % 256) as u8);
        proof {
            assert(le_bytes(cur as nat, (8 - i) as nat) == seq![(cur % 256) as u8] + le_bytes(
                cur as nat / 256,
                (8 - i - 1) as nat,
            ));
            assert(before + le_bytes(cur as nat, (8 - i) as nat) =~= before.push(
                (cur % 256) as u8,
            ) + le_bytes(cur as nat / 256, (8 - i - 1) as nat));
        }
        cur = cur / 256;
        i = i + 1;
    }
    assert(out@ =~= start + le_bytes(n as nat, 8));
}

/// `256^k` for every width this codec uses, spelled out.
proof fn lemma_pow256_values()
    ensures
        pow256(4) == 0x1_0000_0000,
        pow256(8) == 0x1_0000_0000_0000_0000,
{
    assert(pow256(0) == 1);
    assert(pow256(1) == 256);
    assert(pow256(2) == 0x1_0000);
    assert(pow256(3) == 0x100_0000);
    assert(pow256(4) == 0x1_0000_0000);
    assert(pow256(5) == 0x100_0000_0000);
    assert(pow256(6) == 0x1_0000_0000_0000);
    assert(pow256(7) == 0x100_0000_0000_0000);
    assert(pow256(8) == 0x1_0000_0000_0000_0000);
}

/// Reads `width` little-endian bytes at `pos` as a number; `width` is at
/// most eight.
fn read_le(b: &[u8], pos: usize, width: usize) -> (r: Option<(u64, usize)>)
    requires
        width <= 8,
    ensures
        pos + width <= b@.len() ==> (r matches Some(p) && p.0 as nat == le_val(
            b@.subrange(pos as int, pos as int + width as int),
        ) && p.1 == pos + width),
        pos + width > b@.len() ==> r is None,
{
    if pos > b.len() || width > b.len() - pos {
        return None;
    }
    let ghost s = b@.subrange(pos as int, pos as int + width as int);
    let mut acc: u64 = 0;
    let mut i: usize = width;
    while i > 0
        invariant
            0 <= i <= width,
            width <= 8,
            pos + width <= b@.len(),
            b@.len() <= usize::MAX,
            s == b@.subrange(pos as int, pos as int + width as int),
            acc as nat == le_val(s.skip(i as int)),
            (acc as nat) < pow256((width - i) as nat),
        decreases i,
    {
        proof {
            lemma_pow256_values();
            assert(pow256((width - i) as nat) * 256 == pow256((width - i + 1) as nat));
            lemma_pow256_le((width - i + 1) as nat, 8);
            assert(acc as nat * 256 + 255 < pow256((width - i + 1) as nat));
        }
        let byte = b[pos + (i - 1)];
        proof {
            assert(s.skip(i as int - 1)[0] == s[i as int - 1]);
            assert(s[i as int - 1] == b@[pos + i - 1]);
            assert(s.skip(i as int - 1).drop_first() =~= s.skip(i as int));
        }
        acc = acc * 256 + (byte as u64);
        i = i - 1;
    }
    assert(s.skip(0) =~= s);
    Some((acc, pos + width))
}

/// `256^j` divides `256^k` upward: the power grows with the exponent.
proof fn lemma_pow256_le(j: nat, k: nat)
    requires
        j <= k,
    ensures
        pow256(j) <= pow256(k),
    decreases k,
{
    if j < k {
        lemma_pow256_le(j, (k - 1) as nat);
        assert(pow256((k - 1) as nat) <= 256 * pow256((k - 1) as nat));
    }
}

} // verus!

// ---------------------------------------------------------------------------
// ASCII text as bytes
// ---------------------------------------------------------------------------

verus! {

/// The bytes of an ASCII character sequence, one byte per character.
pub open spec fn ascii_bytes(s: Seq<char>) -> Seq<u8> {
    Seq::new(s.len(), |i: int| s[i] as u8)
}

/// The characters of a byte string, one character per byte.
pub open spec fn chars_of(b: Seq<u8>) -> Seq<char> {
    Seq::new(b.len(), |i: int| b[i] as char)
}

/// Every character is ASCII.
pub open spec fn all_chars_ascii(s: Seq<char>) -> bool {
    forall|i: int| 0 <= i < s.len() ==> (#[trigger] s[i] as int) < 128
}

/// Every byte is ASCII.
pub open spec fn all_bytes_ascii(b: Seq<u8>) -> bool {
    forall|i: int| 0 <= i < b.len() ==> (#[trigger] b[i]) < 128
}

/// A character below 128 survives the cast to a byte and back.
proof fn lemma_char_byte_round(c: char)
    requires
        (c as int) < 128,
    ensures
        ((c as u8) as char) == c,
        ((c as u8) as int) == c as int,
{
    let u = c as u32;
    assert((u as u8) as u32 == u);
    assert(c as u8 == u as u8);
    let d = (c as u8) as char;
    assert(d as u32 == (c as u8) as u32);
    vstd::utf8::char_u32_cast(c, u);
    vstd::utf8::char_u32_cast(d, d as u32);
}

/// A byte below 128 survives the cast to a character and back.
proof fn lemma_byte_char_round(b: u8)
    requires
        b < 128,
    ensures
        ((b as char) as u8) == b,
        ((b as char) as int) == b as int,
{
    let d = b as char;
    assert(d as u32 == b as u32);
    assert(d as u8 == (d as u32) as u8);
}

/// ASCII text survives the trip through bytes.
pub proof fn lemma_chars_of_ascii_bytes(s: Seq<char>)
    requires
        all_chars_ascii(s),
    ensures
        all_bytes_ascii(ascii_bytes(s)),
        chars_of(ascii_bytes(s)) == s,
{
    assert forall|i: int|
        0 <= i < s.len() implies chars_of(ascii_bytes(s))[i] == s[i] && (#[trigger] ascii_bytes(
        s,
    )[i]) < 128 by {
        assert((s[i] as int) < 128);
        lemma_char_byte_round(s[i]);
    }
    assert(chars_of(ascii_bytes(s)) =~= s);
}

/// ASCII bytes survive the trip through characters.
pub proof fn lemma_ascii_bytes_of_chars(b: Seq<u8>)
    requires
        all_bytes_ascii(b),
    ensures
        all_chars_ascii(chars_of(b)),
        ascii_bytes(chars_of(b)) == b,
{
    assert forall|i: int|
        0 <= i < b.len() implies ((#[trigger] chars_of(b)[i]) as int) < 128 && ascii_bytes(
        chars_of(b),
    )[i] == b[i] by {
        assert(b[i] < 128);
        lemma_byte_char_round(b[i]);
    }
    assert(ascii_bytes(chars_of(b)) =~= b);
}

} // verus!

// ---------------------------------------------------------------------------
// The canonical formats
// ---------------------------------------------------------------------------

verus! {

use crate::height::Height;

/// A length-prefixed ASCII string: four length bytes, then the text.
pub open spec fn bin_string(s: Seq<char>) -> Seq<u8> {
    le_bytes(s.len(), 4) + ascii_bytes(s)
}

/// A length-prefixed byte blob: four length bytes, then the bytes.
pub open spec fn bin_bytes(b: Seq<u8>) -> Seq<u8> {
    le_bytes(b.len(), 4) + b
}

/// A height: revision number then revision height, eight bytes each.
pub open spec fn bin_height(h: Height) -> Seq<u8> {
    le_bytes(h.revision_number as nat, 8) + le_bytes(h.revision_height as nat, 8)
}

/// The heights of a list, one after the other.
pub open spec fn heights_payload(v: Seq<Height>) -> Seq<u8>
    decreases v.len(),
{
    if v.len() == 0 {
        Seq::empty()
    } else {
        bin_height(v[0]) + heights_payload(v.drop_first())
    }
}

/// A counted list of heights: four count bytes, then the heights.
pub open spec fn bin_heights(v: Seq<Height>) -> Seq<u8> {
    le_bytes(v.len(), 4) + heights_payload(v)
}

/// An opaque payload: its type URL, then its raw bytes.
pub open spec fn bin_any(type_url: Seq<char>, value: Seq<u8>) -> Seq<u8> {
    bin_string(type_url) + bin_bytes(value)
}

// -----------------------------------------------------------------------
// Spec-level decoders: each consumes a prefix and returns the value with
// the remainder, or nothing when no well-formed prefix is there.
// -----------------------------------------------------------------------

/// Decodes eight little-endian bytes.
pub open spec fn sdec_u64(b: Seq<u8>) -> Option<(u64, Seq<u8>)> {
    if b.len() >= 8 {
        Some((le_val(b.take(8)) as u64, b.skip(8)))
    } else {
        None
    }
}

/// Decodes a four-byte length prefix.
pub open spec fn sdec_len(b: Seq<u8>) -> Option<(nat, Seq<u8>)> {
    if b.len() >= 4 {
        Some((le_val(b.take(4)), b.skip(4)))
    } else {
        None
    }
}

/// Decodes a length-prefixed ASCII string.
pub open spec fn sdec_string(b: Seq<u8>) -> Option<(Seq<char>, Seq<u8>)> {
    match sdec_len(b) {
        Some((n, rest)) => if rest.len() >= n && all_bytes_ascii(rest.take(n as int)) {
            Some((chars_of(rest.take(n as int)), rest.skip(n as int)))
        } else {
            None
        },
        None => None,
    }
}

/// Decodes a length-prefixed byte blob.
pub open spec fn sdec_bytes(b: Seq<u8>) -> Option<(Seq<u8>, Seq<u8>)> {
    match sdec_len(b) {
        Some((n, rest)) => if rest.len() >= n {
            Some((rest.take(n as int), rest.skip(n as int)))
        } else {
            None
        },
        None => None,
    }
}

/// Decodes one height.
pub open spec fn sdec_height(b: Seq<u8>) -> Option<(Height, Seq<u8>)> {
    match sdec_u64(b) {
        Some((r, rest)) => match sdec_u64(rest) {
            Some((h, rest2)) => Some(
                (Height { revision_number: r, revision_height: h }, rest2),
            ),
            None => None,
        },
        None => None,
    }
}

/// Decodes `n` heights one after the other.
pub open spec fn sdec_height_list(b: Seq<u8>, n: nat) -> Option<(Seq<Height>, Seq<u8>)>
    decreases n,
{
    if n == 0 {
        Some((Seq::empty(), b))
    } else {
        match sdec_height(b) {
            Some((h, rest)) => match sdec_height_list(rest, (n - 1) as nat) {
                Some((v, rest2)) => Some((seq![h] + v, rest2)),
                None => None,
            },
            None => None,
        }
    }
}

/// Decodes a counted list of heights.
pub open spec fn sdec_heights(b: Seq<u8>) -> Option<(Seq<Height>, Seq<u8>)> {
    match sdec_len(b) {
        Some((n, rest)) => sdec_height_list(rest, n),
        None => None,
    }
}

/// Decodes an opaque payload: type URL, then raw bytes.
pub open spec fn sdec_any(b: Seq<u8>) -> Option<((Seq<char>, Seq<u8>), Seq<u8>)> {
    match sdec_string(b) {
        Some((url, rest)) => match sdec_bytes(rest) {
            Some((value, rest2)) => Some(((url, value), rest2)),
            None => None,
        },
        None => None,
    }
}

} // verus!

// ---------------------------------------------------------------------------
// Executable encoders
// ---------------------------------------------------------------------------

verus! {

use vstd::string::StrSliceExecFns;

/// Appends the bytes of ASCII text, one byte per character.
fn push_ascii(out: &mut Vec<u8>, s: &str)
    requires
        all_chars_ascii(s@),
    ensures
        final(out)@ == old(out)@ + ascii_bytes(s@),
{
    let ghost start = old(out)@;
    let len = s.unicode_len();
    let mut i: usize = 0;
    while i < len
        invariant
            len == s@.len(),
            all_chars_ascii(s@),
            0 <= i <= len,
            out@ == start + ascii_bytes(s@.take(i as int)),
        decreases len - i,
    {
        let c = s.get_char(i);
        proof {
            assert((s@[i as int] as int) < 128);
        }
        out.push(c as u8);
        proof {
            assert(ascii_bytes(s@.take(i as int + 1)) =~= ascii_bytes(s@.take(i as int)).push(
                s@[i as int] as u8,
            ));
            assert(out@ =~= start + ascii_bytes(s@.take(i as int + 1)));
        }
        i = i + 1;
    }
    assert(s@.take(len as int) =~= s@);
}

/// Appends a length-prefixed ASCII string.
pub fn encode_string(out: &mut Vec<u8>, s: &str)
    requires
        all_chars_ascii(s@),
        s@.len() <= u32::MAX,
    ensures
        final(out)@ == old(out)@ + bin_string(s@),
{
    let len = s.unicode_len();
    push_u32_le(out, len as u32);
    push_ascii(out, s);
    assert(final(out)@ =~= old(out)@ + bin_string(s@));
}

/// Appends a length-prefixed byte blob.
pub fn encode_bytes(out: &mut Vec<u8>, b: &[u8])
    requires
        b@.len() <= u32::MAX,
    ensures
        final(out)@ == old(out)@ + bin_bytes(b@),
{
    let len = b.len();
    push_u32_le(out, len as u32);
    let mut i: usize = 0;
    let ghost start = old(out)@;
    while i < len
        invariant
            len == b@.len(),
            len <= u32::MAX,
            0 <= i <= len,
            out@ == start + le_bytes(len as nat, 4) + b@.take(i as int),
        decreases len - i,
    {
        let byte = b[i];
        out.push(byte);
        proof {
            assert(b@.take(i as int + 1) =~= b@.take(i as int).push(b@[i as int]));
            assert(out@ =~= start + le_bytes(len as nat, 4) + b@.take(i as int + 1));
        }
        i = i + 1;
    }
    assert(b@.take(len as int) =~= b@);
    assert(out@ =~= start + bin_bytes(b@));
}

/// Appends one height.
pub fn encode_height(out: &mut Vec<u8>, h: &Height)
    ensures
        final(out)@ == old(out)@ + bin_height(*h),
{
    push_u64_le(out, h.revision_number);
    push_u64_le(out, h.revision_height);
    assert(final(out)@ =~= old(out)@ + bin_height(*h));
}

/// Appending one height to a list payload appends its bytes.
proof fn lemma_heights_payload_push(u: Seq<Height>, h: Height)
    ensures
        heights_payload(u.push(h)) == heights_payload(u) + bin_height(h),
    decreases u.len(),
{
    if u.len() == 0 {
        assert(u.push(h)[0] == h);
        assert(u.push(h).drop_first() =~= Seq::<Height>::empty());
        assert(heights_payload(Seq::<Height>::empty()) =~= Seq::<u8>::empty());
        assert(heights_payload(u.push(h)) =~= heights_payload(u) + bin_height(h));
    } else {
        lemma_heights_payload_push(u.drop_first(), h);
        assert(u.push(h)[0] == u[0]);
        assert(u.push(h).drop_first() =~= u.drop_first().push(h));
        assert(heights_payload(u.push(h)) =~= heights_payload(u) + bin_height(h));
    }
}

/// Appends a counted list of heights.
pub fn encode_heights(out: &mut Vec<u8>, v: &Vec<Height>)
    requires
        v@.len() <= u32::MAX,
    ensures
        final(out)@ == old(out)@ + bin_heights(v@),
{
    let len = v.len();
    push_u32_le(out, len as u32);
    let ghost start = old(out)@;
    let mut i: usize = 0;
    while i < len
        invariant
            len == v@.len(),
            len <= u32::MAX,
            0 <= i <= len,
            out@ == start + le_bytes(len as nat, 4) + heights_payload(v@.take(i as int)),
        decreases len - i,
    {
        push_u64_le(out, v[i].revision_number);
        push_u64_le(out, v[i].revision_height);
        proof {
            lemma_heights_payload_push(v@.take(i as int), v@[i as int]);
            assert(v@.take(i as int).push(v@[i as int]) =~= v@.take(i as int + 1));
            assert(out@ =~= start + le_bytes(len as nat, 4) + heights_payload(
                v@.take(i as int + 1),
            ));
        }
        i = i + 1;
    }
    assert(v@.take(len as int) =~= v@);
    assert(out@ =~= start + bin_heights(v@));
}

/// Appends an opaque payload: its type URL, then its raw bytes.
pub fn encode_any(out: &mut Vec<u8>, type_url: &str, value: &[u8])
    requires
        all_chars_ascii(type_url@),
        type_url@.len() <= u32::MAX,
        value@.len() <= u32::MAX,
    ensures
        final(out)@ == old(out)@ + bin_any(type_url@, value@),
{
    encode_string(out, type_url);
    encode_bytes(out, value);
    assert(final(out)@ =~= old(out)@ + bin_any(type_url@, value@));
}

} // verus!

// ---------------------------------------------------------------------------
// Executable decoders
// ---------------------------------------------------------------------------

verus! {

use crate::text::push_char;

/// Reads one height at `pos`.
pub fn read_height_at(b: &[u8], pos: usize) -> (r: Option<(Height, usize)>)
    requires
        pos <= b@.len(),
    ensures
        match r {
            Some(p) => pos <= p.1 <= b@.len() && sdec_height(b@.skip(pos as int)) == Some(
                (p.0, b@.skip(p.1 as int)),
            ),
            None => sdec_height(b@.skip(pos as int)) is None,
        },
{
    let ghost tail = b@.skip(pos as int);
    let first = match read_le(b, pos, 8) {
        Some(p) => p,
        None => {
            assert(tail.len() < 8);
            return None;
        },
    };
    proof {
        assert(tail.take(8) =~= b@.subrange(pos as int, pos as int + 8));
        lemma_le_val_bound(tail.take(8));
        lemma_pow256_values();
        assert(tail.skip(8) =~= b@.skip(pos as int + 8));
    }
    let second = match read_le(b, first.1, 8) {
        Some(p) => p,
        None => {
            assert(b@.skip(pos as int + 8).len() < 8);
            return None;
        },
    };
    proof {
        let mid = b@.skip(pos as int + 8);
        assert(mid.take(8) =~= b@.subrange(first.1 as int, first.1 as int + 8));
        lemma_le_val_bound(mid.take(8));
        assert(mid.skip(8) =~= b@.skip(second.1 as int));
    }
    Some((Height { revision_number: first.0, revision_height: second.0 }, second.1))
}

/// Reads a length-prefixed ASCII string at `pos`.
pub fn read_string_at(b: &[u8], pos: usize) -> (r: Option<(String, usize)>)
    requires
        pos <= b@.len(),
    ensures
        match r {
            Some(p) => pos <= p.1 <= b@.len() && sdec_string(b@.skip(pos as int)) == Some(
                (p.0@, b@.skip(p.1 as int)),
            ),
            None => sdec_string(b@.skip(pos as int)) is None,
        },
{
    let ghost tail = b@.skip(pos as int);
    let blen = b.len();
    let (n64, p) = match read_le(b, pos, 4) {
        Some(q) => q,
        None => {
            assert(tail.len() < 4);
            return None;
        },
    };
    proof {
        assert(tail.take(4) =~= b@.subrange(pos as int, pos as int + 4));
        assert(tail.skip(4) =~= b@.skip(p as int));
    }
    if n64 > (blen - p) as u64 {
        assert(b@.skip(p as int).len() < n64 as nat);
        return None;
    }
    let n = n64 as usize;
    let ghost payload = b@.skip(p as int).take(n64 as int);
    assert(payload =~= b@.subrange(p as int, p as int + n64 as int));
    assert(sdec_len(tail) == Some((n64 as nat, b@.skip(p as int))));
    let mut sout = String::new();
    let mut i: usize = 0;
    while i < n
        invariant
            pos <= p,
            p + n <= b@.len(),
            b@.len() <= usize::MAX,
            n == n64,
            0 <= i <= n,
            tail == b@.skip(pos as int),
            sdec_len(tail) == Some((n64 as nat, b@.skip(p as int))),
            payload == b@.subrange(p as int, p as int + n as int),
            forall|j: int| 0 <= j < i ==> (#[trigger] payload[j]) < 128,
            sout@ == chars_of(payload.take(i as int)),
        decreases n - i,
    {
        let byte = b[p + i];
        assert(byte == payload[i as int]);
        if byte >= 128 {
            proof {
                assert(payload[i as int] >= 128);
                assert(b@.skip(p as int).take(n64 as int) =~= payload);
                assert(!all_bytes_ascii(payload));
                assert(sdec_string(tail) is None);
            }
            return None;
        }
        push_char(&mut sout, byte as char);
        proof {
            assert(chars_of(payload.take(i as int + 1)) =~= chars_of(payload.take(i as int)).push(
                payload[i as int] as char,
            ));
        }
        i = i + 1;
    }
    proof {
        assert(payload.take(n as int) =~= payload);
        assert(all_bytes_ascii(payload));
        assert(b@.skip(p as int).skip(n64 as int) =~= b@.skip(p as int + n64 as int));
    }
    Some((sout, p + n))
}

/// Reads a length-prefixed byte blob at `pos`.
pub fn read_bytes_at(b: &[u8], pos: usize) -> (r: Option<(Vec<u8>, usize)>)
    requires
        pos <= b@.len(),
    ensures
        match r {
            Some(p) => pos <= p.1 <= b@.len() && sdec_bytes(b@.skip(pos as int)) == Some(
                (p.0@, b@.skip(p.1 as int)),
            ),
            None => sdec_bytes(b@.skip(pos as int)) is None,
        },
{
    let ghost tail = b@.skip(pos as int);
    let blen = b.len();
    let (n64, p) = match read_le(b, pos, 4) {
        Some(q) => q,
        None => {
            assert(tail.len() < 4);
            return None;
        },
    };
    proof {
        assert(tail.take(4) =~= b@.subrange(pos as int, pos as int + 4));
        assert(tail.skip(4) =~= b@.skip(p as int));
    }
    if n64 > (blen - p) as u64 {
        assert(b@.skip(p as int).len() < n64 as nat);
        return None;
    }
    let n = n64 as usize;
    let ghost payload = b@.skip(p as int).take(n64 as int);
    assert(payload =~= b@.subrange(p as int, p as int + n as int));
    assert(sdec_len(tail) == Some((n64 as nat, b@.skip(p as int))));
    let mut out: Vec<u8> = Vec::new();
    let mut i: usize = 0;
    while i < n
        invariant
            pos <= p,
            p + n <= b@.len(),
            b@.len() <= usize::MAX,
            n == n64,
            0 <= i <= n,
            tail == b@.skip(pos as int),
            sdec_len(tail) == Some((n64 as nat, b@.skip(p as int))),
            payload == b@.subrange(p as int, p as int + n as int),
            out@ == payload.take(i as int),
        decreases n - i,
    {
        let byte = b[p + i];
        out.push(byte);
        proof {
            assert(payload.take(i as int + 1) =~= payload.take(i as int).push(payload[i as int]));
        }
        i = i + 1;
    }
    proof {
        assert(payload.take(n as int) =~= payload);
        assert(b@.skip(p as int).skip(n64 as int) =~= b@.skip(p as int + n64 as int));
    }
    Some((out, p + n))
}

/// Reads `n` heights one after the other, starting at `pos`.
pub fn read_height_list_at(b: &[u8], pos: usize, n: u64) -> (r: Option<(Vec<Height>, usize)>)
    requires
        pos <= b@.len(),
    ensures
        match r {
            Some(p) => pos <= p.1 <= b@.len() && sdec_height_list(b@.skip(pos as int), n as nat)
                == Some((p.0@, b@.skip(p.1 as int))),
            None => sdec_height_list(b@.skip(pos as int), n as nat) is None,
        },
{
    let ghost orig = b@.skip(pos as int);
    let mut acc: Vec<Height> = Vec::new();
    let mut cur: usize = pos;
    let mut i: u64 = 0;
    proof {
        if sdec_height_list(orig, n as nat) is Some {
            let q = sdec_height_list(orig, n as nat)->Some_0;
            assert(Seq::<Height>::empty() + q.0 =~= q.0);
        }
    }
    while i < n
        invariant
            pos <= cur <= b@.len(),
            0 <= i <= n,
            orig == b@.skip(pos as int),
            sdec_height_list(orig, n as nat) == match sdec_height_list(
                b@.skip(cur as int),
                (n - i) as nat,
            ) {
                Some(q) => Some((acc@ + q.0, q.1)),
                None => None::<(Seq<Height>, Seq<u8>)>,
            },
        decreases n - i,
    {
        match read_height_at(b, cur) {
            Some((h, next)) => {
                let ghost before = acc@;
                acc.push(h);
                proof {
                    if sdec_height_list(b@.skip(next as int), (n - i - 1) as nat) is Some {
                        let q = sdec_height_list(b@.skip(next as int), (n - i - 1) as nat)->Some_0;
                        assert(before + (seq![h] + q.0) =~= before.push(h) + q.0);
                    }
                }
                cur = next;
            },
            None => {
                proof {
                    assert(((n - i) as nat) > 0);
                    assert(sdec_height_list(b@.skip(cur as int), (n - i) as nat) is None);
                }
                return None;
            },
        }
        i = i + 1;
    }
    proof {
        assert(acc@ + Seq::<Height>::empty() =~= acc@);
    }
    Some((acc, cur))
}

/// Reads a counted list of heights at `pos`.
pub fn read_heights_at(b: &[u8], pos: usize) -> (r: Option<(Vec<Height>, usize)>)
    requires
        pos <= b@.len(),
    ensures
        match r {
            Some(p) => pos <= p.1 <= b@.len() && sdec_heights(b@.skip(pos as int)) == Some(
                (p.0@, b@.skip(p.1 as int)),
            ),
            None => sdec_heights(b@.skip(pos as int)) is None,
        },
{
    let ghost tail = b@.skip(pos as int);
    let (n64, p) = match read_le(b, pos, 4) {
        Some(q) => q,
        None => {
            assert(tail.len() < 4);
            return None;
        },
    };
    proof {
        assert(tail.take(4) =~= b@.subrange(pos as int, pos as int + 4));
        assert(tail.skip(4) =~= b@.skip(p as int));
    }
    read_height_list_at(b, p, n64)
}

/// Reads an opaque payload at `pos`: its type URL, then its raw bytes.
pub fn read_any_at(b: &[u8], pos: usize) -> (r: Option<(String, Vec<u8>, usize)>)
    requires
        pos <= b@.len(),
    ensures
        match r {
            Some(p) => pos <= p.2 <= b@.len() && sdec_any(b@.skip(pos as int)) == Some(
                ((p.0@, p.1@), b@.skip(p.2 as int)),
            ),
            None => sdec_any(b@.skip(pos as int)) is None,
        },
{
    let (url, p) = match read_string_at(b, pos) {
        Some(q) => q,
        None => {
            return None;
        },
    };
    let (value, p2) = match read_bytes_at(b, p) {
        Some(q) => q,
        None => {
            return None;
        },
    };
    Some((url, value, p2))
}

} // verus!

// ---------------------------------------------------------------------------
// Round trips: decoding an encoding restores the value, and re-encoding a
// decoded value reproduces the bytes.
// ---------------------------------------------------------------------------

verus! {

/// Decoding the bytes of a length prefix restores the length.
proof fn lemma_sdec_len_round(n: nat, rest: Seq<u8>)
    requires
        n <= u32::MAX,
    ensures
        sdec_len(le_bytes(n, 4) + rest) == Some((n, rest)),
{
    lemma_pow256_values();
    lemma_le_val_of_le_bytes(n, 4);
    let b = le_bytes(n, 4) + rest;
    assert(b.take(4) =~= le_bytes(n, 4));
    assert(b.skip(4) =~= rest);
}

/// Decoding the bytes of a height restores it.
pub proof fn lemma_sdec_height_round(h: Height, rest: Seq<u8>)
    ensures
        sdec_height(bin_height(h) + rest) == Some((h, rest)),
{
    lemma_pow256_values();
    lemma_le_val_of_le_bytes(h.revision_number as nat, 8);
    lemma_le_val_of_le_bytes(h.revision_height as nat, 8);
    let b = bin_height(h) + rest;
    assert(b.take(8) =~= le_bytes(h.revision_number as nat, 8));
    assert(b.skip(8) =~= le_bytes(h.revision_height as nat, 8) + rest);
    let mid = b.skip(8);
    assert(mid.take(8) =~= le_bytes(h.revision_height as nat, 8));
    assert(mid.skip(8) =~= rest);
}

/// Re-encoding a decoded height reproduces the bytes it came from.
pub proof fn lemma_sdec_height_sound(b: Seq<u8>)
    ensures
        sdec_height(b) matches Some(p) ==> bin_height(p.0) + p.1 == b,
{
    if sdec_height(b) is Some {
        lemma_pow256_values();
        lemma_le_val_bound(b.take(8));
        lemma_le_bytes_of_le_val(b.take(8));
        let mid = b.skip(8);
        lemma_le_val_bound(mid.take(8));
        lemma_le_bytes_of_le_val(mid.take(8));
        let p = sdec_height(b)->Some_0;
        assert(le_bytes(p.0.revision_number as nat, 8) =~= b.take(8));
        assert(le_bytes(p.0.revision_height as nat, 8) =~= mid.take(8));
        assert(bin_height(p.0) + p.1 =~= b);
    }
}

/// Decoding the bytes of an ASCII string restores it.
pub proof fn lemma_sdec_string_round(s: Seq<char>, rest: Seq<u8>)
    requires
        all_chars_ascii(s),
        s.len() <= u32::MAX,
    ensures
        sdec_string(bin_string(s) + rest) == Some((s, rest)),
{
    lemma_sdec_len_round(s.len(), ascii_bytes(s) + rest);
    let b = bin_string(s) + rest;
    assert(b =~= le_bytes(s.len(), 4) + (ascii_bytes(s) + rest));
    let tail = ascii_bytes(s) + rest;
    assert(tail.take(s.len() as int) =~= ascii_bytes(s));
    assert(tail.skip(s.len() as int) =~= rest);
    lemma_chars_of_ascii_bytes(s);
}

/// Re-encoding a decoded string reproduces the bytes it came from.
pub proof fn lemma_sdec_string_sound(b: Seq<u8>)
    ensures
        sdec_string(b) matches Some(p) ==> {
            &&& all_chars_ascii(p.0)
            &&& p.0.len() <= u32::MAX
            &&& bin_string(p.0) + p.1 == b
        },
{
    if sdec_string(b) is Some {
        lemma_pow256_values();
        lemma_le_val_bound(b.take(4));
        lemma_le_bytes_of_le_val(b.take(4));
        let n = le_val(b.take(4));
        let tail = b.skip(4);
        let payload = tail.take(n as int);
        lemma_ascii_bytes_of_chars(payload);
        let p = sdec_string(b)->Some_0;
        assert(ascii_bytes(p.0) =~= payload);
        assert(le_bytes(p.0.len(), 4) =~= b.take(4));
        assert(bin_string(p.0) + p.1 =~= b);
    }
}

/// Decoding the bytes of a blob restores it.
pub proof fn lemma_sdec_bytes_round(v: Seq<u8>, rest: Seq<u8>)
    requires
        v.len() <= u32::MAX,
    ensures
        sdec_bytes(bin_bytes(v) + rest) == Some((v, rest)),
{
    lemma_sdec_len_round(v.len(), v + rest);
    let b = bin_bytes(v) + rest;
    assert(b =~= le_bytes(v.len(), 4) + (v + rest));
    let tail = v + rest;
    assert(tail.take(v.len() as int) =~= v);
    assert(tail.skip(v.len() as int) =~= rest);
}

/// Re-encoding a decoded blob reproduces the bytes it came from.
pub proof fn lemma_sdec_bytes_sound(b: Seq<u8>)
    ensures
        sdec_bytes(b) matches Some(p) ==> p.0.len() <= u32::MAX && bin_bytes(p.0) + p.1 == b,
{
    if sdec_bytes(b) is Some {
        lemma_pow256_values();
        lemma_le_val_bound(b.take(4));
        lemma_le_bytes_of_le_val(b.take(4));
        let p = sdec_bytes(b)->Some_0;
        assert(le_bytes(p.0.len(), 4) =~= b.take(4));
        assert(bin_bytes(p.0) + p.1 =~= b);
    }
}

/// Decoding the payload of a height list restores the list.
proof fn lemma_sdec_height_list_round(v: Seq<Height>, rest: Seq<u8>)
    ensures
        sdec_height_list(heights_payload(v) + rest, v.len()) == Some((v, rest)),
    decreases v.len(),
{
    if v.len() == 0 {
        assert(heights_payload(v) + rest =~= rest);
        assert(sdec_height_list(rest, 0) == Some((Seq::<Height>::empty(), rest)));
        assert(Seq::<Height>::empty() =~= v);
    } else {
        let b = heights_payload(v) + rest;
        assert(b =~= bin_height(v[0]) + (heights_payload(v.drop_first()) + rest));
        lemma_sdec_height_round(v[0], heights_payload(v.drop_first()) + rest);
        lemma_sdec_height_list_round(v.drop_first(), rest);
        assert(seq![v[0]] + v.drop_first() =~= v);
    }
}

/// Re-encoding a decoded height list reproduces the bytes it came from.
proof fn lemma_sdec_height_list_sound(b: Seq<u8>, n: nat)
    ensures
        sdec_height_list(b, n) matches Some(p) ==> p.0.len() == n && heights_payload(p.0) + p.1
            == b,
    decreases n,
{
    if n == 0 {
        if sdec_height_list(b, n) is Some {
            let p = sdec_height_list(b, n)->Some_0;
            assert(heights_payload(p.0) + p.1 =~= b);
        }
    } else {
        if sdec_height_list(b, n) is Some {
            lemma_sdec_height_sound(b);
            let q = sdec_height(b)->Some_0;
            lemma_sdec_height_list_sound(q.1, (n - 1) as nat);
            let p = sdec_height_list(b, n)->Some_0;
            let r2 = sdec_height_list(q.1, (n - 1) as nat)->Some_0;
            assert(p.0 == seq![q.0] + r2.0);
            assert(p.0[0] == q.0);
            assert(p.0.drop_first() =~= r2.0);
            assert(heights_payload(p.0) + p.1 =~= b);
        }
    }
}

/// Decoding the bytes of a counted height list restores it.
pub proof fn lemma_sdec_heights_round(v: Seq<Height>, rest: Seq<u8>)
    requires
        v.len() <= u32::MAX,
    ensures
        sdec_heights(bin_heights(v) + rest) == Some((v, rest)),
{
    lemma_sdec_len_round(v.len(), heights_payload(v) + rest);
    assert(bin_heights(v) + rest =~= le_bytes(v.len(), 4) + (heights_payload(v) + rest));
    lemma_sdec_height_list_round(v, rest);
}

/// Re-encoding a decoded counted height list reproduces the bytes.
pub proof fn lemma_sdec_heights_sound(b: Seq<u8>)
    ensures
        sdec_heights(b) matches Some(p) ==> p.0.len() <= u32::MAX && bin_heights(p.0) + p.1 == b,
{
    if sdec_heights(b) is Some {
        lemma_pow256_values();
        lemma_le_val_bound(b.take(4));
        lemma_le_bytes_of_le_val(b.take(4));
        let n = le_val(b.take(4));
        lemma_sdec_height_list_sound(b.skip(4), n);
        let p = sdec_heights(b)->Some_0;
        assert(le_bytes(p.0.len(), 4) =~= b.take(4));
        assert(heights_payload(p.0) + p.1 == b.skip(4));
        assert(bin_heights(p.0) + p.1 =~= b.take(4) + (heights_payload(p.0) + p.1));
        assert(b.take(4) + (heights_payload(p.0) + p.1) =~= b);
    }
}

/// Decoding the bytes of an opaque payload restores it.
pub proof fn lemma_sdec_any_round(type_url: Seq<char>, value: Seq<u8>, rest: Seq<u8>)
    requires
        all_chars_ascii(type_url),
        type_url.len() <= u32::MAX,
        value.len() <= u32::MAX,
    ensures
        sdec_any(bin_any(type_url, value) + rest) == Some(((type_url, value), rest)),
{
    lemma_sdec_string_round(type_url, bin_bytes(value) + rest);
    assert(bin_any(type_url, value) + rest =~= bin_string(type_url) + (bin_bytes(value) + rest));
    lemma_sdec_bytes_round(value, rest);
}

/// Re-encoding a decoded opaque payload reproduces the bytes.
pub proof fn lemma_sdec_any_sound(b: Seq<u8>)
    ensures
        sdec_any(b) matches Some(p) ==> {
            &&& all_chars_ascii(p.0.0)
            &&& p.0.0.len() <= u32::MAX
            &&& p.0.1.len() <= u32::MAX
            &&& bin_any(p.0.0, p.0.1) + p.1 == b
        },
{
    if sdec_any(b) is Some {
        lemma_sdec_string_sound(b);
        let q = sdec_string(b)->Some_0;
        lemma_sdec_bytes_sound(q.1);
        let p = sdec_any(b)->Some_0;
        assert(bin_any(p.0.0, p.0.1) + p.1 =~= b);
    }
}

} // verus!
