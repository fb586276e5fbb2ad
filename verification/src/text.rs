//! Decimal text for heights.
//!
//! A height `(r, h)` is shown as `"r-h"` with both numbers in decimal, and
//! a list of heights is joined with commas, e.g. `"0-100,0-101"`. This
//! module defines the spec-level writer and parser for that form, the
//! executable functions that match them, and the round-trip lemmas.

use vstd::prelude::*;

use crate::height::Height;

verus! {

/// The decimal digit characters.
pub open spec fn is_dec_digit(c: char) -> bool {
    '0' <= c && c <= '9'
}

/// The digit character for a value below ten.
pub open spec fn dec_digit(d: nat) -> char {
    if d == 0 {
        '0'
    } else if d == 1 {
        '1'
    } else if d == 2 {
        '2'
    } else if d == 3 {
        '3'
    } else if d == 4 {
        '4'
    } else if d == 5 {
        '5'
    } else if d == 6 {
        '6'
    } else if d == 7 {
        '7'
    } else if d == 8 {
        '8'
    } else {
        '9'
    }
}

/// The numeric value of a digit character.
pub open spec fn digit_val(c: char) -> nat {
    (c as int - '0' as int) as nat
}

/// The canonical decimal text of a number: no sign, no leading zero except
/// for zero itself.
pub open spec fn dec_seq(n: nat) -> Seq<char>
    decreases n,
{
    if n < 10 {
        seq![dec_digit(n)]
    } else {
        dec_seq(n / 10).push(dec_digit(n % 10))
    }
}

/// The number a sequence of digit characters denotes.
pub open spec fn dec_val(s: Seq<char>) -> nat
    decreases s.len(),
{
    if s.len() == 0 {
        0
    } else {
        dec_val(s.drop_last()) * 10 + digit_val(s.last())
    }
}

/// Reading back the decimal text of `n` yields `n`.
pub proof fn lemma_dec_val_of_dec_seq(n: nat)
    ensures
        dec_val(dec_seq(n)) == n,
    decreases n,
{
    if n < 10 {
        let s = dec_seq(n);
        assert(s.drop_last() =~= Seq::<char>::empty());
        assert(dec_val(s) == dec_val(Seq::<char>::empty()) * 10 + digit_val(s.last()));
        assert(digit_val(dec_digit(n)) == n);
    } else {
        lemma_dec_val_of_dec_seq(n / 10);
        let s = dec_seq(n / 10);
        assert(s.push(dec_digit(n % 10)).drop_last() =~= s);
        assert(dec_val(dec_seq(n)) == dec_val(s) * 10 + digit_val(dec_digit(n % 10)));
    }
}

/// Decimal text consists of digit characters only.
pub proof fn lemma_dec_seq_digits(n: nat)
    ensures
        dec_seq(n).len() >= 1,
        forall|i: int| 0 <= i < dec_seq(n).len() ==> is_dec_digit(#[trigger] dec_seq(n)[i]),
    decreases n,
{
    if n >= 10 {
        lemma_dec_seq_digits(n / 10);
    }
}

/// A sequence of digit characters, as the text parser accepts it: at least
/// one character and nothing but digits.
pub open spec fn all_dec_digits(s: Seq<char>) -> bool {
    s.len() >= 1 && (forall|i: int| 0 <= i < s.len() ==> is_dec_digit(#[trigger] s[i]))
}

/// Spec-level parser for an unsigned decimal number.
pub open spec fn parse_dec(s: Seq<char>) -> Option<nat> {
    if all_dec_digits(s) {
        Some(dec_val(s))
    } else {
        None
    }
}

/// The index of the first occurrence of `c` in `s`, or `s.len()` when `c`
/// does not occur.
pub open spec fn find_char(s: Seq<char>, c: char) -> int
    decreases s.len(),
{
    if s.len() == 0 {
        0
    } else if s[0] == c {
        0
    } else {
        1 + find_char(s.drop_first(), c)
    }
}

/// `find_char` stays within bounds and finds exactly the first occurrence.
pub proof fn lemma_find_char(s: Seq<char>, c: char)
    ensures
        0 <= find_char(s, c) <= s.len(),
        find_char(s, c) < s.len() ==> s[find_char(s, c)] == c,
        forall|i: int| 0 <= i < find_char(s, c) ==> s[i] != c,
    decreases s.len(),
{
    if s.len() > 0 && s[0] != c {
        lemma_find_char(s.drop_first(), c);
        assert forall|i: int| 0 <= i < find_char(s, c) implies s[i] != c by {
            if i > 0 {
                assert(s.drop_first()[i - 1] == s[i]);
            }
        }
        if find_char(s, c) < s.len() {
            assert(s.drop_first()[find_char(s, c) - 1] == s[find_char(s, c)]);
        }
    }
}

/// In a concatenation whose left part is free of `c` and whose middle is
/// `c`, the first occurrence of `c` is exactly at the end of the left part.
pub proof fn lemma_find_char_append(a: Seq<char>, c: char, b: Seq<char>)
    requires
        forall|i: int| 0 <= i < a.len() ==> a[i] != c,
    ensures
        find_char(a + seq![c] + b, c) == a.len(),
    decreases a.len(),
{
    let s = a + seq![c] + b;
    if a.len() == 0 {
        assert(s[0] == c);
    } else {
        assert(s[0] == a[0]);
        lemma_find_char_append(a.drop_first(), c, b);
        assert(s.drop_first() =~= a.drop_first() + seq![c] + b);
    }
}

/// The text of one height: revision number, a dash, revision height.
pub open spec fn height_text(h: Height) -> Seq<char> {
    dec_seq(h.revision_number as nat) + seq!['-'] + dec_seq(h.revision_height as nat)
}

/// Spec-level parser for the text of one height. Values beyond `u64` are
/// rejected, so the parser accepts exactly the texts of representable
/// heights (up to leading zeros).
pub open spec fn parse_height_text(s: Seq<char>) -> Option<Height> {
    let k = find_char(s, '-');
    if k < s.len() {
        match (parse_dec(s.take(k)), parse_dec(s.skip(k + 1))) {
            (Some(r), Some(h)) => if r <= u64::MAX && h <= u64::MAX {
                Some(Height { revision_number: r as u64, revision_height: h as u64 })
            } else {
                None
            },
            _ => None,
        }
    } else {
        None
    }
}

/// Reading back the text of a height yields that height.
pub proof fn lemma_parse_height_text(h: Height)
    ensures
        parse_height_text(height_text(h)) == Some(h),
{
    let r = dec_seq(h.revision_number as nat);
    let v = dec_seq(h.revision_height as nat);
    let s = height_text(h);
    lemma_dec_seq_digits(h.revision_number as nat);
    lemma_dec_seq_digits(h.revision_height as nat);
    lemma_find_char_append(r, '-', v);
    assert(s.take(r.len() as int) =~= r);
    assert(s.skip(r.len() as int + 1) =~= v);
    lemma_dec_val_of_dec_seq(h.revision_number as nat);
    lemma_dec_val_of_dec_seq(h.revision_height as nat);
}

/// The text of a list of heights, joined with commas; the empty list gives
/// the empty text.
pub open spec fn heights_text(v: Seq<Height>) -> Seq<char>
    decreases v.len(),
{
    if v.len() == 0 {
        Seq::empty()
    } else if v.len() == 1 {
        height_text(v[0])
    } else {
        height_text(v[0]) + seq![','] + heights_text(v.drop_first())
    }
}

/// Spec-level parser for a comma-joined list of heights.
pub open spec fn parse_heights_text(s: Seq<char>) -> Option<Seq<Height>>
    decreases s.len(),
{
    if s.len() == 0 {
        Some(Seq::empty())
    } else {
        let k = find_char(s, ',');
        if 0 <= k && k < s.len() {
            match (parse_height_text(s.take(k)), parse_heights_text(s.skip(k + 1))) {
                (Some(h), Some(rest)) => Some(seq![h] + rest),
                _ => None,
            }
        } else {
            match parse_height_text(s) {
                Some(h) => Some(seq![h]),
                None => None,
            }
        }
    }
}

/// The text of one height contains no comma.
pub proof fn lemma_height_text_no_comma(h: Height)
    ensures
        forall|i: int| 0 <= i < height_text(h).len() ==> height_text(h)[i] != ',',
{
    lemma_dec_seq_digits(h.revision_number as nat);
    lemma_dec_seq_digits(h.revision_height as nat);
}

/// Reading back the joined text of a list of heights yields that list.
pub proof fn lemma_parse_heights_text(v: Seq<Height>)
    ensures
        parse_heights_text(heights_text(v)) == Some(v),
    decreases v.len(),
{
    if v.len() == 0 {
        assert(heights_text(v) =~= Seq::<char>::empty());
        assert(parse_heights_text(heights_text(v)) == Some(Seq::<Height>::empty()));
        assert(Some(Seq::<Height>::empty()) == Some(v));
    } else if v.len() == 1 {
        let s = heights_text(v);
        lemma_height_text_no_comma(v[0]);
        lemma_find_char(s, ',');
        assert(find_char(s, ',') == s.len());
        lemma_parse_height_text(v[0]);
        assert(seq![v[0]] =~= v);
    } else {
        let h = v[0];
        let rest = v.drop_first();
        let s = heights_text(v);
        lemma_height_text_no_comma(h);
        lemma_find_char_append(height_text(h), ',', heights_text(rest));
        let k = height_text(h).len() as int;
        assert(s.take(k) =~= height_text(h));
        assert(s.skip(k + 1) =~= heights_text(rest));
        lemma_parse_height_text(h);
        lemma_parse_heights_text(rest);
        assert(seq![h] + rest =~= v);
    }
}

} // verus!

// ---------------------------------------------------------------------------
// Executable writers
// ---------------------------------------------------------------------------

verus! {

/// Relies on `String::push`: appends exactly one character at the end.
#[verifier::external_body]
pub(crate) fn push_char(s: &mut String, c: char)
    ensures
        final(s)@ == old(s)@.push(c),
{
    s.push(c);
}

/// The digit character for a value below ten.
fn digit_char(d: u64) -> (c: char)
    requires
        d < 10,
    ensures
        c == dec_digit(d as nat),
{
    if d == 0 {
        '0'
    } else if d == 1 {
        '1'
    } else if d == 2 {
        '2'
    } else if d == 3 {
        '3'
    } else if d == 4 {
        '4'
    } else if d == 5 {
        '5'
    } else if d == 6 {
        '6'
    } else if d == 7 {
        '7'
    } else if d == 8 {
        '8'
    } else {
        '9'
    }
}

/// Appends the canonical decimal text of `n`.
fn push_dec(out: &mut String, n: u64)
    ensures
        final(out)@ == old(out)@ + dec_seq(n as nat),
    decreases n,
{
    if n < 10 {
        push_char(out, digit_char(n));
        assert(final(out)@ =~= old(out)@ + dec_seq(n as nat));
    } else {
        let ghost mid = old(out)@;
        push_dec(out, n / 10);
        push_char(out, digit_char(n % 10));
        assert(final(out)@ =~= mid + dec_seq(n as nat));
    }
}

/// The canonical decimal text of `n`.
pub fn u64_to_dec(n: u64) -> (r: String)
    ensures
        r@ == dec_seq(n as nat),
{
    let mut out = String::new();
    push_dec(&mut out, n);
    assert(out@ =~= dec_seq(n as nat));
    out
}

/// The text of one height, e.g. `"0-100"`.
pub fn height_to_text(h: &Height) -> (r: String)
    ensures
        r@ == height_text(*h),
{
    let mut out = String::new();
    push_dec(&mut out, h.revision_number);
    push_char(&mut out, '-');
    push_dec(&mut out, h.revision_height);
    assert(out@ =~= height_text(*h));
    out
}

/// Appending one height to a joined list adds a comma unless the list was
/// empty.
proof fn lemma_heights_text_push(u: Seq<Height>, h: Height)
    ensures
        u.len() == 0 ==> heights_text(u.push(h)) == height_text(h),
        u.len() > 0 ==> heights_text(u.push(h)) == heights_text(u) + seq![','] + height_text(h),
    decreases u.len(),
{
    if u.len() == 0 {
        assert(u.push(h).len() == 1);
        assert(u.push(h)[0] == h);
    } else {
        lemma_heights_text_push(u.drop_first(), h);
        let s = u.push(h);
        assert(s[0] == u[0]);
        assert(s.drop_first() =~= u.drop_first().push(h));
        if u.len() == 1 {
            assert(u.drop_first().len() == 0);
            assert(heights_text(s) == height_text(u[0]) + seq![','] + height_text(h));
            assert(heights_text(u) + seq![','] + height_text(h) =~= heights_text(s));
        } else {
            assert(heights_text(s) == height_text(u[0]) + seq![','] + heights_text(
                u.drop_first().push(h),
            ));
            assert(heights_text(u) + seq![','] + height_text(h) =~= heights_text(s));
        }
    }
}

/// The comma-joined text of a list of heights, e.g. `"0-100,0-101"`.
pub fn heights_to_text(v: &Vec<Height>) -> (r: String)
    ensures
        r@ == heights_text(v@),
{
    let mut out = String::new();
    let mut i: usize = 0;
    while i < v.len()
        invariant
            0 <= i <= v@.len(),
            out@ == heights_text(v@.take(i as int)),
        decreases v@.len() - i,
    {
        let ghost sofar = out@;
        if i > 0 {
            push_char(&mut out, ',');
        }
        push_dec(&mut out, v[i].revision_number);
        push_char(&mut out, '-');
        push_dec(&mut out, v[i].revision_height);
        proof {
            lemma_heights_text_push(v@.take(i as int), v@[i as int]);
            assert(v@.take(i as int).push(v@[i as int]) =~= v@.take(i as int + 1));
            if i == 0 {
                assert(out@ =~= height_text(v@[0]));
            } else {
                assert(out@ =~= heights_text(v@.take(i as int)) + seq![','] + height_text(
                    v@[i as int],
                ));
            }
        }
        i = i + 1;
    }
    assert(v@.take(v@.len() as int) =~= v@);
    out
}

} // verus!

// ---------------------------------------------------------------------------
// Executable parsers
// ---------------------------------------------------------------------------

verus! {

/// Parses an unsigned decimal number, rejecting anything that is not all
/// digits and any value beyond `u64`.
pub fn parse_dec_u64(s: &str) -> (r: Option<u64>)
    ensures
        r == match parse_dec(s@) {
            Some(n) => if n <= u64::MAX {
                Some(n as u64)
            } else {
                None::<u64>
            },
            None => None::<u64>,
        },
{
    let len = s.unicode_len();
    if len == 0 {
        return None;
    }
    let mut acc: u64 = 0;
    let mut i: usize = 0;
    while i < len
        invariant
            len == s@.len(),
            1 <= len,
            0 <= i <= len,
            forall|j: int| 0 <= j < i ==> is_dec_digit(#[trigger] s@[j]),
            acc as nat == dec_val(s@.take(i as int)),
        decreases len - i,
    {
        let c = s.get_char(i);
        if !('0' <= c && c <= '9') {
            return None;
        }
        let d: u64 = (c as u32 as u64) - 48;
        proof {
            assert(s@.take(i as int + 1).drop_last() =~= s@.take(i as int));
            assert(s@.take(i as int + 1).last() == s@[i as int]);
            assert(d as nat == digit_val(s@[i as int]));
        }
        let step = match acc.checked_mul(10) {
            Some(m) => m.checked_add(d),
            None => None,
        };
        match step {
            Some(next) => {
                acc = next;
            },
            None => {
                proof {
                    lemma_dec_val_take_le(s@, i as int + 1);
                }
                return None;
            },
        }
        i = i + 1;
    }
    assert(s@.take(len as int) =~= s@);
    Some(acc)
}

/// The value a prefix denotes never exceeds the value of the whole digit
/// string.
proof fn lemma_dec_val_take_le(s: Seq<char>, j: int)
    requires
        0 <= j <= s.len(),
    ensures
        dec_val(s.take(j)) <= dec_val(s),
    decreases s.len() - j,
{
    if j < s.len() {
        assert(s.take(j + 1).drop_last() =~= s.take(j));
        assert(dec_val(s.take(j + 1)) == dec_val(s.take(j)) * 10 + digit_val(s.take(j + 1).last()));
        lemma_dec_val_take_le(s, j + 1);
    } else {
        assert(s.take(j) =~= s);
    }
}

/// The least index at or after `from` where `c` occurs, or the length of
/// `s` when it does not occur there.
fn find_char_from(s: &str, from: usize, c: char) -> (r: usize)
    requires
        from <= s@.len(),
    ensures
        r == from + find_char(s@.skip(from as int), c),
        from <= r <= s@.len(),
    {
    let len = s.unicode_len();
    let mut i: usize = from;
    while i < len
        invariant
            len == s@.len(),
            from <= i <= len,
            find_char(s@.skip(from as int), c) == i - from + find_char(s@.skip(i as int), c),
        decreases len - i,
    {
        let ch = s.get_char(i);
        proof {
            assert(s@.skip(i as int)[0] == s@[i as int]);
            assert(s@.skip(i as int).drop_first() =~= s@.skip(i as int + 1));
        }
        if ch == c {
            return i;
        }
        i = i + 1;
    }
    proof {
        assert(s@.skip(len as int) =~= Seq::<char>::empty());
    }
    len
}

/// Parses the text of one height, `"r-h"`.
pub fn parse_height(s: &str) -> (r: Option<Height>)
    ensures
        r == parse_height_text(s@),
{
    let len = s.unicode_len();
    let k = find_char_from(s, 0, '-');
    proof {
        assert(s@.skip(0) =~= s@);
        lemma_find_char(s@, '-');
    }
    if k >= len {
        return None;
    }
    let left = s.substring_char(0, k);
    let right = s.substring_char(k + 1, len);
    proof {
        assert(left@ =~= s@.take(k as int));
        assert(right@ =~= s@.skip(k as int + 1));
    }
    match (parse_dec_u64(left), parse_dec_u64(right)) {
        (Some(r_num), Some(r_h)) => Some(Height::new(r_num, r_h)),
        _ => None,
    }
}

/// Parses a comma-joined list of heights.
pub fn parse_heights(s: &str) -> (r: Option<Vec<Height>>)
    ensures
        match r {
            Some(v) => parse_heights_text(s@) == Some(v@),
            None => parse_heights_text(s@) is None,
        },
{
    let len = s.unicode_len();
    let mut out: Vec<Height> = Vec::new();
    let mut pos: usize = 0;
    proof {
        assert(s@.skip(0) =~= s@);
        if parse_heights_text(s@) is Some {
            let rest = parse_heights_text(s@)->Some_0;
            assert(Seq::<Height>::empty() + rest =~= rest);
        }
    }
    while pos < len
        invariant
            len == s@.len(),
            0 <= pos <= len,
            parse_heights_text(s@) == match parse_heights_text(s@.skip(pos as int)) {
                Some(rest) => Some(out@ + rest),
                None => None::<Seq<Height>>,
            },
        decreases len - pos,
    {
        let ghost tail = s@.skip(pos as int);
        let k = find_char_from(s, pos, ',');
        proof {
            lemma_find_char(tail, ',');
            assert(tail.len() == len - pos);
        }
        if k < len {
            let seg = s.substring_char(pos, k);
            proof {
                assert(seg@ =~= tail.take(k - pos as int));
            }
            match parse_height(seg) {
                Some(h) => {
                    let ghost before = out@;
                    out.push(h);
                    proof {
                        assert(tail.skip(k - pos as int + 1) =~= s@.skip(k as int + 1));
                        if parse_heights_text(s@.skip(k as int + 1)) is Some {
                            let rest = parse_heights_text(s@.skip(k as int + 1))->Some_0;
                            assert(before + (seq![h] + rest) =~= before.push(h) + rest);
                        }
                    }
                    pos = k + 1;
                },
                None => {
                    return None;
                },
            }
        } else {
            let seg = s.substring_char(pos, len);
            proof {
                assert(seg@ =~= tail);
            }
            match parse_height(seg) {
                Some(h) => {
                    let ghost before = out@;
                    out.push(h);
                    proof {
                        assert(before + seq![h] =~= before.push(h));
                    }
                    return Some(out);
                },
                None => {
                    return None;
                },
            }
        }
    }
    proof {
        assert(s@.skip(pos as int) =~= Seq::<char>::empty());
        assert(out@ + Seq::<Height>::empty() =~= out@);
    }
    Some(out)
}

} // verus!
