//! Byte-addressed access to UTF-8 source text.

use vstd::prelude::*;
use vstd::string::*;
use vstd::utf8::*;

verus! {

/// Number of bytes that the UTF-8 encoding of `c` occupies.
pub open spec fn char_width(c: char) -> nat {
    encode_scalar(c as u32).len()
}

/// Number of bytes that the UTF-8 encoding of `s` occupies.
pub open spec fn utf8_len(s: Seq<char>) -> nat {
    encode_utf8(s).len()
}

/// Computes the number of bytes of `c` in UTF-8.
pub fn len_utf8(c: char) -> (n: usize)
    ensures
        n == char_width(c),
        1 <= n <= 4,
{
    let v: u32 = c as u32;
    if v < 0x80 {
        1
    } else if v < 0x800 {
        2
    } else if v < 0x10000 {
        3
    } else {
        4
    }
}

/// The first character of `s`, if any.
pub fn first_char(s: &str) -> (c: Option<char>)
    ensures
        c == (if s@.len() > 0 { Some(s@[0]) } else { None }),
{
    let mut it = s.chars();
    it.next()
}

/// The tail of `s` that starts at byte `pos`.
pub fn tail_from(s: &str, pos: usize) -> (t: &str)
    requires
        is_char_boundary(s.spec_bytes(), pos as int),
    ensures
        t.spec_bytes() == s.spec_bytes().subrange(pos as int, s.spec_bytes().len() as int),
{
    let (_, t) = s.split_at(pos);
    t
}

/// The second character of `s`, if any.
pub fn second_char(s: &str) -> (c: Option<char>)
    ensures
        c == (if s@.len() > 1 { Some(s@[1]) } else { None }),
{
    let mut it = s.chars();
    let first = it.next();
    match first {
        Some(_) => it.next(),
        None => None,
    }
}

/// The encoding of two texts, one after the other, is the encoding of the first followed by
/// that of the second.
pub proof fn lemma_encode_concat(a: Seq<char>, b: Seq<char>)
    ensures
        encode_utf8(a + b) == encode_utf8(a) + encode_utf8(b),
    decreases a.len(),
{
    if a.len() == 0 {
        assert(a + b =~= b);
        assert(encode_utf8(a) + encode_utf8(b) =~= encode_utf8(b));
    } else {
        lemma_encode_concat(a.drop_first(), b);
        assert((a + b).drop_first() =~= a.drop_first() + b);
        assert(encode_utf8(a + b) =~= encode_utf8(a) + encode_utf8(b));
    }
}

/// The bytes of two texts add up.
pub proof fn lemma_utf8_len_concat(a: Seq<char>, b: Seq<char>)
    ensures
        utf8_len(a + b) == utf8_len(a) + utf8_len(b),
{
    lemma_encode_concat(a, b);
}

/// Two ASCII characters take two bytes.
pub proof fn lemma_two_ascii_len(s: Seq<char>)
    requires
        s.len() == 2,
        (s[0] as u32) < 0x80,
        (s[1] as u32) < 0x80,
    ensures
        utf8_len(s) == 2,
{
    reveal_with_fuel(encode_utf8, 3);
}

/// The characters that the bytes from `pos` on encode.
#[verifier::opaque]
pub open spec fn tail_chars(bytes: Seq<u8>, pos: int) -> Seq<char> {
    decode_utf8(bytes.subrange(pos, bytes.len() as int))
}

/// The character that begins at byte `pos`, `None` at the end of the text.
pub open spec fn char_at(bytes: Seq<u8>, pos: int) -> Option<char> {
    let tail = tail_chars(bytes, pos);
    if tail.len() > 0 {
        Some(tail[0])
    } else {
        None
    }
}

/// The characters that follow the one at byte `pos`.
pub open spec fn rest_at(bytes: Seq<u8>, pos: int) -> Seq<char> {
    let tail = tail_chars(bytes, pos);
    if tail.len() > 0 {
        tail.drop_first()
    } else {
        tail
    }
}

/// A string slice that holds the bytes of `s` from `pos` on shows the characters from there.
pub proof fn lemma_tail_view(s: &str, t: &str, pos: int)
    requires
        t.spec_bytes() == s.spec_bytes().subrange(pos, s.spec_bytes().len() as int),
    ensures
        t@ == tail_chars(s.spec_bytes(), pos),
{
    reveal(tail_chars);
    encode_utf8_decode_utf8(t@);
}

/// The bytes of a string are valid UTF-8 whose ends are character boundaries.
pub proof fn lemma_str_bytes(s: &str)
    ensures
        valid_utf8(s.spec_bytes()),
        is_char_boundary(s.spec_bytes(), 0),
        is_char_boundary(s.spec_bytes(), s.spec_bytes().len() as int),
{
    encode_utf8_valid_utf8(s@);
    is_char_boundary_start_end_of_seq(s.spec_bytes());
}

/// At the end of the text there is no character.
pub proof fn lemma_tail_at_end(bytes: Seq<u8>)
    ensures
        tail_chars(bytes, bytes.len() as int).len() == 0,
{
    reveal(tail_chars);
    assert(bytes.subrange(bytes.len() as int, bytes.len() as int) =~= Seq::<u8>::empty());
}

/// A character boundary before the end of the text is followed by a character, behind
/// which lies the next boundary.
pub proof fn lemma_char_step(bytes: Seq<u8>, pos: int)
    requires
        valid_utf8(bytes),
        is_char_boundary(bytes, pos),
        0 <= pos < bytes.len(),
    ensures
        tail_chars(bytes, pos).len() > 0,
        pos + char_width(tail_chars(bytes, pos)[0]) <= bytes.len(),
        is_char_boundary(bytes, pos + char_width(tail_chars(bytes, pos)[0])),
        tail_chars(bytes, pos + char_width(tail_chars(bytes, pos)[0])) == tail_chars(
            bytes,
            pos,
        ).drop_first(),
        1 <= char_width(tail_chars(bytes, pos)[0]) <= 4,
{
    reveal(tail_chars);
    let len = bytes.len() as int;
    let tb = bytes.subrange(pos, len);
    valid_utf8_split(bytes, pos);
    assert(valid_utf8(tb));
    assert(tb.len() > 0);
    let ch = decode_first_scalar(tb) as char;
    let q = pop_first_scalar(tb);
    assert(decode_utf8(tb) == seq![ch] + decode_utf8(q));
    assert(tail_chars(bytes, pos)[0] == ch);
    assert(tail_chars(bytes, pos).drop_first() =~= decode_utf8(q));
    decode_utf8_first_scalar(tb);
    let w = length_of_first_scalar(tb);
    assert(valid_first_scalar(tb));
    assert(take_first_scalar(tb).len() == w);
    assert(char_width(ch) == w);
    assert(q =~= bytes.subrange(pos + w, len));
    assert(valid_utf8(q));
    if pos + w == len {
        is_char_boundary_start_end_of_seq(bytes);
    } else {
        assert(valid_first_scalar(q));
        assert(q[0] == bytes[pos + w]);
        is_char_boundary_iff_is_leading_byte(bytes, pos + w);
    }
}

/// Behind the first character of a string lies a boundary, from which the rest of its
/// characters follow.
pub proof fn lemma_str_head(t: &str)
    requires
        t@.len() > 0,
    ensures
        char_width(t@[0]) <= t.spec_bytes().len(),
        is_char_boundary(t.spec_bytes(), char_width(t@[0]) as int),
        tail_chars(t.spec_bytes(), char_width(t@[0]) as int) == t@.drop_first(),
{
    let bytes = t.spec_bytes();
    lemma_str_bytes(t);
    assert(bytes.subrange(0, bytes.len() as int) =~= bytes);
    lemma_tail_view(t, t, 0);
    if bytes.len() == 0 {
        lemma_tail_at_end(bytes);
    }
    lemma_char_step(bytes, 0);
}

/// A boundary that two ASCII characters follow is two bytes before the next but one.
pub proof fn lemma_two_ascii_step(bytes: Seq<u8>, pos: int)
    requires
        valid_utf8(bytes),
        is_char_boundary(bytes, pos),
        0 <= pos <= bytes.len(),
        tail_chars(bytes, pos).len() > 1,
        (tail_chars(bytes, pos)[0] as u32) < 0x80,
        (tail_chars(bytes, pos)[1] as u32) < 0x80,
    ensures
        pos + 2 <= bytes.len(),
        is_char_boundary(bytes, pos + 2),
{
    if pos == bytes.len() {
        lemma_tail_at_end(bytes);
    }
    lemma_char_step(bytes, pos);
    if pos + 1 == bytes.len() {
        lemma_tail_at_end(bytes);
    }
    lemma_char_step(bytes, pos + 1);
}

/// The text between the bytes `start` and `end`, where both are character boundaries of
/// the text and `start` does not lie behind `end`.
pub open spec fn text_between(bytes: Seq<u8>, start: int, end: int) -> Option<Seq<char>> {
    if 0 <= start <= end <= bytes.len() && is_char_boundary(bytes, start) && is_char_boundary(
        bytes,
        end,
    ) {
        Some(decode_utf8(bytes.subrange(start, end)))
    } else {
        None
    }
}

/// The slice of `src` between the bytes `start` and `end`; `None` where the range does not
/// lie in the text or cuts a character.
pub fn slice<'a>(src: &'a str, start: usize, end: usize) -> (r: Option<&'a str>)
    ensures
        match r {
            Some(s) => text_between(src.spec_bytes(), start as int, end as int) == Some(s@)
                && s.spec_bytes() == src.spec_bytes().subrange(start as int, end as int),
            None => text_between(src.spec_bytes(), start as int, end as int) is None,
        },
{
    let ghost bytes = src.spec_bytes();
    proof {
        lemma_str_bytes(src);
    }
    let n = src.as_bytes().len();
    if start <= end && end <= n && src.is_char_boundary(start) && src.is_char_boundary(end) {
        let (head, _) = src.split_at(end);
        proof {
            lemma_str_bytes(head);
            if start < end {
                is_char_boundary_iff_not_is_continuation_byte(bytes, start as int);
                is_char_boundary_iff_not_is_continuation_byte(head.spec_bytes(), start as int);
            }
        }
        let (_, mid) = head.split_at(start);
        proof {
            assert(mid.spec_bytes() =~= bytes.subrange(start as int, end as int));
            encode_utf8_decode_utf8(mid@);
        }
        Some(mid)
    } else {
        None
    }
}

/// Whether two strings hold the same text.
pub fn same_text(a: &str, b: &str) -> (r: bool)
    ensures
        r == (a@ == b@),
{
    let x = a.as_bytes();
    let y = b.as_bytes();
    proof {
        encode_utf8_decode_utf8(a@);
        encode_utf8_decode_utf8(b@);
    }
    if x.len() != y.len() {
        return false;
    }
    let mut i: usize = 0;
    while i < x.len()
        invariant
            x@.len() == y@.len(),
            i <= x@.len(),
            forall|j: int| 0 <= j < i ==> x@[j] == y@[j],
            a@ == b@ ==> x@ == y@,
        decreases x.len() - i,
    {
        if x[i] != y[i] {
            return false;
        }
        i += 1;
    }
    assert(x@ =~= y@);
    true
}

/// A prefix of a text ends on a character boundary of the text.
pub proof fn lemma_prefix_boundary(a: Seq<char>, b: Seq<char>)
    ensures
        is_char_boundary(encode_utf8(a + b), utf8_len(a) as int),
        utf8_len(a) <= utf8_len(a + b),
{
    let bytes = encode_utf8(a + b);
    lemma_encode_concat(a, b);
    encode_utf8_valid_utf8(a + b);
    encode_utf8_valid_utf8(b);
    if b.len() == 0 {
        is_char_boundary_start_end_of_seq(bytes);
    } else {
        let eb = encode_utf8(b);
        encode_utf8_first_scalar(b);
        assert(eb.len() > 0);
        assert(bytes[utf8_len(a) as int] == eb[0]);
        is_char_boundary_iff_is_leading_byte(bytes, utf8_len(a) as int);
    }
}

/// The value of a text of decimal digits; `None` for a text that is empty or holds
/// anything but digits.
pub open spec fn decimal(s: Seq<char>) -> Option<nat>
    decreases s.len(),
{
    if s.len() == 0 {
        None
    } else if !('0' <= s.last() <= '9') {
        None
    } else if s.len() == 1 {
        Some((s.last() as u32 - '0' as u32) as nat)
    } else {
        match decimal(s.drop_last()) {
            Some(v) => Some(v * 10 + (s.last() as u32 - '0' as u32) as nat),
            None => None,
        }
    }
}

/// The number that `s` spells in decimal digits, where it fits sixteen bits.
pub open spec fn decimal_u16(s: Seq<char>) -> Option<u16> {
    match decimal(s) {
        Some(v) => if v <= u16::MAX {
            Some(v as u16)
        } else {
            None
        },
        None => None,
    }
}

/// Reads `s` as a number in decimal digits.
pub fn parse_u16(s: &str) -> (r: Option<u16>)
    ensures
        r == decimal_u16(s@),
{
    let n = s.unicode_len();
    if n == 0 {
        return None;
    }
    let mut value: u32 = 0;
    let mut i: usize = 0;
    while i < n
        invariant
            n == s@.len(),
            i <= n,
            value <= u16::MAX,
            i == 0 ==> value == 0,
            i > 0 ==> decimal(s@.take(i as int)) == Some(value as nat),
        decreases n - i,
    {
        let c = s.get_char(i);
        if !('0' <= c && c <= '9') {
            proof {
                lemma_decimal_prefix(s@, i as int + 1);
                assert(s@.take(i + 1).last() == c);
            }
            return None;
        }
        let digit: u32 = c as u32 - '0' as u32;
        let next = value * 10 + digit;
        proof {
            let t = s@.take(i + 1);
            assert(t.drop_last() =~= s@.take(i as int));
            assert(t.last() == c);
        }
        if next > 65535 {
            proof {
                lemma_decimal_grows(s@, i as int + 1);
            }
            return None;
        }
        value = next;
        i += 1;
    }
    assert(s@.take(n as int) =~= s@);
    Some(value as u16)
}

/// A text with a prefix that is no number is no number.
pub proof fn lemma_decimal_prefix(s: Seq<char>, k: int)
    requires
        1 <= k <= s.len(),
        decimal(s.take(k)) is None,
    ensures
        decimal(s) is None,
    decreases s.len() - k,
{
    if k < s.len() {
        assert(s.take(k + 1).drop_last() =~= s.take(k));
        lemma_decimal_prefix(s, k + 1);
    } else {
        assert(s.take(k) =~= s);
    }
}

/// A number is at least as great as each of its prefixes.
pub proof fn lemma_decimal_grows(s: Seq<char>, k: int)
    requires
        1 <= k <= s.len(),
    ensures
        decimal(s) matches Some(v) ==> (decimal(s.take(k)) matches Some(w) && w <= v),
    decreases s.len() - k,
{
    if k < s.len() {
        assert(s.take(k + 1).drop_last() =~= s.take(k));
        lemma_decimal_grows(s, k + 1);
        if decimal(s) is Some {
            assert(decimal(s.take(k + 1)) is Some);
        }
    } else {
        assert(s.take(k) =~= s);
    }
}

} // verus!
