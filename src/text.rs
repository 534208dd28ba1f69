//! Conversions between character positions and byte offsets within one line.
use vstd::prelude::*;
use vstd::utf8::*;

verus! {

/// Number of bytes of `c` in UTF-8.
pub open spec fn utf8_width(c: char) -> nat {
    encode_scalar(c as u32).len()
}

/// Byte offset of the character position `k` of `s`; positions past the
/// end map to the byte length of `s`.
pub open spec fn byte_offset(s: Seq<char>, k: int) -> nat {
    if k < s.len() {
        encode_utf8(s.take(k)).len()
    } else {
        encode_utf8(s).len()
    }
}

/// The characters of `s` at positions `[start, start + width)`, cut to the
/// length of `s`.
pub open spec fn char_window(s: Seq<char>, start: int, width: int) -> Seq<char> {
    let lo = if start < s.len() { start } else { s.len() as int };
    let hi = if start + width < s.len() { start + width } else { s.len() as int };
    if lo < hi { s.subrange(lo, hi) } else { Seq::empty() }
}

/// The characters of `s`, in order.
pub fn chars_of(s: &str) -> (r: Vec<char>)
    ensures
        r@ == s@,
{
    let mut out: Vec<char> = Vec::new();
    for c in it: s.chars()
        invariant
            out@ == it.seq().take(it.index() as int),
    {
        out.push(c);
    }
    out
}

/// Encoding a concatenation concatenates the encodings.
pub proof fn lemma_encode_concat(a: Seq<char>, b: Seq<char>)
    ensures
        encode_utf8(a + b) == encode_utf8(a) + encode_utf8(b),
    decreases a.len(),
{
    if a.len() == 0 {
        assert(a + b =~= b);
        assert(encode_utf8(a) + encode_utf8(b) =~= encode_utf8(b));
    } else {
        lemma_encode_concat(a.drop_first(), b);
        assert((a + b).drop_first() =~= a.drop_first() + b);
        assert(encode_utf8(a + b) =~= encode_utf8(a) + encode_utf8(b));
    }
}

/// Every character takes at least one byte.
pub proof fn lemma_chars_within_bytes(s: Seq<char>)
    ensures
        s.len() <= encode_utf8(s).len(),
    decreases s.len(),
{
    if s.len() > 0 {
        lemma_chars_within_bytes(s.drop_first());
    }
}

/// The byte offset of a character position is a character boundary.
pub proof fn lemma_prefix_boundary(s: Seq<char>, k: int)
    requires
        0 <= k <= s.len(),
    ensures
        is_char_boundary(encode_utf8(s), encode_utf8(s.take(k)).len() as int),
    decreases k,
{
    broadcast use encode_utf8_valid_utf8;

    if k > 0 {
        let bytes = encode_utf8(s);
        encode_utf8_first_scalar(s);
        lemma_prefix_boundary(s.drop_first(), k - 1);
        assert(s.take(k).drop_first() =~= s.drop_first().take(k - 1));
        assert(s.take(k)[0] == s[0]);
        let w = encode_scalar(s[0] as u32).len();
        assert(pop_first_scalar(bytes) =~= encode_utf8(s.drop_first()));
        lemma_encode_concat(s.take(k), s.skip(k));
        assert(s.take(k) + s.skip(k) =~= s);
    }
}

/// The byte offset of one position past `k` adds the width of the character at `k`.
pub proof fn lemma_offset_step(s: Seq<char>, k: int)
    requires
        0 <= k < s.len(),
    ensures
        encode_utf8(s.take(k + 1)).len() == encode_utf8(s.take(k)).len() + utf8_width(s[k]),
        encode_utf8(s.take(k + 1)).len() <= encode_utf8(s).len(),
{
    lemma_encode_concat(s.take(k), seq![s[k]]);
    assert(s.take(k) + seq![s[k]] =~= s.take(k + 1));
    assert(seq![s[k]].drop_first() =~= Seq::<char>::empty());
    assert(encode_utf8(Seq::<char>::empty()).len() == 0);
    assert(encode_utf8(seq![s[k]]) =~= encode_scalar(s[k] as u32) + encode_utf8(Seq::<char>::empty()));
    lemma_encode_concat(s.take(k + 1), s.skip(k + 1));
    assert(s.take(k + 1) + s.skip(k + 1) =~= s);
}

/// The characters with Unicode's White_Space property.
pub open spec fn is_space(c: char) -> bool {
    let v = c as u32;
    ||| 0x09 <= v <= 0x0d
    ||| v == 0x20 || v == 0x85 || v == 0xa0 || v == 0x1680
    ||| 0x2000 <= v <= 0x200a
    ||| v == 0x2028 || v == 0x2029 || v == 0x202f || v == 0x205f || v == 0x3000
}

/// Whether `c` is alphabetic or numeric in the sense of Unicode.
pub uninterp spec fn alphanumeric(c: char) -> bool;

/// A character that belongs to an identifier run: a letter, a digit or `_`.
pub open spec fn is_word_char(c: char) -> bool {
    !is_space(c) && (alphanumeric(c) || c == '_')
}

/// Relies on `char::is_whitespace`: true exactly for the characters with
/// the White_Space property.
#[verifier::external_body]
pub(crate) fn is_whitespace_char(c: char) -> (r: bool)
    ensures
        r == is_space(c),
{
    c.is_whitespace()
}

/// Relies on `char::is_alphanumeric`: Unicode's Alphabetic or Numeric.
#[verifier::external_body]
pub(crate) fn is_alphanumeric_char(c: char) -> (r: bool)
    ensures
        r == alphanumeric(c),
{
    c.is_alphanumeric()
}

/// Whether `c` belongs to an identifier run.
pub fn word_char(c: char) -> (r: bool)
    ensures
        r == is_word_char(c),
{
    !is_whitespace_char(c) && (is_alphanumeric_char(c) || c == '_')
}

/// Number of characters of `s`.
pub fn char_count(s: &str) -> (r: usize)
    ensures
        r == s@.len(),
{
    proof {
        lemma_chars_within_bytes(s@);
    }
    // A byte length is a usize, and it bounds the number of characters.
    let _ = s.as_bytes().len();
    let mut n: usize = 0;
    for _c in it: s.chars()
        invariant
            n == it.index(),
            it.seq() == s@,
            s@.len() <= encode_utf8(s@).len() <= usize::MAX,
    {
        n = n + 1;
    }
    n
}

/// Width in bytes of `c` in UTF-8.
pub fn char_width(c: char) -> (r: usize)
    ensures
        r == utf8_width(c),
        1 <= r <= 4,
{
    proof {
        char_is_scalar(c);
    }
    let v = c as u32;
    if v <= 0x7f {
        1
    } else if v <= 0x7ff {
        2
    } else if v <= 0xffff {
        3
    } else {
        4
    }
}

/// Byte offset of the character at position `char_index` of `text`, or the
/// byte length of `text` where `char_index` is past its last character.
pub fn char_to_byte_index(text: &str, char_index: usize) -> (r: usize)
    ensures
        r == byte_offset(text@, char_index as int),
{
    if char_index == 0 {
        return 0;
    }
    let total = text.as_bytes().len();
    let mut count: usize = 0;
    let mut byte_idx: usize = 0;
    for c in it: text.chars()
        invariant
            it.seq() == text@,
            count == it.index(),
            count <= char_index,
            byte_idx == encode_utf8(text@.take(count as int)).len(),
            total == encode_utf8(text@).len(),
    {
        if count == char_index {
            return byte_idx;
        }
        proof {
            lemma_offset_step(text@, count as int);
        }
        byte_idx = byte_idx + char_width(c);
        count = count + 1;
    }
    proof {
        assert(text@.take(count as int) =~= text@);
    }
    byte_idx
}

/// Splits `line` at the byte offset `b` of its character position `k`.
pub(crate) fn split_at_position<'a>(line: &'a str, b: usize, Ghost(k): Ghost<int>) -> (r: (
    &'a str,
    &'a str,
))
    requires
        0 <= k <= line@.len(),
        b == encode_utf8(line@.take(k)).len(),
    ensures
        r.0@ == line@.take(k),
        r.1@ == line@.skip(k),
{
    proof {
        lemma_prefix_boundary(line@, k);
        lemma_encode_concat(line@.take(k), line@.skip(k));
        assert(line@.take(k) + line@.skip(k) =~= line@);
    }
    let (l, r) = line.split_at(b);
    proof {
        let bytes = encode_utf8(line@);
        assert(bytes.subrange(0, b as int) =~= encode_utf8(line@.take(k)));
        assert(bytes.subrange(b as int, bytes.len() as int) =~= encode_utf8(line@.skip(k)));
        encode_utf8_decode_utf8(l@);
        encode_utf8_decode_utf8(r@);
        encode_utf8_decode_utf8(line@.take(k));
        encode_utf8_decode_utf8(line@.skip(k));
    }
    (l, r)
}

/// Splits `line` before its character at position `col` (at its end where
/// `col` is past it), through the byte offset of that position.
pub fn split_line<'a>(line: &'a str, col: usize) -> (r: (&'a str, &'a str))
    ensures
        col <= line@.len() ==> r.0@ == line@.take(col as int) && r.1@ == line@.skip(col as int),
        col > line@.len() ==> r.0@ == line@ && r.1@ == Seq::<char>::empty(),
{
    let b = char_to_byte_index(line, col);
    let ghost k: int = if col <= line@.len() { col as int } else { line@.len() as int };
    proof {
        assert(line@.take(line@.len() as int) =~= line@);
        assert(line@.skip(line@.len() as int) =~= Seq::<char>::empty());
    }
    split_at_position(line, b, Ghost(k))
}

/// The characters of `text` at positions `[start_col, start_col + width)`,
/// cut to the length of `text`; empty where nothing of `text` lies there.
pub fn slice_line(text: &str, start_col: usize, width: usize) -> (r: String)
    ensures
        r@ == char_window(text@, start_col as int, width as int),
{
    if width == 0 {
        return String::new();
    }
    proof {
        lemma_chars_within_bytes(text@);
    }
    // A byte length is a usize, and it bounds the number of characters.
    let _ = text.as_bytes().len();
    let end = start_col.saturating_add(width);
    let (head, _) = split_line(text, end);
    let (_, window) = split_line(head, start_col);
    proof {
        let n = text@.len() as int;
        let lo = if (start_col as int) < n { start_col as int } else { n };
        let hi = if start_col + width < n { start_col + width } else { n };
        assert(head@ == text@.take(hi));
        if lo < hi {
            assert(window@ =~= text@.subrange(lo, hi));
        } else {
            assert(window@ =~= Seq::<char>::empty());
        }
    }
    window.to_owned()
}

} // verus!
