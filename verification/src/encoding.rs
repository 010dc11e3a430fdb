//! Character-level text helpers: UTF-8 and UTF-16 code unit counts, and
//! conversions between `String` and character buffers.

use vstd::prelude::*;
use vstd::utf8::*;

verus! {

/// `String::push` appends one character to the end of the string. This is what
/// std documents for it; it is believed without proof.
pub assume_specification[ String::push ](string: &mut String, ch: char)
    ensures
        final(string)@ == old(string)@.push(ch),
;

/// Number of bytes that `c` takes in UTF-8.
pub open spec fn utf8_width(c: char) -> nat {
    if (c as u32) < 0x80 {
        1
    } else if (c as u32) < 0x800 {
        2
    } else if (c as u32) < 0x10000 {
        3
    } else {
        4
    }
}

/// Number of 16-bit code units that `c` takes in UTF-16.
pub open spec fn utf16_width(c: char) -> nat {
    if (c as u32) < 0x10000 {
        1
    } else {
        2
    }
}

/// Byte length of the UTF-8 encoding of `s`.
pub open spec fn utf8_len(s: Seq<char>) -> nat {
    encode_utf8(s).len()
}

/// Number of UTF-16 code units of `s`.
pub open spec fn utf16_len(s: Seq<char>) -> nat
    decreases s.len(),
{
    if s.len() == 0 {
        0
    } else {
        utf16_len(s.drop_last()) + utf16_width(s.last())
    }
}

/// Index of the character of `s` that holds UTF-16 code unit `unit`: the first
/// character whose UTF-16 encoding ends after `unit`. An offset that points into
/// the middle of a surrogate pair selects the character that the pair encodes;
/// an offset at or past the end selects `s.len()`.
pub open spec fn utf16_char_index(s: Seq<char>, unit: int) -> nat
    decreases s.len(),
{
    if s.len() == 0 {
        0
    } else if unit < utf16_width(s[0]) {
        0
    } else {
        1 + utf16_char_index(s.drop_first(), unit - utf16_width(s[0]))
    }
}

proof fn lemma_encode_utf8_concat(a: Seq<char>, b: Seq<char>)
    ensures
        encode_utf8(a + b) == encode_utf8(a) + encode_utf8(b),
    decreases a.len(),
{
    if a.len() == 0 {
        assert(a + b =~= b);
    } else {
        assert((a + b).drop_first() =~= a.drop_first() + b);
        lemma_encode_utf8_concat(a.drop_first(), b);
        assert(encode_utf8(a + b) =~= encode_utf8(a) + encode_utf8(b));
    }
}

proof fn lemma_encode_char_len(c: char)
    ensures
        encode_utf8(seq![c]).len() == utf8_width(c),
{
    broadcast use char_is_scalar;

    let v = c as u32;
    assert(is_scalar(v));
    assert(seq![c].drop_first() =~= Seq::<char>::empty());
    assert(encode_utf8(seq![c]) == encode_scalar(v) + encode_utf8(Seq::<char>::empty()));
}

/// Appending a character adds its UTF-8 width to the byte length.
pub proof fn lemma_utf8_len_push(s: Seq<char>, c: char)
    ensures
        utf8_len(s.push(c)) == utf8_len(s) + utf8_width(c),
{
    lemma_encode_utf8_concat(s, seq![c]);
    assert(s.push(c) =~= s + seq![c]);
    lemma_encode_char_len(c);
}

/// Lemma: UTF-16 length adds up over concatenation.
pub proof fn lemma_utf16_len_concat(a: Seq<char>, b: Seq<char>)
    ensures
        utf16_len(a + b) == utf16_len(a) + utf16_len(b),
    decreases b.len(),
{
    if b.len() == 0 {
        assert(a + b =~= a);
    } else {
        lemma_utf16_len_concat(a, b.drop_last());
        assert((a + b).drop_last() =~= a + b.drop_last());
    }
}

/// Lemma: UTF-8 length adds up over concatenation.
pub proof fn lemma_utf8_len_concat(a: Seq<char>, b: Seq<char>)
    ensures
        utf8_len(a + b) == utf8_len(a) + utf8_len(b),
{
    lemma_encode_utf8_concat(a, b);
}

/// Law: a UTF-16 offset converts to the character that holds it. The
/// characters before index `i` take no more than `unit` code units, and when
/// `i` is not the end of the text, character `i` takes the code unit `unit`.
pub proof fn law_utf16_char_index(s: Seq<char>, unit: int)
    requires
        unit >= 0,
    ensures
        utf16_char_index(s, unit) <= s.len(),
        utf16_len(s.take(utf16_char_index(s, unit) as int)) <= unit,
        utf16_char_index(s, unit) < s.len() ==> unit < utf16_len(
            s.take(utf16_char_index(s, unit) + 1int),
        ),
    decreases s.len(),
{
    let i = utf16_char_index(s, unit);
    if s.len() == 0 {
        assert(s.take(0).len() == 0);
    } else {
        let first = seq![s[0]];
        assert(utf16_len(first) == utf16_width(s[0])) by {
            assert(first.drop_last() =~= Seq::<char>::empty());
            assert(utf16_len(Seq::<char>::empty()) == 0);
            assert(first.last() == s[0]);
        }
        if unit < utf16_width(s[0]) {
            assert(s.take(0).len() == 0);
            assert(s.take(1) =~= first);
        } else {
            let rest = s.drop_first();
            let r = unit - utf16_width(s[0]);
            law_utf16_char_index(rest, r);
            let k = utf16_char_index(rest, r) as int;
            assert(s.take(k + 1) =~= first + rest.take(k));
            lemma_utf16_len_concat(first, rest.take(k));
            if k < rest.len() {
                assert(s.take(k + 2) =~= first + rest.take(k + 1));
                lemma_utf16_len_concat(first, rest.take(k + 1));
            }
        }
    }
}

/// UTF-8 width of a character, as `char::len_utf8` gives it.
pub fn char_utf8_width(c: char) -> (w: usize)
    ensures
        w == utf8_width(c),
{
    let v = c as u32;
    if v < 0x80 {
        1
    } else if v < 0x800 {
        2
    } else if v < 0x10000 {
        3
    } else {
        4
    }
}

/// UTF-16 width of a character, as `char::len_utf16` gives it.
pub fn char_utf16_width(c: char) -> (w: usize)
    ensures
        w == utf16_width(c),
{
    if (c as u32) < 0x10000 {
        1
    } else {
        2
    }
}

/// The characters of `text`, in order.
pub fn chars_of(text: &str) -> (chars: Vec<char>)
    ensures
        chars@ == text@,
{
    let mut chars: Vec<char> = Vec::new();
    for c in it: text.chars()
        invariant
            chars@ == it.seq().take(it.index() as int),
    {
        chars.push(c);
    }
    chars
}

/// A `String` holding `chars[start..end]`.
pub fn string_from_chars(chars: &Vec<char>, start: usize, end: usize) -> (s: String)
    requires
        start <= end <= chars.len(),
    ensures
        s@ == chars@.subrange(start as int, end as int),
{
    let mut s = String::new();
    let mut i = start;
    while i < end
        invariant
            start <= i <= end <= chars.len(),
            s@ == chars@.subrange(start as int, i as int),
        decreases end - i,
    {
        s.push(chars[i]);
        assert(chars@.subrange(start as int, i + 1) =~= chars@.subrange(start as int, i as int).push(
            chars@[i as int],
        ));
        i += 1;
    }
    s
}

/// A new buffer holding `chars[start..end]`.
pub fn copy_chars(chars: &Vec<char>, start: usize, end: usize) -> (copy: Vec<char>)
    requires
        start <= end <= chars.len(),
    ensures
        copy@ == chars@.subrange(start as int, end as int),
{
    let mut copy: Vec<char> = Vec::new();
    let mut i = start;
    while i < end
        invariant
            start <= i <= end <= chars.len(),
            copy@ == chars@.subrange(start as int, i as int),
        decreases end - i,
    {
        copy.push(chars[i]);
        assert(chars@.subrange(start as int, i + 1) =~= chars@.subrange(start as int, i as int).push(
            chars@[i as int],
        ));
        i += 1;
    }
    copy
}

/// A new buffer holding `chars` without `chars[start..end]`.
pub fn remove_chars(chars: &Vec<char>, start: usize, end: usize) -> (rest: Vec<char>)
    requires
        start <= end <= chars.len(),
    ensures
        rest@ == chars@.take(start as int) + chars@.skip(end as int),
{
    let mut rest: Vec<char> = Vec::new();
    let mut i: usize = 0;
    while i < start
        invariant
            i <= start <= end <= chars.len(),
            rest@ == chars@.take(i as int),
        decreases start - i,
    {
        rest.push(chars[i]);
        assert(chars@.take(i + 1) =~= chars@.take(i as int).push(chars@[i as int]));
        i += 1;
    }
    let mut j = end;
    while j < chars.len()
        invariant
            start <= end <= j <= chars.len(),
            rest@ == chars@.take(start as int) + chars@.subrange(end as int, j as int),
        decreases chars.len() - j,
    {
        rest.push(chars[j]);
        assert(chars@.subrange(end as int, j + 1) =~= chars@.subrange(end as int, j as int).push(
            chars@[j as int],
        ));
        assert(chars@.take(start as int) + chars@.subrange(end as int, j + 1) =~= (chars@.take(
            start as int,
        ) + chars@.subrange(end as int, j as int)).push(chars@[j as int]));
        j += 1;
    }
    rest
}

/// Byte length of the UTF-8 encoding of `chars[start..end]`.
pub fn utf8_len_of(chars: &Vec<char>, start: usize, end: usize) -> (len: usize)
    requires
        start <= end <= chars.len(),
        end - start <= usize::MAX / 4,
    ensures
        len == utf8_len(chars@.subrange(start as int, end as int)),
{
    let mut len: usize = 0;
    let mut i = start;
    proof {
        assert(encode_utf8(chars@.subrange(start as int, start as int)).len() == 0);
    }
    while i < end
        invariant
            start <= i <= end <= chars.len(),
            end - start <= usize::MAX / 4,
            len == utf8_len(chars@.subrange(start as int, i as int)),
            len <= 4 * (i - start),
        decreases end - i,
    {
        let c = chars[i];
        proof {
            lemma_utf8_len_push(chars@.subrange(start as int, i as int), c);
            assert(chars@.subrange(start as int, i + 1) =~= chars@.subrange(start as int, i as int).push(c));
        }
        len = len + char_utf8_width(c);
        i += 1;
    }
    len
}

/// Character index of UTF-16 code unit `unit` in `chars` (see `utf16_char_index`).
pub fn utf16_to_char_index(chars: &Vec<char>, unit: usize) -> (index: usize)
    requires
        chars.len() <= usize::MAX / 2,
    ensures
        index == utf16_char_index(chars@, unit as int),
        index <= chars.len(),
{
    let mut position: usize = 0;
    let mut i: usize = 0;
    proof {
        assert(chars@.skip(0) =~= chars@);
    }
    while i < chars.len()
        invariant
            i <= chars.len() <= usize::MAX / 2,
            position <= 2 * i,
            position <= unit,
            utf16_char_index(chars@, unit as int) == i + utf16_char_index(
                chars@.skip(i as int),
                unit - position,
            ),
        decreases chars.len() - i,
    {
        let width = char_utf16_width(chars[i]);
        let ghost rest = chars@.skip(i as int);
        assert(rest[0] == chars@[i as int]);
        if unit < position + width {
            return i;
        }
        assert(rest.drop_first() =~= chars@.skip(i + 1));
        position = position + width;
        i += 1;
    }
    assert(chars@.skip(i as int).len() == 0);
    i
}

} // verus!
