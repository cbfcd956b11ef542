//! Characters of a text: their classes, and where each one lies among the
//! bytes of the text's UTF-8 encoding.

use vstd::prelude::*;
use vstd::utf8::*;

verus! {

/// Whether `c` has the Unicode property `White_Space`.
pub open spec fn white_space(c: char) -> bool {
    let u = c as u32;
    ||| 0x09 <= u <= 0x0d
    ||| u == 0x20
    ||| u == 0x85
    ||| u == 0xa0
    ||| u == 0x1680
    ||| 0x2000 <= u <= 0x200a
    ||| u == 0x2028
    ||| u == 0x2029
    ||| u == 0x202f
    ||| u == 0x205f
    ||| u == 0x3000
}

/// Whether `c` is one of the decimal digits `0` to `9`.
pub open spec fn decimal_digit(c: char) -> bool {
    0x30 <= c as u32 <= 0x39
}

/// The number that the decimal digit `c` stands for.
pub open spec fn digit_value(c: char) -> nat
    recommends
        decimal_digit(c),
{
    (c as u32 - 0x30) as nat
}

/// The number of bytes that the UTF-8 encoding of `chars` takes.
pub open spec fn byte_len(chars: Seq<char>) -> nat {
    encode_utf8(chars).len()
}

/// Whether `c` has the Unicode property `White_Space`.
pub fn is_whitespace(c: char) -> (b: bool)
    ensures
        b == white_space(c),
{
    let u = c as u32;
    (0x09 <= u && u <= 0x0d) || u == 0x20 || u == 0x85 || u == 0xa0 || u == 0x1680 || (0x2000 <= u
        && u <= 0x200a) || u == 0x2028 || u == 0x2029 || u == 0x202f || u == 0x205f || u == 0x3000
}

/// Whether `c` is a decimal digit.
pub fn is_decimal_digit(c: char) -> (b: bool)
    ensures
        b == decimal_digit(c),
{
    let u = c as u32;
    0x30 <= u && u <= 0x39
}

/// The number of bytes that `c` takes in UTF-8.
pub fn char_width(c: char) -> (width: usize)
    ensures
        width == byte_len(seq![c]),
        1 <= width <= 4,
{
    proof {
        lemma_byte_len_one(c);
    }
    let u = c as u32;
    if u < 0x80 {
        1
    } else if u < 0x800 {
        2
    } else if u < 0x10000 {
        3
    } else {
        4
    }
}

/// The characters of `s`, in order.
pub fn chars_of(s: &str) -> (chars: Vec<char>)
    ensures
        chars@ == s@,
{
    broadcast use vstd::string::group_string_axioms;

    let mut chars: Vec<char> = Vec::new();
    for c in it: s.chars()
        invariant
            it.seq() == s@,
            chars@ == s@.take(it.index()),
    {
        chars.push(c);
    }
    assert(s@.take(s@.len() as int) == s@);
    chars
}

/// The address of the character with index `index`, counted in bytes from
/// the first byte of `s`: the number of bytes that the characters before it
/// take. For an index at or beyond the end of `s` it is the length of `s` in
/// bytes.
pub fn addr_of(s: &str, index: usize) -> (addr: usize)
    ensures
        index <= s@.len() ==> addr == byte_len(s@.take(index as int)),
        index > s@.len() ==> addr == byte_len(s@),
{
    let total = s.as_bytes().len();
    let chars = chars_of(s);
    let index = if index < chars.len() { index } else { chars.len() };
    assert(s@.take(s@.len() as int) == s@);
    let mut addr: usize = 0;
    let mut i: usize = 0;
    while i < index
        invariant
            i <= index <= chars@.len(),
            chars@ == s@,
            total == byte_len(s@),
            addr == byte_len(s@.take(i as int)),
        decreases index - i,
    {
        let width = char_width(chars[i]);
        proof {
            let head = s@.take(i as int);
            let next = s@.take(i + 1);
            assert(next == head + seq![s@[i as int]]);
            lemma_byte_len_concat(head, seq![s@[i as int]]);
            assert(s@ == next + s@.skip(i + 1));
            lemma_byte_len_concat(next, s@.skip(i + 1));
        }
        addr = addr + width;
        i = i + 1;
    }
    addr
}

/// A single character takes one to four bytes, by the range its code point
/// lies in.
pub proof fn lemma_byte_len_one(c: char)
    ensures
        byte_len(seq![c]) == if (c as u32) < 0x80 {
            1nat
        } else if (c as u32) < 0x800 {
            2nat
        } else if (c as u32) < 0x10000 {
            3nat
        } else {
            4nat
        },
{
    let s = seq![c];
    assert(s.drop_first() =~= Seq::<char>::empty());
    assert(encode_utf8(s.drop_first()) =~= Seq::<u8>::empty());
    assert(encode_utf8(s) =~= encode_scalar(c as u32));
}

/// The encoding of a concatenation is the encoding of its first part
/// followed by that of its second, and so as long as the two together.
pub proof fn lemma_byte_len_concat(a: Seq<char>, b: Seq<char>)
    ensures
        encode_utf8(a + b) == encode_utf8(a) + encode_utf8(b),
        byte_len(a + b) == byte_len(a) + byte_len(b),
    decreases a.len(),
{
    if a.len() == 0 {
        assert(a + b =~= b);
        assert(encode_utf8(a) + encode_utf8(b) =~= encode_utf8(b));
    } else {
        assert((a + b).drop_first() =~= a.drop_first() + b);
        lemma_byte_len_concat(a.drop_first(), b);
        assert(encode_utf8(a + b) =~= encode_utf8(a) + encode_utf8(b));
    }
}

} // verus!
