//! Source text as a sequence of characters.

use vstd::prelude::*;
use vstd::std_specs::iter::IteratorSpec;
use vstd::string::StringSliceAdditionalSpecFns;
use vstd::utf8::{
    encode_scalar, encode_utf8, encode_utf8_decode_utf8, encode_utf8_first_scalar,
    encode_utf8_valid_utf8, is_char_boundary, length_of_first_scalar, pop_first_scalar,
};

verus! {

/// The characters of `s`, in order.
pub fn to_chars(s: &str) -> (v: Vec<char>)
    ensures
        v@ == s@,
{
    let mut v: Vec<char> = Vec::new();
    let mut it = s.chars();
    loop
        invariant
            it.obeys_prophetic_iter_laws(),
            it.decrease() is Some,
            v@ + it.remaining() == s@,
        ensures
            v@ == s@,
        decreases it.decrease()->0,
    {
        broadcast use vstd::string::next_postcondition;
        let ghost rest = it.remaining();
        let ghost done = v@;
        match it.next() {
            Some(c) => {
                v.push(c);
                assert(v@ + it.remaining() =~= done + rest);
            },
            None => {
                assert(v@ + it.remaining() =~= v@);
                break;
            },
        }
    }
    v
}

/// Tells whether the characters `s` spell `word`.
pub fn chars_are(s: &[char], word: &str) -> (b: bool)
    ensures
        b == (s@ == word@),
{
    let n = word.unicode_len();
    if s.len() != n {
        return false;
    }
    let mut i: usize = 0;
    while i < n
        invariant
            n == word@.len(),
            n == s@.len(),
            i <= n,
            forall|j: int| 0 <= j < i ==> s@[j] == word@[j],
        decreases n - i,
    {
        if s[i] != word.get_char(i) {
            return false;
        }
        i += 1;
    }
    assert(s@ =~= word@);
    true
}

/// The number of bytes that the first `count` characters of `chars` take in UTF-8: the
/// place in the encoded text where the character with index `count` begins.
pub open spec fn byte_offset(chars: Seq<char>, count: int) -> nat {
    encode_utf8(chars.take(count)).len()
}

/// A text of one character is encoded as that character.
pub proof fn lemma_encode_one(c: char)
    ensures
        encode_utf8(seq![c]) == encode_scalar(c as u32),
{
    let one = seq![c];
    assert(one.drop_first() =~= Seq::<char>::empty());
    assert(encode_utf8(Seq::<char>::empty()) =~= Seq::<u8>::empty());
    assert(encode_utf8(one) =~= encode_scalar(one[0] as u32) + encode_utf8(one.drop_first()));
    assert(encode_utf8(one) =~= encode_scalar(c as u32));
}

/// A text is encoded piece by piece.
pub proof fn lemma_encode_concat(a: Seq<char>, b: Seq<char>)
    ensures
        encode_utf8(a + b) == encode_utf8(a) + encode_utf8(b),
    decreases a.len(),
{
    if a.len() == 0 {
        assert(a + b =~= b);
        assert(encode_utf8(a) + encode_utf8(b) =~= encode_utf8(b));
    } else {
        lemma_encode_concat(a.drop_first(), b);
        assert((a + b).drop_first() =~= a.drop_first() + b);
        assert(encode_utf8(a + b) =~= encode_utf8(a) + encode_utf8(b));
    }
}

/// The encoded text up to a character, followed by that character, is the encoded text
/// up to the next one.
pub proof fn lemma_byte_offset_next(chars: Seq<char>, count: int)
    requires
        0 <= count < chars.len(),
    ensures
        byte_offset(chars, count + 1) == byte_offset(chars, count) + encode_scalar(
            chars[count] as u32,
        ).len(),
        byte_offset(chars, count + 1) <= encode_utf8(chars).len(),
{
    let one = seq![chars[count]];
    assert(chars.take(count + 1) =~= chars.take(count) + one);
    lemma_encode_concat(chars.take(count), one);
    lemma_encode_one(chars[count]);
    assert(chars =~= chars.take(count + 1) + chars.skip(count + 1));
    lemma_encode_concat(chars.take(count + 1), chars.skip(count + 1));
}

/// Every character of a text begins at a character boundary of the encoded text, and so
/// does the end of the text.
pub proof fn lemma_byte_offset_is_boundary(chars: Seq<char>, count: int)
    requires
        0 <= count <= chars.len(),
    ensures
        is_char_boundary(encode_utf8(chars), byte_offset(chars, count) as int),
    decreases count,
{
    let bytes = encode_utf8(chars);
    encode_utf8_valid_utf8(chars);
    if count == 0 {
        assert(chars.take(0) =~= Seq::<char>::empty());
    } else {
        let rest = chars.drop_first();
        let first = seq![chars[0]];
        encode_utf8_first_scalar(chars);
        assert(pop_first_scalar(bytes) =~= encode_utf8(rest));
        assert(chars.take(count) =~= first + rest.take(count - 1));
        lemma_encode_concat(first, rest.take(count - 1));
        lemma_encode_one(chars[0]);
        assert(chars =~= chars.take(count) + chars.skip(count));
        lemma_encode_concat(chars.take(count), chars.skip(count));
        lemma_byte_offset_is_boundary(rest, count - 1);
        assert(byte_offset(chars, count) - length_of_first_scalar(bytes) == byte_offset(
            rest,
            count - 1,
        ));
    }
}

/// Two texts with the same encoding are the same text.
pub proof fn lemma_encode_injective(a: Seq<char>, b: Seq<char>)
    requires
        encode_utf8(a) == encode_utf8(b),
    ensures
        a == b,
{
    encode_utf8_decode_utf8(a);
    encode_utf8_decode_utf8(b);
}

/// The number of bytes that `c` takes in UTF-8.
pub fn utf8_len(c: char) -> (n: usize)
    ensures
        n == encode_scalar(c as u32).len(),
        1 <= n <= 4,
{
    let code = c as u32;
    if code < 0x80 {
        1
    } else if code < 0x800 {
        2
    } else if code < 0x1_0000 {
        3
    } else {
        4
    }
}

/// The piece of `s` between two of its characters, found by their places in the encoded
/// text: the characters with index `from` up to, and without, the one with index `to`.
pub fn slice_between<'a>(
    s: &'a str,
    from_byte: usize,
    to_byte: usize,
    Ghost(from): Ghost<int>,
    Ghost(to): Ghost<int>,
) -> (piece: &'a str)
    requires
        0 <= from <= to <= s@.len(),
        from_byte == byte_offset(s@, from),
        to_byte == byte_offset(s@, to),
    ensures
        piece@ == s@.subrange(from, to),
{
    proof {
        lemma_byte_offset_is_boundary(s@, to);
        assert(s@ =~= s@.take(to) + s@.skip(to));
        lemma_encode_concat(s@.take(to), s@.skip(to));
    }
    let (left, _) = s.split_at(to_byte);
    proof {
        assert(left.spec_bytes() =~= encode_utf8(s@.take(to)));
        lemma_encode_injective(left@, s@.take(to));
        assert(left@.take(from) =~= s@.take(from));
        lemma_byte_offset_is_boundary(left@, from);
        assert(left@ =~= left@.take(from) + left@.skip(from));
        lemma_encode_concat(left@.take(from), left@.skip(from));
    }
    let (_, piece) = left.split_at(from_byte);
    proof {
        assert(piece.spec_bytes() =~= encode_utf8(left@.skip(from)));
        lemma_encode_injective(piece@, left@.skip(from));
        assert(left@.skip(from) =~= s@.subrange(from, to));
    }
    piece
}

} // verus!
