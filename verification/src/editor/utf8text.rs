//! Facts about UTF-8 encodings of character sequences that the text types
//! rely on: how encodings compose, where character boundaries fall, and
//! how long a character's encoding is.
use vstd::prelude::*;
use vstd::utf8::*;

verus! {

broadcast use vstd::utf8::group_utf8_lib;

/// The number of bytes of the UTF-8 encoding of `c`.
pub open spec fn char_len(c: char) -> nat {
    encode_scalar(c as u32).len()
}

/// Encoding distributes over concatenation.
pub proof fn lemma_encode_concat(a: Seq<char>, b: Seq<char>)
    ensures
        encode_utf8(a + b) == encode_utf8(a) + encode_utf8(b),
    decreases a.len(),
{
    if a.len() == 0 {
        assert(a + b =~= b);
        assert(encode_utf8(a) + encode_utf8(b) =~= encode_utf8(b));
    } else {
        lemma_encode_concat(a.drop_first(), b);
        assert((a + b).drop_first() =~= a.drop_first() + b);
        assert(encode_utf8(a + b) =~= encode_scalar(a[0] as u32) + encode_utf8(a.drop_first() + b));
        assert(encode_utf8(a) =~= encode_scalar(a[0] as u32) + encode_utf8(a.drop_first()));
    }
}

/// The encoding of a sequence with one more character at its end.
pub proof fn lemma_encode_push(a: Seq<char>, c: char)
    ensures
        encode_utf8(a.push(c)) == encode_utf8(a) + encode_scalar(c as u32),
        encode_utf8(a.push(c)).len() == encode_utf8(a).len() + char_len(c),
{
    lemma_encode_concat(a, seq![c]);
    assert(a + seq![c] =~= a.push(c));
    assert(seq![c].drop_first() =~= Seq::<char>::empty());
    assert(encode_utf8(seq![c]) =~= encode_scalar(c as u32) + encode_utf8(Seq::<char>::empty()));
    assert(encode_utf8(seq![c]) =~= encode_scalar(c as u32));
}

/// A valid encoding is the encoding of what it decodes to.
pub proof fn lemma_valid_is_encoding(bytes: Seq<u8>)
    requires
        valid_utf8(bytes),
    ensures
        encode_utf8(decode_utf8(bytes)) == bytes,
{
}

/// Decoding distributes over the concatenation of valid encodings.
pub proof fn lemma_decode_concat(x: Seq<u8>, y: Seq<u8>)
    requires
        valid_utf8(x),
        valid_utf8(y),
    ensures
        valid_utf8(x + y),
        decode_utf8(x + y) == decode_utf8(x) + decode_utf8(y),
{
    lemma_encode_concat(decode_utf8(x), decode_utf8(y));
    assert(x + y == encode_utf8(decode_utf8(x) + decode_utf8(y)));
}

/// The end of the encoding of a prefix is a character boundary of the whole encoding.
pub proof fn lemma_prefix_boundary(a: Seq<char>, b: Seq<char>)
    ensures
        is_char_boundary(encode_utf8(a + b), encode_utf8(a).len() as int),
    decreases a.len(),
{
    let e = encode_utf8(a + b);
    if a.len() == 0 {
    } else {
        lemma_prefix_boundary(a.drop_first(), b);
        encode_utf8_first_scalar(a + b);
        assert((a + b).drop_first() =~= a.drop_first() + b);
        assert((a + b)[0] == a[0]);
        lemma_encode_concat(a, b);
        assert(pop_first_scalar(e) =~= encode_utf8(a.drop_first() + b));
        assert(encode_utf8(a).len() == encode_scalar(a[0] as u32).len() + encode_utf8(
            a.drop_first(),
        ).len());
    }
}

/// The byte offset at which character `k` of `chars` starts in its encoding.
pub open spec fn byte_offset(chars: Seq<char>, k: int) -> int {
    encode_utf8(chars.subrange(0, k)).len() as int
}

/// Byte offsets of character positions are character boundaries, and the
/// encoding splits there into the encodings of the two parts.
pub proof fn lemma_byte_offset(chars: Seq<char>, k: int)
    requires
        0 <= k <= chars.len(),
    ensures
        is_char_boundary(encode_utf8(chars), byte_offset(chars, k)),
        0 <= byte_offset(chars, k) <= encode_utf8(chars).len(),
        encode_utf8(chars).subrange(0, byte_offset(chars, k)) == encode_utf8(chars.subrange(0, k)),
        encode_utf8(chars).subrange(byte_offset(chars, k), encode_utf8(chars).len() as int)
            == encode_utf8(chars.subrange(k, chars.len() as int)),
{
    let a = chars.subrange(0, k);
    let b = chars.subrange(k, chars.len() as int);
    assert(a + b =~= chars);
    lemma_prefix_boundary(a, b);
    lemma_encode_concat(a, b);
    assert(encode_utf8(chars).subrange(0, byte_offset(chars, k)) =~= encode_utf8(a));
    assert(encode_utf8(chars).subrange(byte_offset(chars, k), encode_utf8(chars).len() as int)
        =~= encode_utf8(b));
}

/// The number of bytes in the UTF-8 encoding of `c`.
pub fn char_byte_len(c: char) -> (n: usize)
    ensures
        n == char_len(c),
        1 <= n <= 4,
{
    let u: u32 = c as u32;
    proof {
        char_is_scalar(c);
    }
    if u <= 0x7f {
        1
    } else if u <= 0x7ff {
        2
    } else if u <= 0xffff {
        3
    } else {
        4
    }
}

} // verus!
