//! Source text as characters: how the bytes that the parser reads relate to
//! the characters of the text.
//!
//! In UTF-8 a character below 128 is one byte, itself, and every byte of a
//! longer character is 128 or more. The symbols of Brainfreak are below
//! 128, so a byte is a symbol exactly where a character is one, and the
//! index of that byte is the offset of the character in the text.

use vstd::prelude::*;
use vstd::utf8::{encode_scalar, encode_utf8};
use crate::grammar::{
    leaf, leaf_bytes, lemma_balanced_source_parses, lemma_unmatched_bracket_is_reported, balanced,
    parse_source, LOOP_OPEN,
};
use crate::tree::leaf_count;

verus! {

/// The offset in bytes of character `i` of `text` in its UTF-8 encoding.
pub open spec fn byte_offset(text: Seq<char>, i: int) -> int {
    encode_utf8(text.take(i)).len() as int
}

/// The encoding of two runs of characters is the encoding of the first,
/// then that of the second.
pub proof fn lemma_encode_concat(a: Seq<char>, b: Seq<char>)
    ensures
        encode_utf8(a + b) == encode_utf8(a) + encode_utf8(b),
    decreases a.len(),
{
    if a.len() == 0 {
        assert(a + b == b);
        assert(encode_utf8(a) + encode_utf8(b) == encode_utf8(b));
    } else {
        assert((a + b)[0] == a[0]);
        assert((a + b).drop_first() == a.drop_first() + b);
        lemma_encode_concat(a.drop_first(), b);
        assert(encode_utf8(a + b) == encode_scalar(a[0] as u32) + (encode_utf8(a.drop_first())
            + encode_utf8(b)));
        assert(encode_scalar(a[0] as u32) + (encode_utf8(a.drop_first()) + encode_utf8(b)) == (
        encode_scalar(a[0] as u32) + encode_utf8(a.drop_first())) + encode_utf8(b));
    }
}

/// A character below 128 is encoded as one byte, itself; every byte of any
/// other character is 128 or more.
pub proof fn lemma_scalar_bytes(c: char)
    ensures
        1 <= encode_scalar(c as u32).len() <= 4,
        (c as u32) < 0x80 ==> encode_scalar(c as u32) == seq![(c as u32) as u8],
        (c as u32) >= 0x80 ==> forall|k: int|
            0 <= k < encode_scalar(c as u32).len() ==> #[trigger] encode_scalar(c as u32)[k]
                >= 0x80,
{
    let v = c as u32;
    if v < 0x80 {
        assert((v & 0x7F) as u8 == v as u8) by (bit_vector)
            requires
                v < 0x80,
        ;
        assert(encode_scalar(v) == seq![v as u8]);
    } else {
        assert((0xC0u8 | ((v >> 6) & 0x1F) as u8) >= 0x80) by (bit_vector);
        assert((0xE0u8 | ((v >> 12) & 0x0F) as u8) >= 0x80) by (bit_vector);
        assert((0xF0u8 | ((v >> 18) & 0x7) as u8) >= 0x80) by (bit_vector);
        assert((0x80u8 | (v & 0x3F) as u8) >= 0x80) by (bit_vector);
        assert((0x80u8 | ((v >> 6) & 0x3F) as u8) >= 0x80) by (bit_vector);
        assert((0x80u8 | ((v >> 12) & 0x3F) as u8) >= 0x80) by (bit_vector);
    }
}

/// Where character `i` of a text lies in the bytes of the text, and what
/// its bytes are: itself if it is below 128, else bytes of 128 or more.
pub proof fn lemma_character_bytes(text: Seq<char>, i: int)
    requires
        0 <= i < text.len(),
    ensures
        ({
            let bytes = encode_utf8(text);
            let at = byte_offset(text, i);
            let width = encode_scalar(text[i] as u32).len();
            &&& 0 <= at
            &&& at + width <= bytes.len()
            &&& byte_offset(text, i + 1) == at + width
            &&& (text[i] as u32) < 0x80 ==> width == 1 && bytes[at] == (text[i] as u32) as u8
            &&& (text[i] as u32) >= 0x80 ==> forall|k: int|
                at <= k < at + width ==> #[trigger] bytes[k] >= 0x80
        }),
{
    let before = text.take(i);
    let one = seq![text[i]];
    let after = text.skip(i + 1);
    assert(text == before + one + after);
    assert(text.take(i + 1) == before + one);
    lemma_encode_concat(before + one, after);
    lemma_encode_concat(before, one);
    lemma_scalar_bytes(text[i]);
    assert(one.drop_first() == Seq::<char>::empty());
    assert(encode_utf8(one) == encode_scalar(text[i] as u32)) by {
        assert(encode_utf8(one.drop_first()) == Seq::<u8>::empty());
        assert(encode_scalar(text[i] as u32) + Seq::<u8>::empty() == encode_scalar(
            text[i] as u32,
        ));
    }
    let bytes = encode_utf8(text);
    let at = byte_offset(text, i);
    let scalar = encode_scalar(text[i] as u32);
    assert forall|k: int| at <= k < at + scalar.len() implies #[trigger] bytes[k] == scalar[k
        - at] by {}
}

/// Each byte of a text belongs to one of its characters.
pub proof fn lemma_byte_is_in_character(text: Seq<char>, k: int) -> (i: int)
    requires
        0 <= k < encode_utf8(text).len(),
    ensures
        0 <= i < text.len(),
        byte_offset(text, i) <= k < byte_offset(text, i + 1),
    decreases text.len(),
{
    let last = text.len() - 1;
    assert(text.len() > 0);
    assert(text.take(text.len() as int) == text);
    if k >= byte_offset(text, last) {
        last
    } else {
        let front = text.drop_last();
        assert(front == text.take(last));
        let i = lemma_byte_is_in_character(front, k);
        assert(front.take(i) == text.take(i));
        assert(front.take(i + 1) == text.take(i + 1));
        i
    }
}

/// The offset that parsing reports for an unmatched bracket is the offset
/// in bytes of a `[` character of the text.
pub proof fn lemma_unmatched_offset_is_of_a_bracket(text: Seq<char>)
    ensures
        parse_source(encode_utf8(text)) matches Err(at) ==> exists|i: int|
            0 <= i < text.len() && text[i] == '[' && #[trigger] byte_offset(text, i) == at,
{
    let bytes = encode_utf8(text);
    lemma_unmatched_bracket_is_reported(bytes);
    if let Err(at) = parse_source(bytes) {
        let i = lemma_byte_is_in_character(text, at);
        lemma_character_bytes(text, i);
        assert(bytes[at] == LOOP_OPEN);
        let scalar = text[i] as u32;
        if scalar >= 0x80 {
            assert(bytes[at] >= 0x80);
        }
        assert(at == byte_offset(text, i));
        assert(scalar == 0x5B);
        vstd::utf8::char_u32_cast(text[i], scalar);
        vstd::utf8::char_u32_cast('[', 0x5B);
        assert(text[i] == '[');
        assert(byte_offset(text, i) == at);
    }
}

/// Holds when `c` is one of the six symbols that are not brackets.
pub open spec fn is_leaf_symbol(c: char) -> bool {
    c == '+' || c == '-' || c == '>' || c == '<' || c == '.' || c == ','
}

/// The number of characters of `text` that are one of the six symbols that
/// are not brackets.
pub open spec fn leaf_symbols(text: Seq<char>) -> nat
    decreases text.len(),
{
    if text.len() == 0 {
        0
    } else {
        leaf_symbols(text.drop_last()) + if is_leaf_symbol(text.last()) {
            1nat
        } else {
            0nat
        }
    }
}

/// The symbol bytes among the first bytes of a run are those among the
/// same bytes of a longer run.
proof fn lemma_leaf_bytes_prefix(a: Seq<u8>, b: Seq<u8>, n: int)
    requires
        0 <= n <= a.len(),
    ensures
        leaf_bytes(a + b, n) == leaf_bytes(a, n),
    decreases n,
{
    if n > 0 {
        lemma_leaf_bytes_prefix(a, b, n - 1);
        assert((a + b)[n - 1] == a[n - 1]);
    }
}

/// The symbol bytes of two runs of bytes add up.
proof fn lemma_leaf_bytes_add(a: Seq<u8>, b: Seq<u8>, n: int)
    requires
        0 <= n <= b.len(),
    ensures
        leaf_bytes(a + b, a.len() + n) == leaf_bytes(a, a.len() as int) + leaf_bytes(b, n),
    decreases n,
{
    if n == 0 {
        lemma_leaf_bytes_prefix(a, b, a.len() as int);
    } else {
        lemma_leaf_bytes_add(a, b, n - 1);
        assert((a + b)[a.len() + n - 1] == b[n - 1]);
    }
}

/// The bytes of a character hold one symbol byte if the character is one
/// of the six symbols, and none if it is not.
proof fn lemma_leaf_bytes_of_character(c: char)
    ensures
        leaf_bytes(encode_scalar(c as u32), encode_scalar(c as u32).len() as int) == if is_leaf_symbol(
            c,
        ) {
            1nat
        } else {
            0nat
        },
{
    let bytes = encode_scalar(c as u32);
    lemma_scalar_bytes(c);
    reveal_with_fuel(leaf_bytes, 5);
    if (c as u32) < 0x80 {
        vstd::utf8::char_u32_cast(c, c as u32);
        vstd::utf8::char_u32_cast('+', 0x2B);
        vstd::utf8::char_u32_cast('-', 0x2D);
        vstd::utf8::char_u32_cast('>', 0x3E);
        vstd::utf8::char_u32_cast('<', 0x3C);
        vstd::utf8::char_u32_cast('.', 0x2E);
        vstd::utf8::char_u32_cast(',', 0x2C);
        assert(bytes[0] == (c as u32) as u8);
    } else {
        assert forall|k: int| 0 <= k < bytes.len() implies leaf(#[trigger] bytes[k]) is None by {}
    }
}

/// The bytes of a text hold one symbol byte for each of its characters
/// that is one of the six symbols that are not brackets.
pub proof fn lemma_leaf_bytes_are_leaf_symbols(text: Seq<char>)
    ensures
        leaf_bytes(encode_utf8(text), encode_utf8(text).len() as int) == leaf_symbols(text),
    decreases text.len(),
{
    if text.len() > 0 {
        let front = text.drop_last();
        let one = seq![text.last()];
        assert(text == front + one);
        lemma_encode_concat(front, one);
        assert(one.drop_first() == Seq::<char>::empty());
        assert(encode_utf8(one) == encode_scalar(text.last() as u32)) by {
            assert(encode_utf8(one.drop_first()) == Seq::<u8>::empty());
            assert(encode_scalar(text.last() as u32) + Seq::<u8>::empty() == encode_scalar(
                text.last() as u32,
            ));
        }
        lemma_leaf_bytes_are_leaf_symbols(front);
        lemma_leaf_bytes_of_character(text.last());
        lemma_leaf_bytes_add(
            encode_utf8(front),
            encode_utf8(one),
            encode_utf8(one).len() as int,
        );
    }
}

/// Parsing a text whose brackets are balanced succeeds, and gives one leaf
/// for each character of the text that is one of the six symbols that are
/// not brackets.
pub proof fn lemma_balanced_text_parses(text: Seq<char>)
    requires
        balanced(encode_utf8(text)),
    ensures
        parse_source(encode_utf8(text)) is Ok,
        leaf_count(parse_source(encode_utf8(text))->Ok_0) == leaf_symbols(text),
{
    lemma_balanced_source_parses(encode_utf8(text));
    lemma_leaf_bytes_are_leaf_symbols(text);
}

} // verus!
