//! How the characters of a text and the bytes of its UTF-8 form answer to
//! each other, as far as splitting at line feeds needs it.

use vstd::prelude::*;
use vstd::utf8::*;

verus! {

/// The byte that encodes a line feed.
pub const LINE_FEED: u8 = 0x0a;

/// The byte that encodes a carriage return.
pub const CARRIAGE_RETURN: u8 = 0x0d;

proof fn lemma_one_byte_scalar(scalar: u32)
    by (bit_vector)
    requires
        has_width_1_encoding(scalar),
    ensures
        leading_byte_width_1(scalar) < 0x80,
        leading_byte_width_1(scalar) as u32 == scalar,
{
}

proof fn lemma_high_bytes(scalar: u32)
    by (bit_vector)
    ensures
        leading_byte_width_2(scalar) >= 0x80,
        leading_byte_width_3(scalar) >= 0x80,
        leading_byte_width_4(scalar) >= 0x80,
        last_continuation_byte(scalar) >= 0x80,
        second_last_continuation_byte(scalar) >= 0x80,
        third_last_continuation_byte(scalar) >= 0x80,
{
}

/// A character is a line feed or a carriage return exactly when its value
/// is that of the byte that encodes one.
pub proof fn lemma_control_values(c: char)
    ensures
        c as u32 == LINE_FEED as u32 <==> c == '\n',
        c as u32 == CARRIAGE_RETURN as u32 <==> c == '\r',
{
}

/// A character below 0x80 is encoded as the one byte of its own value; any
/// other as two to four bytes from 0x80 up.
pub proof fn lemma_scalar_bytes(c: char)
    ensures
        1 <= encode_scalar(c as u32).len() <= 4,
        (c as u32) < 0x80 ==> encode_scalar(c as u32).len() == 1 && encode_scalar(c as u32)[0]
            as u32 == c as u32,
        (c as u32) >= 0x80 ==> forall|i: int|
            0 <= i < encode_scalar(c as u32).len() ==> #[trigger] encode_scalar(c as u32)[i]
                >= 0x80,
{
    let scalar = c as u32;
    char_is_scalar(c);
    lemma_high_bytes(scalar);
    if has_width_1_encoding(scalar) {
        lemma_one_byte_scalar(scalar);
    }
}

/// The encoding of two texts in a row is the two encodings in a row.
pub proof fn lemma_encode_concat(a: Seq<char>, b: Seq<char>)
    ensures
        encode_utf8(a + b) =~= encode_utf8(a) + encode_utf8(b),
    decreases a.len(),
{
    if a.len() == 0 {
        assert(a + b =~= b);
    } else {
        lemma_encode_concat(a.drop_first(), b);
        assert((a + b).drop_first() =~= a.drop_first() + b);
    }
}

/// Two texts with the same encoding are the same text.
pub proof fn lemma_encode_injective(a: Seq<char>, b: Seq<char>)
    requires
        encode_utf8(a) == encode_utf8(b),
    ensures
        a == b,
{
    encode_utf8_decode_utf8(a);
    encode_utf8_decode_utf8(b);
}

/// A byte below 0x80 stands in the encoding of a text only where the text
/// holds the character of that value.
pub proof fn lemma_absent_byte(text: Seq<char>, byte: u8)
    requires
        byte < 0x80,
        forall|i: int| 0 <= i < text.len() ==> #[trigger] text[i] as u32 != byte as u32,
    ensures
        forall|j: int| 0 <= j < encode_utf8(text).len() ==> #[trigger] encode_utf8(text)[j] != byte,
    decreases text.len(),
{
    if text.len() > 0 {
        let rest = text.drop_first();
        assert forall|i: int| 0 <= i < rest.len() implies #[trigger] rest[i] as u32
            != byte as u32 by {
            assert(rest[i] == text[i + 1]);
        }
        lemma_absent_byte(rest, byte);
        lemma_scalar_bytes(text[0]);
        let head = encode_scalar(text[0] as u32);
        assert forall|j: int| 0 <= j < encode_utf8(text).len() implies #[trigger] encode_utf8(
            text,
        )[j] != byte by {
            if j < head.len() {
                assert(encode_utf8(text)[j] == head[j]);
            } else {
                assert(encode_utf8(text)[j] == encode_utf8(rest)[j - head.len()]);
            }
        }
    }
}

/// The last byte of an encoding is that of a character below 0x80 exactly
/// when the text ends with that character, and the bytes before it then
/// encode the text before it.
pub proof fn lemma_last_byte(text: Seq<char>, byte: u8)
    requires
        byte < 0x80,
        text.len() > 0,
    ensures
        encode_utf8(text).len() > 0,
        encode_utf8(text).last() == byte <==> text.last() as u32 == byte as u32,
        text.last() as u32 == byte as u32 ==> encode_utf8(text).drop_last() =~= encode_utf8(
            text.drop_last(),
        ),
{
    let front = text.drop_last();
    let last = seq![text.last()];
    assert(text =~= front + last);
    lemma_encode_concat(front, last);
    lemma_scalar_bytes(text.last());
    let tail = encode_scalar(text.last() as u32);
    assert(encode_utf8(last) =~= tail) by {
        assert(last.drop_first() =~= Seq::<char>::empty());
        reveal_with_fuel(encode_utf8, 2);
    }
    let bytes = encode_utf8(text);
    assert(bytes.last() == tail.last());
    if text.last() as u32 >= 0x80 {
        assert(tail[tail.len() - 1] >= 0x80);
    }
}

/// A text is empty exactly when its encoding is.
pub proof fn lemma_encode_empty(text: Seq<char>)
    ensures
        encode_utf8(text).len() == 0 <==> text.len() == 0,
{
    if text.len() > 0 {
        lemma_scalar_bytes(text[0]);
    }
}

} // verus!
