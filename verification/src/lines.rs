//! Text as the lines it is made of.

use crate::encoding::{
    lemma_absent_byte, lemma_control_values, lemma_encode_concat, lemma_encode_empty,
    lemma_encode_injective, lemma_last_byte, lemma_scalar_bytes, CARRIAGE_RETURN, LINE_FEED,
};
use vstd::prelude::*;
use vstd::string::StringSliceAdditionalSpecFns;
use vstd::utf8::*;

verus! {

/// What each of `strings` holds, in their order.
pub open spec fn texts(strings: Seq<String>) -> Seq<Seq<char>> {
    strings.map_values(|s: String| s@)
}

/// Where the first line feed of `text` stands; the length of `text` if it
/// holds none.
pub open spec fn line_end(text: Seq<char>) -> int
    decreases text.len(),
{
    if text.len() == 0 || text[0] == '\n' {
        0
    } else {
        1 + line_end(text.drop_first())
    }
}

/// A line without the carriage return that stood before its line feed.
pub open spec fn without_cr(line: Seq<char>) -> Seq<char> {
    if line.len() > 0 && line.last() == '\r' {
        line.drop_last()
    } else {
        line
    }
}

/// The lines of `text`, first to last. A line ends at a line feed, which is
/// not part of it, nor is a carriage return just before that line feed. What
/// follows the last line feed is a line of its own unless it is empty, and
/// it keeps a carriage return at its end.
pub open spec fn lines_of(text: Seq<char>) -> Seq<Seq<char>>
    decreases text.len(),
{
    let end = line_end(text);
    if text.len() == 0 {
        Seq::empty()
    } else if 0 <= end < text.len() {
        seq![without_cr(text.take(end))] + lines_of(text.skip(end + 1))
    } else {
        seq![text]
    }
}

/// The first line feed stands inside the text or at its end, and nothing
/// before it is a line feed.
pub proof fn lemma_line_end(text: Seq<char>)
    ensures
        0 <= line_end(text) <= text.len(),
        line_end(text) < text.len() ==> text[line_end(text)] == '\n',
        forall|i: int| 0 <= i < line_end(text) ==> text[i] != '\n',
    decreases text.len(),
{
    if text.len() == 0 || text[0] == '\n' {
    } else {
        let rest = text.drop_first();
        lemma_line_end(rest);
        assert forall|i: int| 0 <= i < line_end(text) implies text[i] != '\n' by {
            if i > 0 {
                assert(text[i] == rest[i - 1]);
            }
        }
    }
}

/// Where the first line feed stands among `bytes`; their number if there
/// is none.
fn first_line_feed(bytes: &[u8]) -> (at: usize)
    ensures
        at <= bytes@.len(),
        at < bytes@.len() ==> bytes@[at as int] == LINE_FEED,
        forall|j: int| 0 <= j < at ==> bytes@[j] != LINE_FEED,
{
    let mut at: usize = 0;
    while at < bytes.len() && bytes[at] != LINE_FEED
        invariant
            at <= bytes@.len(),
            forall|j: int| 0 <= j < at ==> bytes@[j] != LINE_FEED,
        decreases bytes@.len() - at,
    {
        at += 1;
    }
    at
}

/// The first line feed among the bytes of a text stands where the encoding
/// of its first line ends, and the text can be cut there and behind it.
proof fn lemma_first_line_feed(text: Seq<char>, at: int)
    requires
        0 <= at <= encode_utf8(text).len(),
        at < encode_utf8(text).len() ==> encode_utf8(text)[at] == LINE_FEED,
        forall|j: int| 0 <= j < at ==> encode_utf8(text)[j] != LINE_FEED,
    ensures
        0 <= line_end(text) <= text.len(),
        at < encode_utf8(text).len() <==> line_end(text) < text.len(),
        encode_utf8(text).subrange(0, at) =~= encode_utf8(text.take(line_end(text))),
        is_char_boundary(encode_utf8(text), at),
        at < encode_utf8(text).len() ==> {
            let behind = encode_utf8(text).subrange(at, encode_utf8(text).len() as int);
            &&& valid_utf8(behind)
            &&& is_char_boundary(behind, 1)
            &&& behind.subrange(1, behind.len() as int) =~= encode_utf8(
                text.skip(line_end(text) + 1),
            )
        },
{
    let bytes = encode_utf8(text);
    let end = line_end(text);
    lemma_line_end(text);
    let line = text.take(end);
    let tail = text.skip(end);
    assert(text =~= line + tail);
    lemma_encode_concat(line, tail);
    assert forall|i: int| 0 <= i < line.len() implies #[trigger] line[i] as u32
        != LINE_FEED as u32 by {
        assert(line[i] == text[i]);
        lemma_control_values(text[i]);
    }
    lemma_absent_byte(line, LINE_FEED);
    let before = encode_utf8(line);
    encode_utf8_valid_utf8(text);
    if end < text.len() {
        let feed = seq!['\n'];
        let rest = text.skip(end + 1);
        assert(tail =~= feed + rest);
        lemma_encode_concat(feed, rest);
        lemma_scalar_bytes('\n');
        assert(encode_utf8(feed) =~= encode_scalar('\n' as u32)) by {
            assert(feed.drop_first() =~= Seq::<char>::empty());
            reveal_with_fuel(encode_utf8, 2);
        }
        assert(bytes[before.len() as int] == LINE_FEED);
        if at < before.len() {
            assert(bytes[at] == before[at]);
        }
        assert(at == before.len());
        is_char_boundary_iff_not_is_continuation_byte(bytes, at);
        let behind = bytes.subrange(at, bytes.len() as int);
        assert(behind =~= encode_utf8(tail));
        encode_utf8_valid_utf8(tail);
        encode_utf8_first_scalar(tail);
        assert(pop_first_scalar(behind) =~= behind.subrange(1, behind.len() as int));
        assert(is_char_boundary(behind, 1)) by {
            reveal_with_fuel(is_char_boundary, 2);
        }
    } else {
        assert(tail =~= Seq::<char>::empty());
        assert(bytes =~= before);
        is_char_boundary_start_end_of_seq(bytes);
    }
}

/// The lines of `text`, each as a string of its own. A line ends at a line
/// feed; neither that nor a carriage return just before it is part of the
/// line. A text that ends in a line feed has no empty line after it.
pub fn text_lines(text: &str) -> (lines: Vec<String>)
    ensures
        texts(lines@) == lines_of(text@),
{
    let mut lines: Vec<String> = Vec::new();
    let mut rest: &str = text;
    while !rest.is_empty()
        invariant
            texts(lines@) + lines_of(rest@) =~= lines_of(text@),
        decreases rest@.len(),
    {
        let ghost before = texts(lines@);
        let bytes = rest.as_bytes();
        let end = first_line_feed(bytes);
        proof {
            lemma_first_line_feed(rest@, end as int);
        }
        let (head, behind) = rest.split_at(end);
        proof {
            lemma_encode_injective(head@, rest@.take(line_end(rest@)));
        }
        if end == bytes.len() {
            proof {
                assert(head@ =~= rest@);
                assert(lines_of(rest@) =~= seq![rest@]);
            }
            lines.push(head.to_owned());
            proof {
                assert(texts(lines@) =~= before + seq![rest@]);
            }
            return lines;
        }
        let line = if end > 0 && bytes[end - 1] == CARRIAGE_RETURN {
            proof {
                encode_utf8_valid_utf8(head@);
                is_char_boundary_iff_not_is_continuation_byte(head.spec_bytes(), end - 1);
                lemma_encode_empty(head@);
                lemma_last_byte(head@, CARRIAGE_RETURN);
            }
            let (front, _) = head.split_at(end - 1);
            proof {
                assert(head.spec_bytes().last() == bytes@[end - 1]);
                lemma_control_values(head@.last());
                assert(front.spec_bytes() =~= head.spec_bytes().drop_last());
                lemma_encode_injective(front@, head@.drop_last());
            }
            front
        } else {
            proof {
                lemma_encode_empty(head@);
                if head@.len() > 0 {
                    lemma_last_byte(head@, CARRIAGE_RETURN);
                    assert(head.spec_bytes().last() == bytes@[end - 1]);
                    lemma_control_values(head@.last());
                }
            }
            head
        };
        let (_, after) = behind.split_at(1);
        proof {
            lemma_encode_injective(after@, rest@.skip(line_end(rest@) + 1));
        }
        lines.push(line.to_owned());
        proof {
            assert(texts(lines@) =~= before + seq![line@]);
        }
        rest = after;
    }
    proof {
        assert(lines_of(rest@) =~= Seq::<Seq<char>>::empty());
    }
    lines
}

} // verus!
