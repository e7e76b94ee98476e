use vstd::prelude::*;
use vstd::string::*;
use vstd::utf8::*;

verus! {

broadcast use vstd::utf8::encode_utf8_valid_utf8, vstd::utf8::encode_utf8_decode_utf8;

/// The byte of a line feed.
pub const LINE_FEED: u8 = 10;

/// The byte of a carriage return.
pub const CARRIAGE_RETURN: u8 = 13;

/// The index of the first line feed in `b`, or `b.len()` when there is none.
pub open spec fn first_line_feed(b: Seq<u8>) -> int
    decreases b.len(),
{
    if b.len() == 0 {
        0
    } else if b[0] == LINE_FEED {
        0
    } else {
        1 + first_line_feed(b.drop_first())
    }
}

/// A line without the carriage return that ends it, if any.
pub open spec fn trim_cr(line: Seq<u8>) -> Seq<u8> {
    if line.len() > 0 && line.last() == CARRIAGE_RETURN {
        line.drop_last()
    } else {
        line
    }
}

/// The lines of the UTF-8 text `b`: the pieces between line feeds, each
/// without a trailing carriage return. A final line feed ends the last line
/// and opens no new one; a last line without a line feed is kept.
pub open spec fn split_lines(b: Seq<u8>) -> Seq<Seq<u8>>
    decreases b.len(),
{
    if b.len() == 0 {
        seq![]
    } else {
        let n = first_line_feed(b);
        if 0 <= n < b.len() {
            seq![trim_cr(b.subrange(0, n))] + split_lines(b.subrange(n + 1, b.len() as int))
        } else {
            seq![trim_cr(b)]
        }
    }
}

/// The lines of a text, as byte sequences.
pub open spec fn text_lines(text: Seq<char>) -> Seq<Seq<u8>> {
    split_lines(encode_utf8(text))
}

proof fn lemma_first_line_feed(b: Seq<u8>, n: int)
    requires
        0 <= n <= b.len(),
        forall|j: int| 0 <= j < n ==> b[j] != LINE_FEED,
        n < b.len() ==> b[n] == LINE_FEED,
    ensures
        first_line_feed(b) == n,
    decreases b.len(),
{
    if b.len() > 0 && b[0] != LINE_FEED {
        lemma_first_line_feed(b.drop_first(), n - 1);
    }
}

/// The index of the first line feed in `bytes`, or its length.
fn find_line_feed(bytes: &[u8]) -> (n: usize)
    ensures
        n == first_line_feed(bytes@),
        n <= bytes@.len(),
        forall|j: int| 0 <= j < n ==> bytes@[j] != LINE_FEED,
        n < bytes@.len() ==> bytes@[n as int] == LINE_FEED,
{
    let mut i: usize = 0;
    while i < bytes.len() && bytes[i] != LINE_FEED
        invariant
            i <= bytes@.len(),
            forall|j: int| 0 <= j < i ==> bytes@[j] != LINE_FEED,
        decreases bytes@.len() - i,
    {
        i = i + 1;
    }
    proof {
        lemma_first_line_feed(bytes@, i as int);
    }
    i
}

/// Splits off the first line of a non-empty text: returns the line, without
/// its line feed and trailing carriage return, and the text after it.
pub(crate) fn next_line(text: &str) -> (r: (&str, &str))
    requires
        text.spec_bytes().len() > 0,
    ensures
        split_lines(text.spec_bytes()) =~= seq![r.0.spec_bytes()] + split_lines(r.1.spec_bytes()),
        r.1.spec_bytes().len() < text.spec_bytes().len(),
{
    let ghost b = text.spec_bytes();
    proof {
        encode_utf8_valid_utf8(text@);
    }
    let bytes = text.as_bytes();
    let n = find_line_feed(bytes);
    let (line, rest) = if n < bytes.len() {
        proof {
            is_char_boundary_iff_not_is_continuation_byte(b, n as int);
        }
        let (line, tail) = text.split_at(n);
        let ghost t = tail.spec_bytes();
        proof {
            assert(t[0] == LINE_FEED);
            reveal_with_fuel(is_char_boundary, 2);
            assert(is_char_boundary(t, 1));
        }
        let (_, rest) = tail.split_at(1);
        proof {
            assert(rest.spec_bytes() =~= b.subrange(n + 1, b.len() as int));
        }
        (line, rest)
    } else {
        proof {
            is_char_boundary_start_end_of_seq(b);
        }
        let (line, rest) = text.split_at(n);
        proof {
            assert(line.spec_bytes() =~= b);
            assert(rest.spec_bytes() =~= Seq::<u8>::empty());
        }
        (line, rest)
    };
    let ghost l = line.spec_bytes();
    let line_bytes = line.as_bytes();
    let k = line_bytes.len();
    if k > 0 && line_bytes[k - 1] == CARRIAGE_RETURN {
        proof {
            is_char_boundary_iff_not_is_continuation_byte(l, k - 1);
        }
        let (trimmed, _) = line.split_at(k - 1);
        proof {
            assert(trimmed.spec_bytes() =~= trim_cr(l));
        }
        (trimmed, rest)
    } else {
        (line, rest)
    }
}

} // verus!
