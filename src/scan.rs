use vstd::prelude::*;
use vstd::string::*;
use vstd::utf8::*;

use crate::lines::{next_line, split_lines, text_lines};
use crate::pattern::{leftmost_match, Pattern};

verus! {

broadcast use vstd::utf8::encode_utf8_valid_utf8, vstd::utf8::encode_utf8_decode_utf8;

/// What a match record says, as mathematical values.
pub ghost struct Hit {
    pub line_number: int,
    pub byte_offset: int,
    pub prefix: Seq<char>,
    pub matched_text: Seq<char>,
    pub suffix: Seq<char>,
}

/// One line with a match: its 1-based number, the byte offset of the first
/// match in it, and the line cut at the two ends of that match.
#[derive(Debug, Clone, PartialEq, Eq)]
pub struct MatchRecord {
    pub line_number: usize,
    pub byte_offset: usize,
    pub prefix: String,
    pub matched_text: String,
    pub suffix: String,
}

impl View for MatchRecord {
    type V = Hit;

    open spec fn view(&self) -> Hit {
        Hit {
            line_number: self.line_number as int,
            byte_offset: self.byte_offset as int,
            prefix: self.prefix@,
            matched_text: self.matched_text@,
            suffix: self.suffix@,
        }
    }
}

/// The record for line number `number`, whose bytes are `line`, if the
/// pattern matches in it.
pub open spec fn line_hit(pattern: Seq<char>, line: Seq<u8>, number: int) -> Option<Hit> {
    match leftmost_match(pattern, line) {
        Some((s, e)) => Some(
            Hit {
                line_number: number,
                byte_offset: s as int,
                prefix: decode_utf8(line.subrange(0, s as int)),
                matched_text: decode_utf8(line.subrange(s as int, e as int)),
                suffix: decode_utf8(line.subrange(e as int, line.len() as int)),
            },
        ),
        None => None,
    }
}

/// Lines in none of which the pattern matches give no record.
proof fn lemma_no_match_no_hits(pattern: Seq<char>, lines: Seq<Seq<u8>>)
    requires
        forall|k: int| 0 <= k < lines.len() ==> #[trigger] leftmost_match(pattern, lines[k]) is None,
    ensures
        hits(pattern, lines).len() == 0,
    decreases lines.len(),
{
    if lines.len() > 0 {
        let earlier = lines.drop_last();
        assert forall|k: int| 0 <= k < earlier.len() implies #[trigger] leftmost_match(
            pattern,
            earlier[k],
        ) is None by {
            assert(earlier[k] == lines[k]);
        }
        assert(leftmost_match(pattern, lines[lines.len() - 1]) is None);
        lemma_no_match_no_hits(pattern, earlier);
    }
}

/// The records of a sequence of lines, numbered from 1, in line order.
pub open spec fn hits(pattern: Seq<char>, lines: Seq<Seq<u8>>) -> Seq<Hit>
    decreases lines.len(),
{
    if lines.len() == 0 {
        seq![]
    } else {
        let earlier = hits(pattern, lines.drop_last());
        match line_hit(pattern, lines.last(), lines.len() as int) {
            Some(h) => earlier.push(h),
            None => earlier,
        }
    }
}

/// `r` is what scanning `text` with `pattern` gives.
pub open spec fn scan_result(text: Seq<char>, pattern: Seq<char>, r: Seq<MatchRecord>) -> bool {
    r.map_values(|m: MatchRecord| m@) == hits(pattern, text_lines(text))
}

/// Every record names a line of `text` and cuts it into a prefix, the
/// matched text and a suffix that rejoin to that line exactly.
pub open spec fn records_rejoin(text: Seq<char>, r: Seq<MatchRecord>) -> bool {
    forall|i: int|
        0 <= i < r.len() ==> 1 <= #[trigger] r[i].line_number <= text_lines(text).len()
            && r[i].prefix@ + r[i].matched_text@ + r[i].suffix@ == decode_utf8(
            text_lines(text)[r[i].line_number - 1],
        )
}

/// The records' line numbers strictly increase.
pub open spec fn numbers_increase(r: Seq<MatchRecord>) -> bool {
    forall|i: int, j: int| 0 <= i < j < r.len() ==> #[trigger] r[i].line_number < #[trigger] r[j].line_number
}

/// A text in none of whose lines the pattern matches gives no record.
pub proof fn no_match_gives_no_records(text: Seq<char>, pattern: Seq<char>, r: Seq<MatchRecord>)
    requires
        scan_result(text, pattern, r),
        forall|k: int|
            0 <= k < text_lines(text).len() ==> #[trigger] leftmost_match(
                pattern,
                text_lines(text)[k],
            ) is None,
    ensures
        r.len() == 0,
{
    lemma_no_match_no_hits(pattern, text_lines(text));
    assert(r.map_values(|m: MatchRecord| m@).len() == 0);
}

/// An empty text gives no record, whatever the pattern.
pub proof fn empty_text_gives_no_records(text: Seq<char>, pattern: Seq<char>, r: Seq<MatchRecord>)
    requires
        scan_result(text, pattern, r),
        text.len() == 0,
    ensures
        r.len() == 0,
{
    assert(encode_utf8(text) =~= Seq::<u8>::empty());
    assert(r.map_values(|m: MatchRecord| m@).len() == 0);
}

/// Scanning depends on the text and the pattern alone: two scans of the
/// same text with the same pattern give equal record sequences.
pub proof fn scan_is_idempotent(
    text: Seq<char>,
    pattern: Seq<char>,
    first: Seq<MatchRecord>,
    second: Seq<MatchRecord>,
)
    requires
        scan_result(text, pattern, first),
        scan_result(text, pattern, second),
    ensures
        first.len() == second.len(),
        forall|i: int| 0 <= i < first.len() ==> #[trigger] first[i]@ == second[i]@,
{
    let f = first.map_values(|m: MatchRecord| m@);
    let g = second.map_values(|m: MatchRecord| m@);
    assert(f == g);
    assert(f.len() == first.len() && g.len() == second.len());
    assert forall|i: int| 0 <= i < first.len() implies #[trigger] first[i]@ == second[i]@ by {
        assert(f[i] == first[i]@);
        assert(g[i] == second[i]@);
    }
}

/// Scans `text` line by line and records the first match of `pattern` in
/// each line that has one.
pub fn scan(text: &str, pattern: &Pattern) -> (r: Vec<MatchRecord>)
    ensures
        scan_result(text@, pattern@, r@),
        records_rejoin(text@, r@),
        numbers_increase(r@),
        forall|i: int, j: int|
            0 <= i < r@.len() && 0 <= j < r@.len() && i != j ==> #[trigger] r@[i].line_number
                != #[trigger] r@[j].line_number,
        text@.len() == 0 ==> r@.len() == 0,
        (forall|k: int|
            0 <= k < text_lines(text@).len() ==> #[trigger] leftmost_match(
                pattern@,
                text_lines(text@)[k],
            ) is None) ==> r@.len() == 0,
{
    let ghost all = text_lines(text@);
    let total = text.as_bytes().len();
    let mut out: Vec<MatchRecord> = Vec::new();
    let mut rest: &str = text;
    let ghost mut done: Seq<Seq<u8>> = seq![];
    let mut number: usize = 0;
    while rest.as_bytes().len() > 0
        invariant
            all == done + split_lines(rest.spec_bytes()),
            number == done.len(),
            total == text.spec_bytes().len(),
            number <= text.spec_bytes().len() - rest.spec_bytes().len(),
            out@.map_values(|m: MatchRecord| m@) == hits(pattern@, done),
            forall|i: int|
                0 <= i < out@.len() ==> 1 <= #[trigger] out@[i].line_number <= number
                    && out@[i].prefix@ + out@[i].matched_text@ + out@[i].suffix@ == decode_utf8(
                    done[out@[i].line_number - 1],
                ),
            forall|i: int, j: int|
                0 <= i < j < out@.len() ==> #[trigger] out@[i].line_number
                    < #[trigger] out@[j].line_number,
        decreases rest.spec_bytes().len(),
    {
        let (line, tail) = next_line(rest);
        let ghost lb = line.spec_bytes();
        let ghost before = out@;
        let ghost earlier = done;
        number = number + 1;
        proof {
            done = done.push(lb);
            assert(done.drop_last() =~= earlier);
        }
        match pattern.find_span(line) {
            Some((s, e)) => {
                let (prefix, after) = line.split_at(s);
                proof {
                    let ab = after.spec_bytes();
                    assert(ab =~= lb.subrange(s as int, lb.len() as int));
                    if e < lb.len() {
                        is_char_boundary_iff_not_is_continuation_byte(lb, e as int);
                        is_char_boundary_iff_not_is_continuation_byte(ab, e - s);
                    } else {
                        is_char_boundary_start_end_of_seq(ab);
                    }
                }
                let (matched, suffix) = after.split_at(e - s);
                let record = MatchRecord {
                    line_number: number,
                    byte_offset: s,
                    prefix: prefix.to_owned(),
                    matched_text: matched.to_owned(),
                    suffix: suffix.to_owned(),
                };
                proof {
                    let ab = after.spec_bytes();
                    decode_utf8_split(lb, s as int);
                    decode_utf8_split(ab, (e - s) as int);
                    assert(ab.subrange(0, e - s) =~= lb.subrange(s as int, e as int));
                    assert(ab.subrange(e - s, ab.len() as int) =~= lb.subrange(e as int, lb.len() as int));
                    assert(record@ == line_hit(pattern@, lb, number as int)->0);
                }
                out.push(record);
            },
            None => {},
        }
        proof {
            assert(out@.map_values(|m: MatchRecord| m@) =~= hits(pattern@, done)) by {
                if out@.len() > before.len() {
                    assert(out@ =~= before.push(out@.last()));
                    assert(out@.map_values(|m: MatchRecord| m@) =~= before.map_values(
                        |m: MatchRecord| m@,
                    ).push(out@.last()@));
                } else {
                    assert(out@ =~= before);
                }
            }
            assert(all =~= done + split_lines(tail.spec_bytes()));
        }
        rest = tail;
    }
    proof {
        assert(done =~= all);
        if forall|k: int|
            0 <= k < all.len() ==> #[trigger] leftmost_match(pattern@, all[k]) is None {
            lemma_no_match_no_hits(pattern@, all);
            assert(out@.map_values(|m: MatchRecord| m@).len() == 0);
        }
    }
    out
}

} // verus!
