use rgrep::{compile, scan, GrepError, MatchRecord, Pattern};

fn pattern(p: &str) -> Pattern {
    match compile(p) {
        Ok(p) => p,
        Err(e) => panic!("pattern {:?} should compile: {:?}", p, e),
    }
}

fn record(line: usize, offset: usize, prefix: &str, matched: &str, suffix: &str) -> MatchRecord {
    MatchRecord {
        line_number: line,
        byte_offset: offset,
        prefix: prefix.to_string(),
        matched_text: matched.to_string(),
        suffix: suffix.to_string(),
    }
}

#[test]
fn match_on_second_line() {
    let r = scan("hello\nworld\n", &pattern("wor"));
    assert_eq!(r, vec![record(2, 0, "", "wor", "ld")]);
}

#[test]
fn match_on_every_line() {
    let r = scan("abc\nabc\n", &pattern("b"));
    assert_eq!(r, vec![record(1, 1, "a", "b", "c"), record(2, 1, "a", "b", "c")]);
}

#[test]
fn first_match_only() {
    let r = scan("foo bar baz\n", &pattern("ba."));
    assert_eq!(r, vec![record(1, 4, "foo ", "bar", " baz")]);
}

#[test]
fn invalid_pattern_is_rejected() {
    match compile("(abc") {
        Err(GrepError::InvalidPattern { pattern, reason }) => {
            assert_eq!(pattern, "(abc");
            assert!(!reason.is_empty());
        }
        Err(e) => panic!("unexpected error {:?}", e),
        Ok(_) => panic!("an unbalanced group must not compile"),
    }
}

#[test]
fn empty_match_at_line_start() {
    let r = scan("abc", &pattern("x*"));
    assert_eq!(r, vec![record(1, 0, "", "", "abc")]);
}

#[test]
fn empty_match_on_every_line() {
    let r = scan("ab\n\ncd\n", &pattern("x*"));
    assert_eq!(
        r,
        vec![record(1, 0, "", "", "ab"), record(2, 0, "", "", ""), record(3, 0, "", "", "cd")]
    );
}

#[test]
fn empty_text_gives_nothing() {
    assert!(scan("", &pattern("a")).is_empty());
    assert!(scan("", &pattern("x*")).is_empty());
}

#[test]
fn no_match_gives_nothing() {
    assert!(scan("alpha\nbeta\ngamma", &pattern("z+")).is_empty());
}

#[test]
fn scanning_twice_gives_the_same_records() {
    let p = pattern("[a-c]+");
    let text = "xxabc\nnothing\n\ncab\r\nzz";
    assert_eq!(scan(text, &p), scan(text, &p));
}

#[test]
fn slices_rejoin_to_the_line() {
    let text = "one two\nthree four five\nsixty";
    let lines: Vec<&str> = text.split('\n').collect();
    let r = scan(text, &pattern("[ot][a-z]+"));
    assert_eq!(r.len(), 3);
    for m in &r {
        let joined = format!("{}{}{}", m.prefix, m.matched_text, m.suffix);
        assert_eq!(joined, lines[m.line_number - 1]);
        assert_eq!(m.prefix.len(), m.byte_offset);
    }
}

#[test]
fn line_numbers_increase() {
    let r = scan("a\nb\na\nb\na\n", &pattern("a"));
    let numbers: Vec<usize> = r.iter().map(|m| m.line_number).collect();
    assert_eq!(numbers, vec![1, 3, 5]);
}

#[test]
fn last_line_without_line_feed_is_kept() {
    let r = scan("x\ny", &pattern("y"));
    assert_eq!(r, vec![record(2, 0, "", "y", "")]);
}

#[test]
fn carriage_return_ends_a_line() {
    let r = scan("ab\r\ncd\r\n", &pattern("b$|d$"));
    assert_eq!(r, vec![record(1, 1, "a", "b", ""), record(2, 1, "c", "d", "")]);
}

#[test]
fn matches_never_cross_lines() {
    assert!(scan("ab\ncd\n", &pattern("b.c")).is_empty());
}

#[test]
fn offsets_count_bytes() {
    let r = scan("αβγ\nδ", &pattern("β"));
    assert_eq!(r, vec![record(1, 2, "α", "β", "γ")]);
}

#[test]
fn anchored_pattern() {
    let r = scan("cat\nconcat\n", &pattern("^cat"));
    assert_eq!(r, vec![record(1, 0, "", "cat", "")]);
}

#[test]
fn compiled_pattern_keeps_its_text() {
    assert_eq!(pattern("a+b").as_str(), "a+b");
}
