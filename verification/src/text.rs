//! Characters, lines and whitespace-delimited tokens of a text.
//!
//! A text is modelled by the sequence of its characters. Lines end at a line
//! feed, optionally preceded by a carriage return; tokens are the maximal runs
//! of characters that are not Unicode whitespace.

use vstd::prelude::*;
use vstd::std_specs::iter::IteratorSpec;

verus! {

/// The views of a sequence of strings, element by element.
pub open spec fn views(strings: Seq<String>) -> Seq<Seq<char>> {
    Seq::new(strings.len(), |i: int| strings[i]@)
}

/// Whether `c` has the Unicode property White_Space.
pub open spec fn is_whitespace(c: char) -> bool {
    let u = c as u32;
    ||| 0x09 <= u <= 0x0D
    ||| u == 0x20
    ||| u == 0x85
    ||| u == 0xA0
    ||| u == 0x1680
    ||| 0x2000 <= u <= 0x200A
    ||| u == 0x2028
    ||| u == 0x2029
    ||| u == 0x202F
    ||| u == 0x205F
    ||| u == 0x3000
}

/// The number of characters of `s` before its first line feed, or the length
/// of `s` where it holds none.
pub open spec fn line_end(s: Seq<char>) -> int
    decreases s.len(),
{
    if s.len() == 0 || s[0] == '\n' {
        0
    } else {
        1 + line_end(s.drop_first())
    }
}

/// `s` without one trailing carriage return, if it has one.
pub open spec fn strip_cr(s: Seq<char>) -> Seq<char> {
    if s.len() > 0 && s.last() == '\r' {
        s.drop_last()
    } else {
        s
    }
}

/// The lines of `s`. Each line feed ends a line, and a carriage return just
/// before it belongs to the line ending. What follows the last line feed is
/// a line of its own unless it is empty, and keeps a trailing carriage return.
pub open spec fn lines_of(s: Seq<char>) -> Seq<Seq<char>>
    decreases s.len(),
{
    if s.len() == 0 {
        Seq::empty()
    } else {
        let n = line_end(s);
        if 0 <= n < s.len() {
            seq![strip_cr(s.take(n))] + lines_of(s.skip(n + 1))
        } else {
            seq![s]
        }
    }
}

/// The length of the run of non-whitespace characters that `s` begins with.
pub open spec fn token_end(s: Seq<char>) -> int
    decreases s.len(),
{
    if s.len() == 0 || is_whitespace(s[0]) {
        0
    } else {
        1 + token_end(s.drop_first())
    }
}

/// The whitespace-delimited tokens of `s`, in order: its maximal runs of
/// characters that are not whitespace. (Where `s` begins with such a
/// character its first run is never empty, so the last branch is never
/// taken: it is there for the recursion to be well founded.)
pub open spec fn tokens_of(s: Seq<char>) -> Seq<Seq<char>>
    decreases s.len(),
{
    if s.len() == 0 {
        Seq::empty()
    } else if is_whitespace(s[0]) {
        tokens_of(s.drop_first())
    } else {
        let n = token_end(s);
        if 0 < n <= s.len() {
            seq![s.take(n)] + tokens_of(s.skip(n))
        } else {
            Seq::empty()
        }
    }
}

/// `line_end` is the one position that no line feed precedes and that is
/// either a line feed or the end.
pub proof fn lemma_line_end(s: Seq<char>, n: int)
    requires
        0 <= n <= s.len(),
        forall|j: int| 0 <= j < n ==> s[j] != '\n',
        n < s.len() ==> s[n] == '\n',
    ensures
        line_end(s) == n,
    decreases n,
{
    if n > 0 {
        lemma_line_end(s.drop_first(), n - 1);
    }
}

/// `token_end` is the one position that no whitespace precedes and that is
/// either whitespace or the end.
pub proof fn lemma_token_end(s: Seq<char>, n: int)
    requires
        0 <= n <= s.len(),
        forall|j: int| 0 <= j < n ==> !is_whitespace(s[j]),
        n < s.len() ==> is_whitespace(s[n]),
    ensures
        token_end(s) == n,
    decreases n,
{
    if n > 0 {
        lemma_token_end(s.drop_first(), n - 1);
    }
}

/// `token_end` lies within `s`, no whitespace precedes it, and whitespace
/// stands at it unless it is the end. It is positive where `s` begins with
/// a character that is not whitespace.
pub proof fn lemma_token_end_bounds(s: Seq<char>)
    ensures
        0 <= token_end(s) <= s.len(),
        forall|j: int| 0 <= j < token_end(s) ==> !is_whitespace(#[trigger] s[j]),
        token_end(s) < s.len() ==> is_whitespace(s[token_end(s)]),
        s.len() > 0 && !is_whitespace(s[0]) ==> token_end(s) > 0,
    decreases s.len(),
{
    if s.len() > 0 && !is_whitespace(s[0]) {
        let rest = s.drop_first();
        lemma_token_end_bounds(rest);
        assert forall|j: int| 0 <= j < token_end(s) implies !is_whitespace(#[trigger] s[j]) by {
            if j > 0 {
                assert(s[j] == rest[j - 1]);
            }
        }
        assert(token_end(s) < s.len() ==> s[token_end(s)] == rest[token_end(rest)]);
    }
}

/// `line_end` lies within `s`, no line feed precedes it, and a line feed
/// stands at it unless it is the end.
pub proof fn lemma_line_end_bounds(s: Seq<char>)
    ensures
        0 <= line_end(s) <= s.len(),
        forall|j: int| 0 <= j < line_end(s) ==> #[trigger] s[j] != '\n',
        line_end(s) < s.len() ==> s[line_end(s)] == '\n',
    decreases s.len(),
{
    if s.len() > 0 && s[0] != '\n' {
        let rest = s.drop_first();
        lemma_line_end_bounds(rest);
        assert forall|j: int| 0 <= j < line_end(s) implies #[trigger] s[j] != '\n' by {
            if j > 0 {
                assert(s[j] == rest[j - 1]);
            }
        }
        assert(line_end(s) < s.len() ==> s[line_end(s)] == rest[line_end(rest)]);
    }
}

/// Every token holds a character, and none of its characters is whitespace.
pub proof fn lemma_tokens_hold_no_whitespace(s: Seq<char>)
    ensures
        forall|i: int, j: int|
            0 <= i < tokens_of(s).len() && 0 <= j < tokens_of(s)[i].len() ==> !is_whitespace(
                #[trigger] tokens_of(s)[i][j],
            ),
        forall|i: int| 0 <= i < tokens_of(s).len() ==> (#[trigger] tokens_of(s)[i]).len() > 0,
    decreases s.len(),
{
    if s.len() == 0 {
        assert(tokens_of(s).len() == 0);
    } else if is_whitespace(s[0]) {
        lemma_tokens_hold_no_whitespace(s.drop_first());
        assert(tokens_of(s) == tokens_of(s.drop_first()));
    } else {
        let n = token_end(s);
        lemma_token_end_bounds(s);
        lemma_tokens_hold_no_whitespace(s.skip(n));
        let rest = tokens_of(s.skip(n));
        assert(tokens_of(s) == seq![s.take(n)] + rest);
        assert forall|i: int| 0 <= i < tokens_of(s).len() implies (#[trigger] tokens_of(s)[i]).len()
            > 0 by {
            if i > 0 {
                assert(tokens_of(s)[i] == rest[i - 1]);
            }
        }
        assert forall|i: int, j: int|
            0 <= i < tokens_of(s).len() && 0 <= j < tokens_of(s)[i].len() implies !is_whitespace(
            #[trigger] tokens_of(s)[i][j],
        ) by {
            if i > 0 {
                assert(tokens_of(s)[i] == rest[i - 1]);
            } else {
                assert(tokens_of(s)[0][j] == s[j]);
            }
        }
    }
}

/// No line holds a line feed.
pub proof fn lemma_lines_hold_no_line_feed(s: Seq<char>)
    ensures
        forall|i: int, j: int|
            0 <= i < lines_of(s).len() && 0 <= j < lines_of(s)[i].len() ==> #[trigger] lines_of(
                s,
            )[i][j] != '\n',
    decreases s.len(),
{
    if s.len() > 0 {
        let n = line_end(s);
        lemma_line_end_bounds(s);
        if n < s.len() {
            lemma_lines_hold_no_line_feed(s.skip(n + 1));
            let rest = lines_of(s.skip(n + 1));
            let head = strip_cr(s.take(n));
            assert(lines_of(s) == seq![head] + rest);
            assert forall|i: int, j: int|
                0 <= i < lines_of(s).len() && 0 <= j < lines_of(s)[i].len() implies #[trigger] lines_of(
                s,
            )[i][j] != '\n' by {
                if i > 0 {
                    assert(lines_of(s)[i] == rest[i - 1]);
                } else {
                    assert(head[j] == s[j]);
                }
            }
        } else {
            assert(lines_of(s) == seq![s]);
        }
    }
}

/// Whether `c` is whitespace.
pub fn is_whitespace_char(c: char) -> (b: bool)
    ensures
        b == is_whitespace(c),
{
    let u: u32 = c as u32;
    (0x09 <= u && u <= 0x0D) || u == 0x20 || u == 0x85 || u == 0xA0 || u == 0x1680 || (0x2000 <= u
        && u <= 0x200A) || u == 0x2028 || u == 0x2029 || u == 0x202F || u == 0x205F || u == 0x3000
}

/// The characters of `text`, in order.
pub fn chars_of(text: &str) -> (chars: Vec<char>)
    ensures
        chars@ == text@,
{
    let mut chars: Vec<char> = Vec::new();
    let mut it = text.chars();
    loop
        invariant
            chars@ + it.remaining() == text@,
            it.obeys_prophetic_iter_laws(),
            it.decrease() is Some,
        ensures
            chars@ == text@,
        decreases it.decrease()->0,
    {
        match it.next() {
            Some(c) => {
                chars.push(c);
            },
            None => {
                assert(chars@ + it.remaining() =~= chars@);
                break;
            },
        }
    }
    chars
}

/// The position of the first line feed of `chars` at or after `start`, or the
/// length of `chars` where none follows.
fn find_line_end(chars: &Vec<char>, start: usize) -> (end: usize)
    requires
        start <= chars@.len(),
    ensures
        start <= end <= chars@.len(),
        end - start == line_end(chars@.skip(start as int)),
{
    let mut end: usize = start;
    while end < chars.len() && chars[end] != '\n'
        invariant
            start <= end <= chars@.len(),
            forall|j: int| start <= j < end ==> chars@[j] != '\n',
        decreases chars@.len() - end,
    {
        end += 1;
    }
    proof {
        lemma_line_end(chars@.skip(start as int), end - start);
    }
    end
}

/// The position of the first whitespace character of `chars` at or after
/// `start`, or the length of `chars` where none follows.
fn find_token_end(chars: &Vec<char>, start: usize) -> (end: usize)
    requires
        start <= chars@.len(),
    ensures
        start <= end <= chars@.len(),
        end - start == token_end(chars@.skip(start as int)),
{
    let mut end: usize = start;
    while end < chars.len() && !is_whitespace_char(chars[end])
        invariant
            start <= end <= chars@.len(),
            forall|j: int| start <= j < end ==> !is_whitespace(chars@[j]),
        decreases chars@.len() - end,
    {
        end += 1;
    }
    proof {
        lemma_token_end(chars@.skip(start as int), end - start);
    }
    end
}

/// The lines of `text`, in order, without their line endings.
pub fn split_lines(text: &str) -> (lines: Vec<String>)
    ensures
        views(lines@) == lines_of(text@),
{
    let chars = chars_of(text);
    let mut lines: Vec<String> = Vec::new();
    let mut start: usize = 0;
    proof {
        assert(text@.skip(0) =~= text@);
        assert(views(lines@) + lines_of(text@) =~= lines_of(text@));
    }
    while start < chars.len()
        invariant
            chars@ == text@,
            start <= chars@.len(),
            views(lines@) + lines_of(text@.skip(start as int)) == lines_of(text@),
        decreases chars@.len() - start,
    {
        let end = find_line_end(&chars, start);
        let ghost rest = text@.skip(start as int);
        let ghost done = views(lines@);
        if end < chars.len() {
            let stop = if end > start && chars[end - 1] == '\r' {
                end - 1
            } else {
                end
            };
            lines.push(String::from_str(text.substring_char(start, stop)));
            proof {
                let n = end - start;
                assert(rest.take(n) =~= text@.subrange(start as int, end as int));
                assert(strip_cr(rest.take(n)) =~= text@.subrange(start as int, stop as int));
                assert(rest.skip(n + 1) =~= text@.skip(end + 1));
                assert(views(lines@) =~= done + seq![strip_cr(rest.take(n))]);
                assert(views(lines@) + lines_of(text@.skip(end + 1)) =~= done + lines_of(rest));
            }
            start = end + 1;
        } else {
            lines.push(String::from_str(text.substring_char(start, end)));
            proof {
                assert(rest =~= text@.subrange(start as int, end as int));
                assert(text@.skip(end as int).len() == 0);
                assert(views(lines@) =~= done + seq![rest]);
                assert(views(lines@) + lines_of(text@.skip(end as int)) =~= done + lines_of(rest));
            }
            start = end;
        }
    }
    proof {
        assert(views(lines@) + lines_of(text@.skip(start as int)) =~= views(lines@));
    }
    lines
}

/// The whitespace-delimited tokens of `text`, in order.
pub fn split_tokens(text: &str) -> (tokens: Vec<String>)
    ensures
        views(tokens@) == tokens_of(text@),
{
    let chars = chars_of(text);
    let mut tokens: Vec<String> = Vec::new();
    let mut start: usize = 0;
    proof {
        assert(text@.skip(0) =~= text@);
        assert(views(tokens@) + tokens_of(text@) =~= tokens_of(text@));
    }
    while start < chars.len()
        invariant
            chars@ == text@,
            start <= chars@.len(),
            views(tokens@) + tokens_of(text@.skip(start as int)) == tokens_of(text@),
        decreases chars@.len() - start,
    {
        let ghost rest = text@.skip(start as int);
        let ghost done = views(tokens@);
        if is_whitespace_char(chars[start]) {
            proof {
                assert(rest.drop_first() =~= text@.skip(start + 1));
            }
            start += 1;
        } else {
            let end = find_token_end(&chars, start);
            tokens.push(String::from_str(text.substring_char(start, end)));
            proof {
                let n = end - start;
                lemma_token_end_bounds(rest);
                assert(rest.take(n) =~= text@.subrange(start as int, end as int));
                assert(rest.skip(n) =~= text@.skip(end as int));
                assert(views(tokens@) =~= done + seq![rest.take(n)]);
                assert(views(tokens@) + tokens_of(text@.skip(end as int)) =~= done + tokens_of(
                    rest,
                ));
            }
            start = end;
        }
    }
    proof {
        assert(views(tokens@) + tokens_of(text@.skip(start as int)) =~= views(tokens@));
    }
    tokens
}

} // verus!
