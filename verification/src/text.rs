//! Source text: lines, whitespace-separated tokens and comments.

use vstd::prelude::*;

verus! {

/// The characters that separate tokens: every Unicode white space character.
pub open spec fn is_space(c: char) -> bool {
    let code = c as u32;
    ||| 0x09 <= code <= 0x0D
    ||| code == 0x20
    ||| code == 0x85
    ||| code == 0xA0
    ||| code == 0x1680
    ||| 0x2000 <= code <= 0x200A
    ||| code == 0x2028
    ||| code == 0x2029
    ||| code == 0x202F
    ||| code == 0x205F
    ||| code == 0x3000
}

/// The end of the line that holds position `from`: the position of the first
/// line feed at or after `from`, or the end of the text.
pub open spec fn line_end(text: Seq<char>, from: int) -> int
    decreases text.len() - from,
{
    if from >= text.len() || text[from] == '\n' {
        from
    } else {
        line_end(text, from + 1)
    }
}

/// The lines of the text from position `from` on. Lines are separated by line
/// feeds; the text after the last line feed is a line too, even when empty.
pub open spec fn lines_from(text: Seq<char>, from: int) -> Seq<Seq<char>>
    decreases text.len() - from,
{
    if from < 0 || from > text.len() {
        Seq::empty()
    } else {
        let end = line_end(text, from);
        if end >= text.len() {
            seq![text.subrange(from, text.len() as int)]
        } else {
            proof {
                lemma_line_end_bounds(text, from);
            }
            seq![text.subrange(from, end)] + lines_from(text, end + 1)
        }
    }
}

/// The lines of a text, in order.
pub open spec fn lines_model(text: Seq<char>) -> Seq<Seq<char>> {
    lines_from(text, 0)
}

/// The first position at or after `from` that holds no white space, or the
/// end of the line.
pub open spec fn token_start(line: Seq<char>, from: int) -> int
    decreases line.len() - from,
{
    if from >= line.len() || !is_space(line[from]) {
        from
    } else {
        token_start(line, from + 1)
    }
}

/// The first position at or after `from` that holds white space, or the end
/// of the line.
pub open spec fn token_end(line: Seq<char>, from: int) -> int
    decreases line.len() - from,
{
    if from >= line.len() || is_space(line[from]) {
        from
    } else {
        token_end(line, from + 1)
    }
}

/// A token opens a comment when it begins with two slashes.
pub open spec fn opens_comment(token: Seq<char>) -> bool {
    token.len() >= 2 && token[0] == '/' && token[1] == '/'
}

/// The tokens of a line from position `from` on: the maximal runs of
/// characters that are no white space, up to the first token that opens a
/// comment. That token and everything after it is dropped.
pub open spec fn tokens_from(line: Seq<char>, from: int) -> Seq<Seq<char>>
    decreases line.len() - from,
{
    if from < 0 || from >= line.len() {
        Seq::empty()
    } else {
        let start = token_start(line, from);
        let end = token_end(line, start);
        let token = line.subrange(start, end);
        if start >= line.len() || opens_comment(token) {
            Seq::empty()
        } else {
            proof {
                lemma_token_start_bounds(line, from);
                lemma_token_end_bounds(line, start);
            }
            seq![token] + tokens_from(line, end)
        }
    }
}

/// The tokens of a line, in order, without its comment.
pub open spec fn tokens_model(line: Seq<char>) -> Seq<Seq<char>> {
    tokens_from(line, 0)
}

/// The texts a vector of strings holds, in order.
pub open spec fn texts(strings: Seq<String>) -> Seq<Seq<char>> {
    strings.map_values(|s: String| s@)
}

/// Tests whether a character separates tokens.
pub fn is_space_char(c: char) -> (r: bool)
    ensures
        r == is_space(c),
{
    let code: u32 = c as u32;
    (0x09 <= code && code <= 0x0D) || code == 0x20 || code == 0x85 || code == 0xA0 || code
        == 0x1680 || (0x2000 <= code && code <= 0x200A) || code == 0x2028 || code == 0x2029
        || code == 0x202F || code == 0x205F || code == 0x3000
}

/// The characters of a text, in order.
pub fn chars_of(text: &str) -> (r: Vec<char>)
    ensures
        r@ == text@,
{
    let mut out: Vec<char> = Vec::new();
    for c in it: text.chars()
        invariant
            it.seq() == text@,
            out@.len() == it.index(),
            forall|j: int| 0 <= j < out@.len() ==> out@[j] == it.seq()[j],
    {
        out.push(c);
    }
    assert(out@ =~= text@);
    out
}

/// A line ends at or after the position it is entered at, within the text.
pub proof fn lemma_line_end_bounds(text: Seq<char>, from: int)
    requires
        0 <= from <= text.len(),
    ensures
        from <= line_end(text, from) <= text.len(),
    decreases text.len() - from,
{
    if from < text.len() && text[from] != '\n' {
        lemma_line_end_bounds(text, from + 1);
    }
}

/// Skipping white space moves forward and stays within the line.
pub proof fn lemma_token_start_bounds(line: Seq<char>, from: int)
    requires
        0 <= from <= line.len(),
    ensures
        from <= token_start(line, from) <= line.len(),
        token_start(line, from) < line.len() ==> !is_space(line[token_start(line, from)]),
    decreases line.len() - from,
{
    if from < line.len() && is_space(line[from]) {
        lemma_token_start_bounds(line, from + 1);
    }
}

/// A token ends within the line, and past its first character when it has one.
pub proof fn lemma_token_end_bounds(line: Seq<char>, from: int)
    requires
        0 <= from <= line.len(),
    ensures
        from <= token_end(line, from) <= line.len(),
        from < line.len() && !is_space(line[from]) ==> from < token_end(line, from),
    decreases line.len() - from,
{
    if from < line.len() && !is_space(line[from]) {
        lemma_token_end_bounds(line, from + 1);
    }
}

/// Splits a text into its lines.
pub fn split_lines(text: &str) -> (lines: Vec<String>)
    ensures
        texts(lines@) == lines_model(text@),
        lines@.len() >= 1,
{
    let chars = chars_of(text);
    let total: usize = chars.len();
    let mut lines: Vec<String> = Vec::new();
    let mut start: usize = 0;
    let mut done = false;
    while !done
        invariant
            chars@ == text@,
            total == chars@.len(),
            start <= total,
            !done ==> lines_model(text@) == texts(lines@) + lines_from(text@, start as int),
            done ==> lines_model(text@) == texts(lines@),
            done ==> lines@.len() >= 1,
        decreases total - start + (if done { 0int } else { 1int }),
    {
        let mut end: usize = start;
        while end < total && chars[end] != '\n'
            invariant
                chars@ == text@,
                total == chars@.len(),
                start <= end <= total,
                line_end(text@, start as int) == line_end(text@, end as int),
            decreases total - end,
        {
            end += 1;
        }
        let line = String::from_str(text.substring_char(start, end));
        let ghost before = texts(lines@);
        lines.push(line);
        proof {
            assert(texts(lines@) =~= before.push(text@.subrange(start as int, end as int)));
            if end >= total {
                assert(lines_from(text@, start as int) =~= seq![
                    text@.subrange(start as int, total as int),
                ]);
                assert(before + lines_from(text@, start as int) =~= texts(lines@));
            } else {
                assert(lines_from(text@, start as int) =~= seq![
                    text@.subrange(start as int, end as int),
                ] + lines_from(text@, end + 1));
                assert(before + lines_from(text@, start as int) =~= texts(lines@) + lines_from(
                    text@,
                    end + 1,
                ));
            }
        }
        if end >= total {
            done = true;
        } else {
            start = end + 1;
        }
    }
    lines
}

/// Splits a line into its tokens, dropping its comment.
pub fn tokenize(line: &str) -> (tokens: Vec<String>)
    ensures
        texts(tokens@) == tokens_model(line@),
{
    let chars = chars_of(line);
    let total: usize = chars.len();
    let mut tokens: Vec<String> = Vec::new();
    let mut at: usize = 0;
    let mut done = false;
    while !done
        invariant
            chars@ == line@,
            total == chars@.len(),
            at <= total,
            !done ==> tokens_model(line@) == texts(tokens@) + tokens_from(line@, at as int),
            done ==> tokens_model(line@) == texts(tokens@),
        decreases total - at + (if done { 0int } else { 1int }),
    {
        let mut start: usize = at;
        while start < total && is_space_char(chars[start])
            invariant
                chars@ == line@,
                total == chars@.len(),
                at <= start <= total,
                token_start(line@, at as int) == token_start(line@, start as int),
            decreases total - start,
        {
            start += 1;
        }
        if start >= total {
            proof {
                assert(tokens_from(line@, at as int) =~= Seq::<Seq<char>>::empty());
                assert(texts(tokens@) + tokens_from(line@, at as int) =~= texts(tokens@));
            }
            done = true;
        } else {
            let mut end: usize = start;
            while end < total && !is_space_char(chars[end])
                invariant
                    chars@ == line@,
                    total == chars@.len(),
                    start <= end <= total,
                    token_end(line@, start as int) == token_end(line@, end as int),
                decreases total - end,
            {
                end += 1;
            }
            proof {
                lemma_token_end_bounds(line@, start as int);
            }
            let comment = end - start >= 2 && chars[start] == '/' && chars[start + 1] == '/';
            let ghost token = line@.subrange(start as int, end as int);
            assert(comment == opens_comment(token));
            if comment {
                proof {
                    assert(tokens_from(line@, at as int) =~= Seq::<Seq<char>>::empty());
                    assert(texts(tokens@) + tokens_from(line@, at as int) =~= texts(tokens@));
                }
                done = true;
            } else {
                let text = String::from_str(line.substring_char(start, end));
                let ghost before = texts(tokens@);
                tokens.push(text);
                proof {
                    assert(texts(tokens@) =~= before.push(token));
                    assert(tokens_from(line@, at as int) =~= seq![token] + tokens_from(
                        line@,
                        end as int,
                    ));
                    assert(before + tokens_from(line@, at as int) =~= texts(tokens@) + tokens_from(
                        line@,
                        end as int,
                    ));
                }
                at = end;
            }
        }
    }
    tokens
}

/// The character of a decimal digit.
pub open spec fn digit_char(digit: nat) -> char {
    if digit == 0 {
        '0'
    } else if digit == 1 {
        '1'
    } else if digit == 2 {
        '2'
    } else if digit == 3 {
        '3'
    } else if digit == 4 {
        '4'
    } else if digit == 5 {
        '5'
    } else if digit == 6 {
        '6'
    } else if digit == 7 {
        '7'
    } else if digit == 8 {
        '8'
    } else {
        '9'
    }
}

/// The decimal numeral of a natural number, without leading zeros.
pub open spec fn decimal(n: nat) -> Seq<char>
    decreases n,
{
    if n < 10 {
        seq![digit_char(n)]
    } else {
        decimal(n / 10).push(digit_char(n % 10))
    }
}

/// The decimal numeral of an integer: a minus sign before the numeral of the
/// magnitude where the integer is negative.
pub open spec fn signed_decimal(n: int) -> Seq<char> {
    if n < 0 {
        seq!['-'] + decimal((-n) as nat)
    } else {
        decimal(n as nat)
    }
}

/// The text of one decimal digit.
fn digit_text(digit: u64) -> (r: &'static str)
    requires
        digit < 10,
    ensures
        r@ == seq![digit_char(digit as nat)],
{
    proof {
        reveal_strlit("0");
        reveal_strlit("1");
        reveal_strlit("2");
        reveal_strlit("3");
        reveal_strlit("4");
        reveal_strlit("5");
        reveal_strlit("6");
        reveal_strlit("7");
        reveal_strlit("8");
        reveal_strlit("9");
    }
    let text = match digit {
        0 => "0",
        1 => "1",
        2 => "2",
        3 => "3",
        4 => "4",
        5 => "5",
        6 => "6",
        7 => "7",
        8 => "8",
        _ => "9",
    };
    assert(text@ =~= seq![digit_char(digit as nat)]);
    text
}

/// Appends the decimal numeral of `n`.
pub fn append_decimal(out: &mut String, n: u64)
    ensures
        final(out)@ == old(out)@ + decimal(n as nat),
    decreases n,
{
    if n >= 10 {
        append_decimal(out, n / 10);
    }
    out.append(digit_text(n % 10));
    proof {
        if n >= 10 {
            assert(old(out)@ + decimal((n / 10) as nat) + seq![digit_char((n % 10) as nat)]
                =~= old(out)@ + decimal(n as nat));
        }
    }
}

/// Appends the decimal numeral of a signed value.
pub fn append_signed(out: &mut String, n: i16)
    ensures
        final(out)@ == old(out)@ + signed_decimal(n as int),
{
    if n < 0 {
        proof {
            reveal_strlit("-");
        }
        out.append("-");
        let magnitude: u64 = (-(n as i64)) as u64;
        append_decimal(out, magnitude);
        assert(old(out)@ + "-"@ + decimal(magnitude as nat) =~= old(out)@ + signed_decimal(
            n as int,
        ));
    } else {
        append_decimal(out, n as u64);
    }
}

/// The opening of a message about a source line.
pub open spec fn line_prefix(line: nat) -> Seq<char> {
    "line "@ + decimal(line) + ": "@
}

/// Starts a message about a source line.
pub fn start_line_message(line: usize) -> (r: String)
    ensures
        r@ == line_prefix(line as nat),
{
    let mut out = String::from_str("line ");
    append_decimal(&mut out, line as u64);
    out.append(": ");
    out
}

} // verus!
