//! The scanner: turns source text into tokens.
use vstd::prelude::*;
use vstd::slice::slice_subrange;
use crate::error::{scan_error, scan_error_text};
use crate::number::{is_digit_char, lemma_short_literal, literal_value, Number};
use crate::text::{chars_of, lines, string_of};
use crate::token::{word_kind, Literal, LiteralModel, Token, TokenModel, TokenType, tokens_view};

verus! {

pub open spec fn spec_is_alpha(c: char) -> bool {
    ('a' <= c <= 'z') || ('A' <= c <= 'Z') || c == '_'
}

pub open spec fn spec_is_alnum(c: char) -> bool {
    is_digit_char(c) || spec_is_alpha(c)
}

pub fn is_digit(c: char) -> (r: bool)
    ensures
        r == is_digit_char(c),
{
    c >= '0' && c <= '9'
}

pub fn is_alpha(c: char) -> (r: bool)
    ensures
        r == spec_is_alpha(c),
{
    (c >= 'a' && c <= 'z') || (c >= 'A' && c <= 'Z') || c == '_'
}

pub fn is_alpha_numeric(c: char) -> (r: bool)
    ensures
        r == spec_is_alnum(c),
{
    is_digit(c) || is_alpha(c)
}

/// Where the run of letters, digits and underscores from `i` ends.
pub open spec fn word_end(src: Seq<char>, i: int) -> int
    decreases src.len() - i,
{
    if i < 0 || i >= src.len() || !spec_is_alnum(src[i]) {
        i
    } else {
        word_end(src, i + 1)
    }
}

/// Where the run of digits from `i` ends.
pub open spec fn digits_end(src: Seq<char>, i: int) -> int
    decreases src.len() - i,
{
    if i < 0 || i >= src.len() || !is_digit_char(src[i]) {
        i
    } else {
        digits_end(src, i + 1)
    }
}

/// The first quote at or after `i`, or the end of the source.
pub open spec fn quote_end(src: Seq<char>, i: int) -> int
    decreases src.len() - i,
{
    if i < 0 || i >= src.len() || src[i] == '"' {
        i
    } else {
        quote_end(src, i + 1)
    }
}

/// The first newline at or after `i`, or the end of the source.
pub open spec fn line_end(src: Seq<char>, i: int) -> int
    decreases src.len() - i,
{
    if i < 0 || i >= src.len() || src[i] == '\n' {
        i
    } else {
        line_end(src, i + 1)
    }
}

pub open spec fn next_line(line: u32) -> u32 {
    if line < u32::MAX {
        (line + 1) as u32
    } else {
        line
    }
}

/// The line after the text `s`, starting on line `line`.
pub open spec fn lines_after(line: u32, s: Seq<char>) -> u32
    decreases s.len(),
{
    if s.len() == 0 {
        line
    } else if s.last() == '\n' {
        next_line(lines_after(line, s.drop_last()))
    } else {
        lines_after(line, s.drop_last())
    }
}

/// One scanning step: where the lexeme that starts at `start` ends, the line
/// after it, and the token or error message it gives.
pub struct Step {
    pub end: int,
    pub line: u32,
    pub token: Option<TokenModel>,
    pub error: Option<Seq<char>>,
}

pub open spec fn plain(src: Seq<char>, start: int, end: int, t: TokenType, line: u32) -> Step {
    Step {
        end,
        line,
        token: Some(
            TokenModel { t, lexeme: src.subrange(start, end), literal: LiteralModel::Nothing, line },
        ),
        error: None,
    }
}

pub open spec fn skip(end: int, line: u32) -> Step {
    Step { end, line, token: None, error: None }
}

/// A one-character token, or its two-character form where `=` follows.
pub open spec fn with_equal(src: Seq<char>, start: int, line: u32, one: TokenType, two: TokenType) -> Step {
    if start + 1 < src.len() && src[start + 1] == '=' {
        plain(src, start, start + 2, two, line)
    } else {
        plain(src, start, start + 1, one, line)
    }
}

pub open spec fn string_step(src: Seq<char>, start: int, line: u32) -> Step {
    let q = quote_end(src, start + 1);
    let l = lines_after(line, src.subrange(start + 1, q));
    if q >= src.len() {
        Step { end: q, line: l, token: None, error: Some(scan_error_text(l, "Unterminated string."@)) }
    } else {
        Step {
            end: q + 1,
            line: l,
            token: Some(
                TokenModel {
                    t: TokenType::Str,
                    lexeme: src.subrange(start, q + 1),
                    literal: LiteralModel::Text(src.subrange(start + 1, q)),
                    line: l,
                },
            ),
            error: None,
        }
    }
}

pub open spec fn number_step(src: Seq<char>, start: int, line: u32) -> Step {
    let j = digits_end(src, start + 1);
    let frac = j + 1 < src.len() && src[j] == '.' && is_digit_char(src[j + 1]);
    let end = if frac {
        digits_end(src, j + 1)
    } else {
        j
    };
    let digits = if frac {
        src.subrange(start, j) + src.subrange(j + 1, end)
    } else {
        src.subrange(start, end)
    };
    let scale: nat = if frac {
        (end - j - 1) as nat
    } else {
        0
    };
    match literal_value(digits, scale) {
        Some(n) => Step {
            end,
            line,
            token: Some(
                TokenModel {
                    t: TokenType::Number,
                    lexeme: src.subrange(start, end),
                    literal: LiteralModel::Num(n),
                    line,
                },
            ),
            error: None,
        },
        None => Step {
            end,
            line,
            token: None,
            error: Some(scan_error_text(line, "Number literal out of range."@)),
        },
    }
}

/// The step that scans the lexeme starting at `start` on line `line`.
pub open spec fn scan_step(src: Seq<char>, start: int, line: u32) -> Step {
    let c = src[start];
    if c == '(' {
        plain(src, start, start + 1, TokenType::LeftParen, line)
    } else if c == ')' {
        plain(src, start, start + 1, TokenType::RightParen, line)
    } else if c == '{' {
        plain(src, start, start + 1, TokenType::LeftBrace, line)
    } else if c == '}' {
        plain(src, start, start + 1, TokenType::RightBrace, line)
    } else if c == ',' {
        plain(src, start, start + 1, TokenType::Comma, line)
    } else if c == '.' {
        plain(src, start, start + 1, TokenType::Dot, line)
    } else if c == '-' {
        plain(src, start, start + 1, TokenType::Minus, line)
    } else if c == '+' {
        plain(src, start, start + 1, TokenType::Plus, line)
    } else if c == ';' {
        plain(src, start, start + 1, TokenType::Semicolon, line)
    } else if c == '*' {
        plain(src, start, start + 1, TokenType::Star, line)
    } else if c == '!' {
        with_equal(src, start, line, TokenType::Bang, TokenType::BangEqual)
    } else if c == '=' {
        with_equal(src, start, line, TokenType::Equal, TokenType::EqualEqual)
    } else if c == '<' {
        with_equal(src, start, line, TokenType::Less, TokenType::LessEqual)
    } else if c == '>' {
        with_equal(src, start, line, TokenType::Greater, TokenType::GreaterEqual)
    } else if c == '/' {
        if start + 1 < src.len() && src[start + 1] == '/' {
            skip(line_end(src, start + 2), line)
        } else {
            plain(src, start, start + 1, TokenType::Slash, line)
        }
    } else if c == ' ' || c == '\r' || c == '\t' {
        skip(start + 1, line)
    } else if c == '\n' {
        skip(start + 1, next_line(line))
    } else if c == '"' {
        string_step(src, start, line)
    } else if is_digit_char(c) {
        number_step(src, start, line)
    } else if spec_is_alpha(c) {
        let end = word_end(src, start + 1);
        plain(src, start, end, word_kind(src.subrange(start, end)), line)
    } else {
        Step {
            end: start + 1,
            line,
            token: None,
            error: Some(scan_error_text(line, "Unexpected character."@)),
        }
    }
}

pub open spec fn push_opt<T>(s: Seq<T>, o: Option<T>) -> Seq<T> {
    match o {
        Some(x) => s.push(x),
        None => s,
    }
}

/// Scans `src` from `cur` on line `line`, after the tokens `toks` and error
/// reports `errs`; gives all tokens, all reports and the last line.
pub open spec fn scan_from(src: Seq<char>, cur: int, line: u32, toks: Seq<TokenModel>, errs: Seq<Seq<char>>) -> (Seq<TokenModel>, Seq<Seq<char>>, u32)
    decreases src.len() - cur,
{
    if cur < 0 || cur >= src.len() {
        (toks, errs, line)
    } else {
        let st = scan_step(src, cur, line);
        if st.end <= cur || st.end > src.len() {
            (toks, errs, line)
        } else {
            scan_from(src, st.end, st.line, push_opt(toks, st.token), push_opt(errs, st.error))
        }
    }
}

/// The end-of-file token on line `line`.
pub open spec fn eof_token(line: u32) -> TokenModel {
    TokenModel { t: TokenType::Eof, lexeme: seq![], literal: LiteralModel::Nothing, line }
}

/// A character that some lexeme can be made of, outside string literals.
pub open spec fn recognized(c: char) -> bool {
    ||| spec_is_alpha(c)
    ||| is_digit_char(c)
    ||| c == '(' || c == ')' || c == '{' || c == '}' || c == ',' || c == '.'
    ||| c == '-' || c == '+' || c == ';' || c == '*' || c == '/'
    ||| c == '!' || c == '=' || c == '<' || c == '>'
    ||| c == ' ' || c == '\r' || c == '\t' || c == '\n'
}

pub open spec fn numeric(c: char) -> bool {
    is_digit_char(c) || c == '.'
}

/// Source made only of recognized characters, without string literals, and
/// without runs of more than eighteen digits and points.
pub open spec fn plain_source(s: Seq<char>) -> bool {
    &&& forall|i: int| 0 <= i < s.len() ==> recognized(#[trigger] s[i])
    &&& forall|i: int| 0 <= i && i + 19 <= s.len() ==> #[trigger] breaks_run(s, i)
}

/// Some character of `s[i..i + 19]` is neither a digit nor a point.
pub open spec fn breaks_run(s: Seq<char>, i: int) -> bool {
    exists|k: int| i <= k < i + 19 && !numeric(#[trigger] s[k])
}

/// The lines of the tokens never decrease.
pub open spec fn lines_ordered(ts: Seq<Token>) -> bool {
    forall|i: int, j: int| 0 <= i <= j < ts.len() ==> #[trigger] ts[i].line <= #[trigger] ts[j].line
}

/// A finished token list: ordered by line, lines counted from 1, and
/// terminated by exactly one end-of-file token.
pub open spec fn well_scanned(ts: Seq<Token>) -> bool {
    &&& ts.len() >= 1
    &&& ts.last().t == TokenType::Eof
    &&& forall|i: int| 0 <= i < ts.len() - 1 ==> (#[trigger] ts[i]).t != TokenType::Eof
    &&& forall|i: int| 0 <= i < ts.len() ==> (#[trigger] ts[i]).line >= 1
    &&& lines_ordered(ts)
}

proof fn lemma_lines_concat(l: u32, a: Seq<char>, b: Seq<char>)
    ensures
        lines_after(l, a + b) == lines_after(lines_after(l, a), b),
    decreases b.len(),
{
    if b.len() > 0 {
        lemma_lines_concat(l, a, b.drop_last());
        assert((a + b).drop_last() =~= a + b.drop_last());
        assert((a + b).last() == b.last());
    } else {
        assert(a + b =~= a);
    }
}

proof fn lemma_no_newline(l: u32, s: Seq<char>)
    requires
        forall|k: int| 0 <= k < s.len() ==> #[trigger] s[k] != '\n',
    ensures
        lines_after(l, s) == l,
    decreases s.len(),
{
    if s.len() > 0 {
        let d = s.drop_last();
        assert forall|k: int| 0 <= k < d.len() implies #[trigger] d[k] != '\n' by {
            assert(d[k] == s[k]);
        }
        lemma_no_newline(l, d);
        assert(s.last() == s[s.len() - 1]);
    }
}

proof fn lemma_word_end(src: Seq<char>, i: int)
    requires
        0 <= i <= src.len(),
    ensures
        i <= word_end(src, i) <= src.len(),
        forall|k: int| i <= k < word_end(src, i) ==> spec_is_alnum(#[trigger] src[k]),
    decreases src.len() - i,
{
    if i < src.len() && spec_is_alnum(src[i]) {
        lemma_word_end(src, i + 1);
    }
}

proof fn lemma_digits_end(src: Seq<char>, i: int)
    requires
        0 <= i <= src.len(),
    ensures
        i <= digits_end(src, i) <= src.len(),
        forall|k: int| i <= k < digits_end(src, i) ==> is_digit_char(#[trigger] src[k]),
    decreases src.len() - i,
{
    if i < src.len() && is_digit_char(src[i]) {
        lemma_digits_end(src, i + 1);
    }
}

proof fn lemma_line_end(src: Seq<char>, i: int)
    requires
        0 <= i <= src.len(),
    ensures
        i <= line_end(src, i) <= src.len(),
        forall|k: int| i <= k < line_end(src, i) ==> #[trigger] src[k] != '\n',
    decreases src.len() - i,
{
    if i < src.len() && src[i] != '\n' {
        lemma_line_end(src, i + 1);
    }
}

proof fn lemma_quote_end(src: Seq<char>, i: int)
    requires
        0 <= i <= src.len(),
    ensures
        i <= quote_end(src, i) <= src.len(),
        quote_end(src, i) < src.len() ==> src[quote_end(src, i)] == '"',
    decreases src.len() - i,
{
    if i < src.len() && src[i] != '"' {
        lemma_quote_end(src, i + 1);
    }
}

/// No newline in `src[from..to]`.
spec fn no_newline(src: Seq<char>, from: int, to: int) -> bool {
    forall|k: int| from <= k < to ==> #[trigger] src[k] != '\n'
}

proof fn lemma_flat(l: u32, src: Seq<char>, from: int, to: int)
    requires
        0 <= from <= to <= src.len(),
        no_newline(src, from, to),
    ensures
        lines_after(l, src.subrange(from, to)) == l,
{
    let s = src.subrange(from, to);
    assert forall|k: int| 0 <= k < s.len() implies #[trigger] s[k] != '\n' by {
        assert(s[k] == src[from + k]);
    }
    lemma_no_newline(l, s);
}

/// A scanning step moves forward, and its line is the line after the text it
/// scanned.
proof fn lemma_step_lines(src: Seq<char>, start: int, line: u32)
    requires
        0 <= start < src.len(),
    ensures
        start < scan_step(src, start, line).end <= src.len(),
        scan_step(src, start, line).line == lines_after(
            line,
            src.subrange(start, scan_step(src, start, line).end),
        ),
{
    let c = src[start];
    let st = scan_step(src, start, line);
    if c == '\n' {
        let s = src.subrange(start, start + 1);
        assert(s.drop_last() =~= seq![]);
        assert(lines_after(line, s.drop_last()) == line);
        assert(s.last() == '\n');
        assert(st.end == start + 1);
        assert(lines_after(line, s) == next_line(line));
        assert(st.line == lines_after(line, src.subrange(start, st.end)));
    } else if c == '"' {
        let q = quote_end(src, start + 1);
        lemma_quote_end(src, start + 1);
        let mid = src.subrange(start + 1, q);
        let l = lines_after(line, mid);
        lemma_lines_concat(line, src.subrange(start, start + 1), mid);
        lemma_flat(line, src, start, start + 1);
        assert(src.subrange(start, start + 1) + mid =~= src.subrange(start, q));
        if q < src.len() {
            lemma_lines_concat(line, src.subrange(start, q), src.subrange(q, q + 1));
            lemma_flat(l, src, q, q + 1);
            assert(src.subrange(start, q) + src.subrange(q, q + 1) =~= src.subrange(start, q + 1));
            assert(st.line == lines_after(line, src.subrange(start, st.end)));
        } else {
            assert(st.line == lines_after(line, src.subrange(start, st.end)));
        }
    } else if is_digit_char(c) {
        let j = digits_end(src, start + 1);
        lemma_digits_end(src, start + 1);
        if j + 1 < src.len() && src[j] == '.' && is_digit_char(src[j + 1]) {
            lemma_digits_end(src, j + 1);
            assert(no_newline(src, start, digits_end(src, j + 1))) by {
                assert forall|k: int| start <= k < digits_end(src, j + 1) implies #[trigger] src[k]
                    != '\n' by {
                    if k > start && k < j {
                        assert(is_digit_char(src[k]));
                    } else if k > j {
                        assert(is_digit_char(src[k]));
                    }
                }
            }
            lemma_flat(line, src, start, digits_end(src, j + 1));
            assert(st.line == lines_after(line, src.subrange(start, st.end)));
        } else {
            assert(no_newline(src, start, j)) by {
                assert forall|k: int| start <= k < j implies #[trigger] src[k] != '\n' by {
                    if k > start {
                        assert(is_digit_char(src[k]));
                    }
                }
            }
            lemma_flat(line, src, start, j);
            assert(st.line == lines_after(line, src.subrange(start, st.end)));
        }
    } else if spec_is_alpha(c) {
        let e = word_end(src, start + 1);
        lemma_word_end(src, start + 1);
        assert(no_newline(src, start, e)) by {
            assert forall|k: int| start <= k < e implies #[trigger] src[k] != '\n' by {
                if k > start {
                    assert(spec_is_alnum(src[k]));
                }
            }
        }
        lemma_flat(line, src, start, e);
        assert(st.line == lines_after(line, src.subrange(start, st.end)));
    } else if c == '/' && start + 1 < src.len() && src[start + 1] == '/' {
        let e = line_end(src, start + 2);
        lemma_line_end(src, start + 2);
        assert(no_newline(src, start, e)) by {
            assert forall|k: int| start <= k < e implies #[trigger] src[k] != '\n' by {
                if k >= start + 2 {
                    assert(src[k] != '\n');
                }
            }
        }
        lemma_flat(line, src, start, e);
        assert(st.line == lines_after(line, src.subrange(start, st.end)));
    } else {
        assert(no_newline(src, start, st.end));
        lemma_flat(line, src, start, st.end);
        assert(st.line == lines_after(line, src.subrange(start, st.end)));
    }
}

/// The line that scanning from `cur` ends on is the line after the rest of
/// the source.
proof fn lemma_scan_lines(src: Seq<char>, cur: int, line: u32, toks: Seq<TokenModel>, errs: Seq<Seq<char>>)
    requires
        0 <= cur <= src.len(),
    ensures
        scan_from(src, cur, line, toks, errs).2 == lines_after(line, src.subrange(cur, src.len() as int)),
    decreases src.len() - cur,
{
    if cur < src.len() {
        let st = scan_step(src, cur, line);
        lemma_step_lines(src, cur, line);
        lemma_scan_lines(src, st.end, st.line, push_opt(toks, st.token), push_opt(errs, st.error));
        lemma_lines_concat(line, src.subrange(cur, st.end), src.subrange(st.end, src.len() as int));
        assert(src.subrange(cur, st.end) + src.subrange(st.end, src.len() as int) =~= src.subrange(
            cur,
            src.len() as int,
        ));
    } else {
        assert(src.subrange(cur, src.len() as int) =~= seq![]);
    }
}

struct Scanner {
    src: Vec<char>,
    start: usize,
    cur: usize,
    line: u32,
    tokens: Vec<Token>,
    errors: Vec<String>,
}

impl Scanner {
    spec fn wf(&self) -> bool {
        &&& self.start <= self.cur <= self.src@.len() <= usize::MAX
        &&& self.line >= 1
        &&& forall|i: int|
            0 <= i < self.tokens@.len() ==> (#[trigger] self.tokens@[i]).t != TokenType::Eof
                && 1 <= self.tokens@[i].line <= self.line
        &&& lines_ordered(self.tokens@)
    }

    /// What scanning keeps: the source, and the tokens and errors found so far.
    spec fn grows(&self, before: &Scanner) -> bool {
        &&& self.src@ == before.src@
        &&& self.start == before.start
        &&& self.cur >= before.cur
        &&& self.line >= before.line
        &&& self.errors@.len() >= before.errors@.len()
    }

    /// The scanner moved from `before` by `st`.
    spec fn stepped(&self, before: &Scanner, st: Step) -> bool {
        &&& self.cur == st.end
        &&& self.line == st.line
        &&& tokens_view(self.tokens@) == push_opt(tokens_view(before.tokens@), st.token)
        &&& lines(self.errors@) == push_opt(lines(before.errors@), st.error)
    }

    fn end(&self) -> (r: bool)
        ensures
            r == (self.cur >= self.src@.len()),
    {
        self.cur >= self.src.len()
    }

    fn advance(&mut self) -> (c: char)
        requires
            old(self).wf(),
            old(self).cur < old(self).src@.len(),
        ensures
            final(self).wf(),
            c == old(self).src@[old(self).cur as int],
            final(self).cur == old(self).cur + 1,
            final(self).src == old(self).src,
            final(self).start == old(self).start,
            final(self).line == old(self).line,
            final(self).tokens == old(self).tokens,
            final(self).errors == old(self).errors,
    {
        let c = self.src[self.cur];
        self.cur = self.cur + 1;
        c
    }

    fn peek(&self) -> (c: char)
        ensures
            self.cur < self.src@.len() ==> c == self.src@[self.cur as int],
            self.cur >= self.src@.len() ==> c == '\0',
    {
        if self.end() {
            return '\0';
        }
        self.src[self.cur]
    }

    fn peek_next(&self) -> (c: char)
        ensures
            self.cur + 1 < self.src@.len() ==> c == self.src@[self.cur + 1],
            self.cur + 1 >= self.src@.len() ==> c == '\0',
    {
        if self.cur >= self.src.len() || self.cur + 1 >= self.src.len() {
            return '\0';
        }
        self.src[self.cur + 1]
    }

    /// Consumes the next character when it is `expected`.
    fn matches(&mut self, expected: char) -> (r: bool)
        requires
            old(self).wf(),
        ensures
            final(self).wf(),
            r == (old(self).cur < old(self).src@.len() && old(self).src@[old(self).cur as int]
                == expected),
            final(self).cur == old(self).cur + if r {
                1int
            } else {
                0
            },
            final(self).src == old(self).src,
            final(self).start == old(self).start,
            final(self).line == old(self).line,
            final(self).tokens == old(self).tokens,
            final(self).errors == old(self).errors,
    {
        if self.end() {
            return false;
        }
        if self.src[self.cur] != expected {
            return false;
        }
        self.cur = self.cur + 1;
        true
    }

    fn newline(&mut self)
        requires
            old(self).wf(),
        ensures
            final(self).wf(),
            final(self).grows(old(self)),
            final(self).cur == old(self).cur,
            final(self).line == next_line(old(self).line),
            final(self).tokens == old(self).tokens,
            final(self).errors == old(self).errors,
    {
        if self.line < u32::MAX {
            self.line = self.line + 1;
        }
    }

    fn error(&mut self, msg: &str)
        requires
            old(self).wf(),
        ensures
            final(self).wf(),
            final(self).grows(old(self)),
            final(self).cur == old(self).cur,
            final(self).line == old(self).line,
            final(self).tokens == old(self).tokens,
            lines(final(self).errors@) == lines(old(self).errors@).push(
                scan_error_text(old(self).line, msg@),
            ),
    {
        let d = scan_error(self.line, msg);
        self.errors.push(d);
        assert(lines(self.errors@) =~= lines(old(self).errors@).push(scan_error_text(old(self).line, msg@)));
    }

    /// Adds the token that spans `start..cur`.
    fn add_token(&mut self, t: TokenType, literal: Literal)
        requires
            old(self).wf(),
            t != TokenType::Eof,
        ensures
            final(self).wf(),
            final(self).grows(old(self)),
            final(self).cur == old(self).cur,
            final(self).line == old(self).line,
            final(self).errors == old(self).errors,
            tokens_view(final(self).tokens@) == tokens_view(old(self).tokens@).push(
                TokenModel {
                    t,
                    lexeme: old(self).src@.subrange(old(self).start as int, old(self).cur as int),
                    literal: literal@,
                    line: old(self).line,
                },
            ),
    {
        let lexeme = string_of(slice_subrange(self.src.as_slice(), self.start, self.cur));
        self.tokens.push(Token { t, lexeme, literal, line: self.line });
        assert(tokens_view(self.tokens@) =~= tokens_view(old(self).tokens@).push(
            self.tokens@.last()@,
        ));
    }

    /// Scans a string literal; the opening quote is consumed.
    fn string(&mut self)
        requires
            old(self).wf(),
            old(self).cur == old(self).start + 1,
        ensures
            final(self).wf(),
            final(self).grows(old(self)),
            final(self).stepped(old(self), string_step(old(self).src@, old(self).start as int, old(self).line)),
    {
        let ghost src = self.src@;
        let ghost start = self.start as int;
        assert(src.subrange(start + 1, self.cur as int) =~= seq![]);
        while !self.end() && self.peek() != '"'
            invariant
                self.wf(),
                self.grows(old(self)),
                src == self.src@,
                start == self.start,
                self.cur >= start + 1,
                self.tokens == old(self).tokens,
                self.errors == old(self).errors,
                quote_end(src, self.cur as int) == quote_end(src, start + 1),
                self.line == lines_after(old(self).line, src.subrange(start + 1, self.cur as int)),
            decreases self.src@.len() - self.cur,
        {
            assert(src.subrange(start + 1, self.cur + 1).drop_last() =~= src.subrange(start + 1, self.cur as int));
            if self.peek() == '\n' {
                self.newline();
            }
            self.advance();
        }
        if self.end() {
            self.error("Unterminated string.");
            return;
        }
        self.advance();
        let text = string_of(slice_subrange(self.src.as_slice(), self.start + 1, self.cur - 1));
        self.add_token(TokenType::Str, Literal::Text(text));
    }

    /// Scans a number literal; its first digit is consumed.
    fn number(&mut self)
        requires
            old(self).wf(),
            old(self).cur == old(self).start + 1,
            is_digit_char(old(self).src@[old(self).start as int]),
        ensures
            final(self).wf(),
            final(self).grows(old(self)),
            final(self).stepped(old(self), number_step(old(self).src@, old(self).start as int, old(self).line)),
            plain_source(old(self).src@) ==> final(self).errors == old(self).errors,
    {
        let ghost src = self.src@;
        let ghost start = self.start as int;
        let mut digits: Vec<char> = Vec::new();
        digits.push(self.src[self.start]);
        assert(digits@ =~= src.subrange(start, self.cur as int));
        let mut scale: usize = 0;
        while is_digit(self.peek())
            invariant
                self.wf(),
                self.grows(old(self)),
                src == self.src@,
                start == self.start,
                self.tokens == old(self).tokens,
                self.errors == old(self).errors,
                self.line == old(self).line,
                self.cur > self.start,
                digits_end(src, self.cur as int) == digits_end(src, start + 1),
                digits@ == src.subrange(start, self.cur as int),
                forall|j: int| 0 <= j < digits@.len() ==> is_digit_char(#[trigger] digits@[j]),
                forall|k: int| self.start <= k < self.cur ==> numeric(#[trigger] self.src@[k]),
                scale == 0,
            decreases self.src@.len() - self.cur,
        {
            let c = self.advance();
            digits.push(c);
            assert(digits@ =~= src.subrange(start, self.cur as int));
        }
        let ghost point = self.cur as int;
        if self.peek() == '.' && is_digit(self.peek_next()) {
            self.advance();
            assert(src.subrange(point + 1, self.cur as int) =~= seq![]);
            assert(digits@ =~= src.subrange(start, point) + src.subrange(point + 1, self.cur as int));
            while is_digit(self.peek())
                invariant
                    self.wf(),
                    self.grows(old(self)),
                    src == self.src@,
                    start == self.start,
                    self.tokens == old(self).tokens,
                    self.errors == old(self).errors,
                    self.line == old(self).line,
                    self.cur > self.start,
                    self.start < point,
                    self.cur >= point + 1,
                    digits_end(src, self.cur as int) == digits_end(src, point + 1),
                    digits@ == src.subrange(start, point) + src.subrange(point + 1, self.cur as int),
                    scale == self.cur - (point + 1),
                    forall|q: int| 0 <= q < digits@.len() ==> is_digit_char(#[trigger] digits@[q]),
                    forall|k: int| self.start <= k < self.cur ==> numeric(#[trigger] self.src@[k]),
                    digits@.len() <= self.cur - self.start,
                decreases self.src@.len() - self.cur,
            {
                let c = self.advance();
                digits.push(c);
                scale = scale + 1;
                assert(digits@ =~= src.subrange(start, point) + src.subrange(point + 1, self.cur as int));
            }
        }
        proof {
            if plain_source(self.src@) && self.cur - self.start >= 19 {
                let i = self.start as int;
                assert(breaks_run(self.src@, i));
                let k = choose|k: int| i <= k < i + 19 && !numeric(#[trigger] self.src@[k]);
                assert(numeric(self.src@[k]));
            }
            if plain_source(self.src@) {
                lemma_short_literal(digits@, scale as nat);
            }
        }
        match Number::from_literal(digits.as_slice(), scale) {
            Some(n) => self.add_token(TokenType::Number, Literal::Num(n)),
            None => self.error("Number literal out of range."),
        }
    }

    /// Scans an identifier or keyword; its first character is consumed.
    fn identifier(&mut self)
        requires
            old(self).wf(),
            old(self).cur == old(self).start + 1,
        ensures
            final(self).wf(),
            final(self).grows(old(self)),
            final(self).errors == old(self).errors,
            final(self).stepped(
                old(self),
                plain(
                    old(self).src@,
                    old(self).start as int,
                    word_end(old(self).src@, old(self).start + 1),
                    word_kind(
                        old(self).src@.subrange(
                            old(self).start as int,
                            word_end(old(self).src@, old(self).start + 1),
                        ),
                    ),
                    old(self).line,
                ),
            ),
    {
        while is_alpha_numeric(self.peek())
            invariant
                self.wf(),
                self.grows(old(self)),
                self.src == old(self).src,
                self.tokens == old(self).tokens,
                self.line == old(self).line,
                self.errors == old(self).errors,
                self.cur >= old(self).cur,
                word_end(self.src@, self.cur as int) == word_end(self.src@, old(self).start + 1),
            decreases self.src@.len() - self.cur,
        {
            self.advance();
        }
        let t = TokenType::keyword_or_id(slice_subrange(self.src.as_slice(), self.start, self.cur));
        self.add_token(t, Literal::Nothing);
    }

    fn simple(&mut self, t: TokenType)
        requires
            old(self).wf(),
            t != TokenType::Eof,
        ensures
            final(self).wf(),
            final(self).grows(old(self)),
            final(self).errors == old(self).errors,
            final(self).stepped(
                old(self),
                plain(old(self).src@, old(self).start as int, old(self).cur as int, t, old(self).line),
            ),
    {
        self.add_token(t, Literal::Nothing);
    }

    /// Scans one lexeme, starting at `start`.
    fn scan_next(&mut self)
        requires
            old(self).wf(),
            old(self).start == old(self).cur,
            old(self).cur < old(self).src@.len(),
        ensures
            final(self).wf(),
            final(self).grows(old(self)),
            final(self).cur > old(self).cur,
            final(self).stepped(old(self), scan_step(old(self).src@, old(self).cur as int, old(self).line)),
            plain_source(old(self).src@) ==> final(self).errors == old(self).errors,
    {
        let c = self.advance();
        if c == '(' {
            self.simple(TokenType::LeftParen);
        } else if c == ')' {
            self.simple(TokenType::RightParen);
        } else if c == '{' {
            self.simple(TokenType::LeftBrace);
        } else if c == '}' {
            self.simple(TokenType::RightBrace);
        } else if c == ',' {
            self.simple(TokenType::Comma);
        } else if c == '.' {
            self.simple(TokenType::Dot);
        } else if c == '-' {
            self.simple(TokenType::Minus);
        } else if c == '+' {
            self.simple(TokenType::Plus);
        } else if c == ';' {
            self.simple(TokenType::Semicolon);
        } else if c == '*' {
            self.simple(TokenType::Star);
        } else if c == '!' {
            let t = if self.matches('=') {
                TokenType::BangEqual
            } else {
                TokenType::Bang
            };
            self.simple(t);
        } else if c == '=' {
            let t = if self.matches('=') {
                TokenType::EqualEqual
            } else {
                TokenType::Equal
            };
            self.simple(t);
        } else if c == '<' {
            let t = if self.matches('=') {
                TokenType::LessEqual
            } else {
                TokenType::Less
            };
            self.simple(t);
        } else if c == '>' {
            let t = if self.matches('=') {
                TokenType::GreaterEqual
            } else {
                TokenType::Greater
            };
            self.simple(t);
        } else if c == '/' {
            if self.matches('/') {
                while !self.end() && self.peek() != '\n'
                    invariant
                        self.wf(),
                        self.grows(old(self)),
                        self.src == old(self).src,
                        self.tokens == old(self).tokens,
                        self.line == old(self).line,
                        self.errors == old(self).errors,
                        self.cur >= old(self).cur + 2,
                        line_end(self.src@, self.cur as int) == line_end(self.src@, old(self).cur + 2),
                    decreases self.src@.len() - self.cur,
                {
                    self.advance();
                }
            } else {
                self.simple(TokenType::Slash);
            }
        } else if c == ' ' || c == '\r' || c == '\t' {
        } else if c == '\n' {
            self.newline();
        } else if c == '"' {
            self.string();
        } else if is_digit(c) {
            self.number();
        } else if is_alpha(c) {
            self.identifier();
        } else {
            self.error("Unexpected character.");
        }
    }
}

/// Scans `src` into tokens. Gives the tokens, ended by one end-of-file token,
/// or, where some lexeme was malformed, the report of each malformed lexeme.
pub fn scan_tokens(src: String) -> (r: Result<Vec<Token>, Vec<String>>)
    ensures
        ({
            let (toks, errs, line) = scan_from(src@, 0, 1, seq![], seq![]);
            match r {
                Ok(ts) => errs.len() == 0 && tokens_view(ts@) == toks.push(eof_token(line)),
                Err(d) => errs.len() > 0 && lines(d@) == errs,
            }
        }),
        match r {
            Ok(ts) => well_scanned(ts@),
            Err(d) => d@.len() >= 1,
        },
        plain_source(src@) ==> r is Ok,
        r matches Ok(ts) ==> ts@.last().line == lines_after(1, src@),
{
    proof {
        lemma_scan_lines(src@, 0, 1, seq![], seq![]);
        assert(src@.subrange(0, src@.len() as int) =~= src@);
    }
    let chars = chars_of(src.as_str());
    let n = chars.len();
    let mut s = Scanner { src: chars, start: 0, cur: 0, line: 1, tokens: Vec::new(), errors: Vec::new() };
    assert(tokens_view(s.tokens@) =~= seq![]);
    assert(lines(s.errors@) =~= seq![]);
    while !s.end()
        invariant
            s.wf(),
            s.src@ == src@,
            s.src@.len() == n,
            plain_source(src@) ==> s.errors@.len() == 0,
            scan_from(src@, s.cur as int, s.line, tokens_view(s.tokens@), lines(s.errors@))
                == scan_from(src@, 0, 1, seq![], seq![]),
        decreases s.src@.len() - s.cur,
    {
        s.start = s.cur;
        s.scan_next();
    }
    if s.errors.len() > 0 {
        return Err(s.errors);
    }
    let line = s.line;
    let ghost before = tokens_view(s.tokens@);
    s.tokens.push(Token { t: TokenType::Eof, lexeme: String::new(), literal: Literal::Nothing, line });
    assert(tokens_view(s.tokens@) =~= before.push(eof_token(line)));
    assert(lines_ordered(s.tokens@));
    Ok(s.tokens)
}

} // verus!
