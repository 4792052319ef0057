//! The scanner: a cursor over one source buffer that hands out one token,
//! one error or the end of input per pull.
use vstd::prelude::*;
use crate::scanner_error::{ScanError, SingleTokenError, UnterminatedStringError};
use crate::text::{
    chars_of, digit, find_char, find_in, ident_char, ident_start, is_digit, is_ident_char,
    is_ident_start, is_white_space, lemma_find_char, string_of, white_space,
};
use crate::token::{keyword_kind, word_kind, Token, TokenKind};

verus! {

/// What one scanning step finds at a position. A step starts at the
/// position it is taken from and ends where the next one starts.
pub enum Step {
    /// A token of this kind spans the step.
    Token(TokenKind),
    /// White space or a comment: nothing is emitted.
    Skip,
    /// The character at the position starts no token.
    Unexpected,
    /// A `"` with no closing `"`; the step runs to the end of input.
    Unterminated,
    /// No input is left.
    End,
}

/// Punctuation that is always a token of one character.
pub open spec fn punctuation(c: char) -> Option<TokenKind> {
    if c == '(' {
        Some(TokenKind::LeftParen)
    } else if c == ')' {
        Some(TokenKind::RightParen)
    } else if c == '{' {
        Some(TokenKind::LeftBrace)
    } else if c == '}' {
        Some(TokenKind::RightBrace)
    } else if c == '*' {
        Some(TokenKind::Star)
    } else if c == '.' {
        Some(TokenKind::Dot)
    } else if c == ',' {
        Some(TokenKind::Comma)
    } else if c == '+' {
        Some(TokenKind::Plus)
    } else if c == '-' {
        Some(TokenKind::Minus)
    } else if c == ';' {
        Some(TokenKind::Semicolon)
    } else {
        None
    }
}

/// Operators that take a following `=`: the kind with the `=`, then the kind
/// without it.
pub open spec fn operator(c: char) -> Option<(TokenKind, TokenKind)> {
    if c == '!' {
        Some((TokenKind::BangEqual, TokenKind::Bang))
    } else if c == '<' {
        Some((TokenKind::LessEqual, TokenKind::Less))
    } else if c == '>' {
        Some((TokenKind::GreaterEqual, TokenKind::Greater))
    } else if c == '=' {
        Some((TokenKind::EqualEqual, TokenKind::Equal))
    } else {
        None
    }
}

/// The end of the identifier characters that start at `i`.
pub open spec fn word_end(src: Seq<char>, i: int) -> int
    decreases src.len() - i,
{
    if 0 <= i < src.len() && is_ident_char(src[i]) {
        word_end(src, i + 1)
    } else {
        i
    }
}

/// The end of a number's digits from `i` on: digits, and one `.` at most
/// (`seen_dot` says whether one was taken already). A second `.` ends it.
pub open spec fn number_end(src: Seq<char>, i: int, seen_dot: bool) -> int
    decreases src.len() - i,
{
    if 0 <= i < src.len() && is_digit(src[i]) {
        number_end(src, i + 1, seen_dot)
    } else if 0 <= i < src.len() && src[i] == '.' && !seen_dot {
        number_end(src, i + 1, true)
    } else {
        i
    }
}

/// Whether the character after `pos` is `c`.
pub open spec fn followed_by(src: Seq<char>, pos: int, c: char) -> bool {
    pos + 1 < src.len() && src[pos + 1] == c
}

/// One scanning step at `pos`: what is found and where the next step starts.
pub open spec fn step(src: Seq<char>, pos: int) -> (Step, int) {
    if pos < 0 || pos >= src.len() {
        (Step::End, pos)
    } else {
        let c = src[pos];
        if punctuation(c) is Some {
            (Step::Token(punctuation(c)->0), pos + 1)
        } else if operator(c) is Some {
            let (doubled, single) = operator(c)->0;
            if followed_by(src, pos, '=') {
                (Step::Token(doubled), pos + 2)
            } else {
                (Step::Token(single), pos + 1)
            }
        } else if c == '/' {
            if followed_by(src, pos, '/') {
                (Step::Skip, find_char(src, pos + 1, '\n'))
            } else {
                (Step::Token(TokenKind::Slash), pos + 1)
            }
        } else if c == '"' {
            let q = find_char(src, pos + 1, '"');
            if q < src.len() {
                (Step::Token(TokenKind::String), q + 1)
            } else {
                (Step::Unterminated, src.len() as int)
            }
        } else if is_digit(c) {
            (Step::Token(TokenKind::Number), number_end(src, pos, false))
        } else if is_ident_start(c) {
            let e = word_end(src, pos);
            (Step::Token(keyword_kind(src.subrange(pos, e))), e)
        } else if is_white_space(c) {
            (Step::Skip, pos + 1)
        } else {
            (Step::Unexpected, pos + 1)
        }
    }
}

proof fn lemma_word_end(src: Seq<char>, i: int)
    requires
        0 <= i <= src.len(),
    ensures
        i <= word_end(src, i) <= src.len(),
        forall|k: int| i <= k < word_end(src, i) ==> is_ident_char(src[k]),
    decreases src.len() - i,
{
    if i < src.len() && is_ident_char(src[i]) {
        lemma_word_end(src, i + 1);
    }
}

proof fn lemma_number_end(src: Seq<char>, i: int, seen_dot: bool)
    requires
        0 <= i <= src.len(),
    ensures
        i <= number_end(src, i, seen_dot) <= src.len(),
        forall|k: int|
            i <= k < number_end(src, i, seen_dot) ==> is_digit(src[k]) || src[k] == '.',
    decreases src.len() - i,
{
    if i < src.len() && is_digit(src[i]) {
        lemma_number_end(src, i + 1, seen_dot);
    } else if i < src.len() && src[i] == '.' && !seen_dot {
        lemma_number_end(src, i + 1, true);
    }
}

/// Each step before the end of input moves forward, and none goes past the end.
pub proof fn lemma_step_advances(src: Seq<char>, pos: int)
    requires
        0 <= pos < src.len(),
    ensures
        pos < step(src, pos).1 <= src.len(),
{
    let c = src[pos];
    if c == '/' {
        lemma_find_char(src, pos + 1, '\n');
    } else if c == '"' {
        lemma_find_char(src, pos + 1, '"');
    } else if is_digit(c) {
        lemma_number_end(src, pos + 1, false);
    } else if is_ident_start(c) {
        lemma_word_end(src, pos + 1);
    }
}

/// One pull from `pos`: the steps are taken until one is not `Skip`. The
/// result is what that step found, where it started and where it ended.
pub open spec fn pull(src: Seq<char>, pos: int) -> (Step, int, int)
    decreases src.len() - pos,
{
    if 0 <= pos < src.len() && step(src, pos).0 is Skip {
        proof {
            lemma_step_advances(src, pos);
        }
        pull(src, step(src, pos).1)
    } else {
        (step(src, pos).0, pos, step(src, pos).1)
    }
}

/// A pull from a position in the input ends at or before its end; one that
/// finds anything but the end of input starts at or after the position and
/// consumes at least one character.
pub proof fn lemma_pull_bounds(src: Seq<char>, pos: int)
    ensures
        !(pull(src, pos).0 is End) ==> 0 <= pos <= pull(src, pos).1 < pull(src, pos).2
            <= src.len(),
        !(pull(src, pos).0 is Skip),
        pull(src, pos).0 is Unterminated ==> pull(src, pos).2 == src.len(),
    decreases src.len() - pos,
{
    if 0 <= pos < src.len() {
        lemma_step_advances(src, pos);
        if step(src, pos).0 is Skip {
            lemma_pull_bounds(src, step(src, pos).1);
        }
    }
}

/// An unterminated string consumes the rest of the input: the pull after
/// it finds the end.
pub proof fn lemma_unterminated_ends_scan(src: Seq<char>, pos: int)
    requires
        pull(src, pos).0 is Unterminated,
    ensures
        pull(src, pull(src, pos).2).0 is End,
{
    lemma_pull_bounds(src, pos);
}

/// An unexpected character is consumed alone: the next pull starts right
/// after it.
pub proof fn lemma_unexpected_resumes(src: Seq<char>, pos: int)
    requires
        pull(src, pos).0 is Unexpected,
    ensures
        pull(src, pos).2 == pull(src, pos).1 + 1,
    decreases src.len() - pos,
{
    if 0 <= pos < src.len() && step(src, pos).0 is Skip {
        lemma_step_advances(src, pos);
        lemma_unexpected_resumes(src, step(src, pos).1);
    }
}

/// The results of pulling from `pos` until the end of input, in order:
/// what a scanner driven to exhaustion hands out.
pub open spec fn pulls_from(src: Seq<char>, pos: int) -> Seq<(Step, int, int)>
    decreases src.len() - pos,
{
    if pull(src, pos).0 is End {
        seq![]
    } else {
        proof {
            lemma_pull_bounds(src, pos);
        }
        seq![pull(src, pos)] + pulls_from(src, pull(src, pos).2)
    }
}

/// A punctuation character is a token of one character. An operator that
/// may be doubled is a token of two characters when `=` follows it, else of
/// one: never of three or more.
pub proof fn lemma_operator_width(src: Seq<char>, pos: int)
    requires
        0 <= pos < src.len(),
        punctuation(src[pos]) is Some || operator(src[pos]) is Some,
    ensures
        pull(src, pos).0 is Token,
        pull(src, pos).1 == pos,
        pull(src, pos).2 == pos + 1 || pull(src, pos).2 == pos + 2,
        pull(src, pos).2 == pos + 2 <==> (operator(src[pos]) is Some && followed_by(
            src,
            pos,
            '=',
        )),
{
}

proof fn lemma_pulls_start_after(src: Seq<char>, pos: int)
    requires
        0 <= pos,
    ensures
        forall|i: int| 0 <= i < pulls_from(src, pos).len() ==> pos <= #[trigger] pulls_from(src, pos)[i].1,
    decreases src.len() - pos,
{
    if !(pull(src, pos).0 is End) {
        lemma_pull_bounds(src, pos);
        let e = pull(src, pos).2;
        lemma_pulls_start_after(src, e);
        let rest = pulls_from(src, e);
        assert forall|i: int| 0 <= i < pulls_from(src, pos).len() implies pos <= #[trigger] pulls_from(src, pos)[i].1 by {
            if i > 0 {
                assert(pulls_from(src, pos)[i] == rest[i - 1]);
            }
        }
    }
}

/// Where a pull from at or before a `//` at `p` ends up: before the `//`, in
/// a string literal over it, after the end of its line, or at the end of input.
proof fn lemma_pull_around_comment(src: Seq<char>, pos: int, p: int)
    requires
        0 <= pos <= p,
        p + 1 < src.len(),
        src[p] == '/',
        src[p + 1] == '/',
    ensures
        ({
            let (k, s, e) = pull(src, pos);
            ||| k is End
            ||| k is Unterminated
            ||| s >= find_char(src, p, '\n')
            ||| e <= p
            ||| (k == Step::Token(TokenKind::String) && s <= p < e)
        }),
    decreases p - pos,
{
    lemma_step_advances(src, pos);
    let (k, next) = step(src, pos);
    let c = src[pos];
    assert(find_char(src, p, '\n') == find_char(src, p + 1, '\n'));
    if k is Skip {
        if pos == p {
            lemma_pull_bounds(src, next);
        } else if next <= p {
            lemma_pull_around_comment(src, next, p);
        } else {
            // a comment from `pos` runs over `p` and ends where the line of `p` ends
            lemma_find_char(src, pos + 1, '\n');
            lemma_find_char_from_inside(src, pos + 1, p, '\n');
            lemma_pull_bounds(src, next);
        }
    } else if is_digit(c) {
        lemma_number_end(src, pos, false);
    } else if is_ident_start(c) {
        lemma_word_end(src, pos);
    }
}

/// When no `c` lies in `[i, j]`, the first `c` from `j` on is the first one from `i` on.
proof fn lemma_find_char_from_inside(s: Seq<char>, i: int, j: int, c: char)
    requires
        0 <= i <= j < find_char(s, i, c),
    ensures
        find_char(s, j, c) == find_char(s, i, c),
    decreases j - i,
{
    if i < j {
        lemma_find_char_from_inside(s, i + 1, j, c);
    }
}

proof fn lemma_comment_hides_from(src: Seq<char>, pos: int, p: int)
    requires
        0 <= pos <= p,
        p + 1 < src.len(),
        src[p] == '/',
        src[p + 1] == '/',
        forall|i: int|
            0 <= i < pulls_from(src, pos).len() && #[trigger] pulls_from(src, pos)[i].0
                == Step::Token(TokenKind::String) ==> !(pulls_from(src, pos)[i].1 <= p
                < pulls_from(src, pos)[i].2),
    ensures
        forall|i: int|
            0 <= i < pulls_from(src, pos).len() && (#[trigger] pulls_from(src, pos)[i]).0 is Token
                ==> pulls_from(src, pos)[i].2 <= p || pulls_from(src, pos)[i].1 >= find_char(
                src,
                p,
                '\n',
            ),
    decreases p - pos,
{
    let all = pulls_from(src, pos);
    if !(pull(src, pos).0 is End) {
        lemma_pull_bounds(src, pos);
        lemma_pull_around_comment(src, pos, p);
        let (k, s, e) = pull(src, pos);
        let rest = pulls_from(src, e);
        assert(all[0] == pull(src, pos));
        if k is Unterminated {
            assert(rest.len() == 0);
        } else if s >= find_char(src, p, '\n') {
            lemma_pulls_start_after(src, e);
            assert forall|i: int| 0 <= i < all.len() && (#[trigger] all[i]).0 is Token implies all[i].2
                <= p || all[i].1 >= find_char(src, p, '\n') by {
                if i > 0 {
                    assert(all[i] == rest[i - 1]);
                }
            }
        } else {
            assert(e <= p);
            assert forall|i: int|
                0 <= i < rest.len() && #[trigger] rest[i].0 == Step::Token(
                    TokenKind::String,
                ) implies !(rest[i].1 <= p < rest[i].2) by {
                assert(rest[i] == all[i + 1]);
            }
            lemma_comment_hides_from(src, e, p);
            assert forall|i: int| 0 <= i < all.len() && (#[trigger] all[i]).0 is Token implies all[i].2
                <= p || all[i].1 >= find_char(src, p, '\n') by {
                if i > 0 {
                    assert(all[i] == rest[i - 1]);
                }
            }
        }
    }
}

/// A comment hides the rest of its line: of the tokens that a full scan
/// hands out, none overlaps the characters from a `//` up to the next line
/// break, unless the `//` lies inside a string literal.
pub proof fn lemma_comment_hides_line(src: Seq<char>, p: int)
    requires
        0 <= p,
        p + 1 < src.len(),
        src[p] == '/',
        src[p + 1] == '/',
        forall|i: int|
            0 <= i < pulls_from(src, 0).len() && #[trigger] pulls_from(src, 0)[i].0
                == Step::Token(TokenKind::String) ==> !(pulls_from(src, 0)[i].1 <= p
                < pulls_from(src, 0)[i].2),
    ensures
        forall|i: int|
            0 <= i < pulls_from(src, 0).len() && (#[trigger] pulls_from(src, 0)[i]).0 is Token
                ==> pulls_from(src, 0)[i].2 <= p || pulls_from(src, 0)[i].1 >= find_char(
                src,
                p,
                '\n',
            ),
{
    lemma_comment_hides_from(src, 0, p);
}

/// Whether `r` is what a pull that found `p` in `src` hands out.
pub open spec fn delivers<'a>(
    r: Option<Result<Token, ScanError<'a>>>,
    src: Seq<char>,
    p: (Step, int, int),
) -> bool {
    match r {
        None => p.0 is End,
        Some(Ok(t)) => {
            &&& p.0 == Step::Token(t.kind)
            &&& t.lexeme@ == src.subrange(p.1, p.2)
            &&& t.offset == p.1
        },
        Some(Err(ScanError::UnexpectedCharacter(e))) => {
            &&& p.0 is Unexpected
            &&& e.token == src[p.1]
            &&& e.source_code@ == src
            &&& e.source_code_idx == p.1
        },
        Some(Err(ScanError::UnterminatedString(e))) => {
            &&& p.0 is Unterminated
            &&& e.source_code@ == src
            &&& e.source_code_idx == p.1
        },
    }
}

/// A pull-based scanner over one source buffer.
#[derive(Debug)]
pub struct Scanner<'a> {
    source_code: &'a str,
    chars: Vec<char>,
    pos: usize,
}

fn punctuation_kind(c: char) -> (r: Option<TokenKind>)
    ensures
        r == punctuation(c),
{
    match c {
        '(' => Some(TokenKind::LeftParen),
        ')' => Some(TokenKind::RightParen),
        '{' => Some(TokenKind::LeftBrace),
        '}' => Some(TokenKind::RightBrace),
        '*' => Some(TokenKind::Star),
        '.' => Some(TokenKind::Dot),
        ',' => Some(TokenKind::Comma),
        '+' => Some(TokenKind::Plus),
        '-' => Some(TokenKind::Minus),
        ';' => Some(TokenKind::Semicolon),
        _ => None,
    }
}

fn operator_kinds(c: char) -> (r: Option<(TokenKind, TokenKind)>)
    ensures
        r == operator(c),
{
    match c {
        '!' => Some((TokenKind::BangEqual, TokenKind::Bang)),
        '<' => Some((TokenKind::LessEqual, TokenKind::Less)),
        '>' => Some((TokenKind::GreaterEqual, TokenKind::Greater)),
        '=' => Some((TokenKind::EqualEqual, TokenKind::Equal)),
        _ => None,
    }
}

impl<'a> Scanner<'a> {
    /// The source text being scanned.
    pub closed spec fn text(&self) -> Seq<char> {
        self.source_code@
    }

    /// Index of the first character not yet consumed.
    pub closed spec fn position(&self) -> int {
        self.pos as int
    }

    pub closed spec fn wf(&self) -> bool {
        &&& self.chars@ == self.source_code@
        &&& self.pos <= self.chars.len()
    }

    /// A scanner at the start of `input`.
    pub fn new(input: &'a str) -> (s: Self)
        ensures
            s.wf(),
            s.text() == input@,
            s.position() == 0,
    {
        let chars = chars_of(input);
        Scanner { source_code: input, chars, pos: 0 }
    }

    fn token(&self, kind: TokenKind, start: usize) -> (t: Token)
        requires
            self.wf(),
            start <= self.pos,
        ensures
            t.kind == kind,
            t.offset == start,
            t.lexeme@ == self.text().subrange(start as int, self.pos as int),
    {
        Token { kind, lexeme: string_of(&self.chars, start, self.pos), offset: start }
    }

    /// Pulls the next token or error; `None` once the input is exhausted.
    /// White space and comments are passed over. An error does not stop the
    /// scan: the next pull goes on after it.
    pub fn next(&mut self) -> (r: Option<Result<Token, ScanError<'a>>>)
        requires
            old(self).wf(),
        ensures
            final(self).wf(),
            final(self).text() == old(self).text(),
            final(self).position() == pull(old(self).text(), old(self).position()).2,
            delivers(r, old(self).text(), pull(old(self).text(), old(self).position())),
    {
        let ghost src = self.text();
        let ghost p = pull(src, self.position());
        loop
            invariant
                self.wf(),
                self.text() == src,
                src == old(self).text(),
                p == pull(old(self).text(), old(self).position()),
                pull(src, self.position()) == p,
            decreases self.chars@.len() - self.pos,
        {
            let len = self.chars.len();
            if self.pos >= len {
                return None;
            }
            let start = self.pos;
            let c = self.chars[start];
            proof {
                lemma_step_advances(src, start as int);
            }
            if let Some(k) = punctuation_kind(c) {
                self.pos = start + 1;
                return Some(Ok(self.token(k, start)));
            }
            if let Some((doubled, single)) = operator_kinds(c) {
                if start + 1 < len && self.chars[start + 1] == '=' {
                    self.pos = start + 2;
                    return Some(Ok(self.token(doubled, start)));
                }
                self.pos = start + 1;
                return Some(Ok(self.token(single, start)));
            }
            if c == '/' {
                if start + 1 < len && self.chars[start + 1] == '/' {
                    self.pos = find_in(&self.chars, start + 1, '\n');
                    continue;
                }
                self.pos = start + 1;
                return Some(Ok(self.token(TokenKind::Slash, start)));
            }
            if c == '"' {
                let q = find_in(&self.chars, start + 1, '"');
                if q < len {
                    self.pos = q + 1;
                    return Some(Ok(self.token(TokenKind::String, start)));
                }
                self.pos = len;
                return Some(
                    Err(
                        ScanError::UnterminatedString(
                            UnterminatedStringError {
                                source_code: self.source_code,
                                source_code_idx: start,
                            },
                        ),
                    ),
                );
            }
            if digit(c) {
                let mut k: usize = start + 1;
                let mut seen_dot = false;
                while k < len && (digit(self.chars[k]) || (self.chars[k] == '.' && !seen_dot))
                    invariant
                        self.wf(),
                        self.text() == src,
                        start < k <= len == src.len(),
                        number_end(src, k as int, seen_dot) == number_end(src, start as int, false),
                    decreases len - k,
                {
                    if self.chars[k] == '.' {
                        seen_dot = true;
                    }
                    k += 1;
                }
                self.pos = k;
                return Some(Ok(self.token(TokenKind::Number, start)));
            }
            if ident_start(c) {
                let mut k: usize = start + 1;
                while k < len && ident_char(self.chars[k])
                    invariant
                        self.wf(),
                        self.text() == src,
                        start < k <= len == src.len(),
                        word_end(src, k as int) == word_end(src, start as int),
                    decreases len - k,
                {
                    k += 1;
                }
                let kind = word_kind(&self.chars, start, k);
                self.pos = k;
                return Some(Ok(self.token(kind, start)));
            }
            if white_space(c) {
                self.pos = start + 1;
                continue;
            }
            self.pos = start + 1;
            return Some(
                Err(
                    ScanError::UnexpectedCharacter(
                        SingleTokenError {
                            token: c,
                            source_code: self.source_code,
                            source_code_idx: start,
                        },
                    ),
                ),
            );
        }
    }
}

} // verus!
