//! Lexical tokens and their textual rendering.
use vstd::prelude::*;
use crate::text::{chars_of, find_char, find_in, push_char};

verus! {

/// The category of a token.
#[derive(Clone, Copy, Debug, PartialEq, Eq, Structural)]
pub enum TokenKind {
    LeftParen,
    RightParen,
    LeftBrace,
    RightBrace,
    Star,
    Dot,
    Comma,
    Plus,
    Minus,
    Semicolon,
    Equal,
    EqualEqual,
    Bang,
    BangEqual,
    LessEqual,
    Less,
    GreaterEqual,
    Greater,
    Slash,
    String,
    Number,
    Identifier,
    And,
    Class,
    Else,
    False,
    For,
    Fun,
    If,
    Nil,
    Or,
    Print,
    Return,
    Super,
    This,
    True,
    Var,
    While,
}

/// A classified lexeme: its kind, its exact text and the character offset in
/// the source where it starts.
#[derive(Debug)]
pub struct Token {
    pub kind: TokenKind,
    pub lexeme: String,
    pub offset: usize,
}

/// The upper snake case name of a kind, as it appears in a token listing.
pub open spec fn kind_name(k: TokenKind) -> Seq<char> {
    match k {
        TokenKind::LeftParen => "LEFT_PAREN"@,
        TokenKind::RightParen => "RIGHT_PAREN"@,
        TokenKind::LeftBrace => "LEFT_BRACE"@,
        TokenKind::RightBrace => "RIGHT_BRACE"@,
        TokenKind::Star => "STAR"@,
        TokenKind::Dot => "DOT"@,
        TokenKind::Comma => "COMMA"@,
        TokenKind::Plus => "PLUS"@,
        TokenKind::Minus => "MINUS"@,
        TokenKind::Semicolon => "SEMICOLON"@,
        TokenKind::Equal => "EQUAL"@,
        TokenKind::EqualEqual => "EQUAL_EQUAL"@,
        TokenKind::Bang => "BANG"@,
        TokenKind::BangEqual => "BANG_EQUAL"@,
        TokenKind::LessEqual => "LESS_EQUAL"@,
        TokenKind::Less => "LESS"@,
        TokenKind::GreaterEqual => "GREATER_EQUAL"@,
        TokenKind::Greater => "GREATER"@,
        TokenKind::Slash => "SLASH"@,
        TokenKind::String => "STRING"@,
        TokenKind::Number => "NUMBER"@,
        TokenKind::Identifier => "IDENTIFIER"@,
        TokenKind::And => "AND"@,
        TokenKind::Class => "CLASS"@,
        TokenKind::Else => "ELSE"@,
        TokenKind::False => "FALSE"@,
        TokenKind::For => "FOR"@,
        TokenKind::Fun => "FUN"@,
        TokenKind::If => "IF"@,
        TokenKind::Nil => "NIL"@,
        TokenKind::Or => "OR"@,
        TokenKind::Print => "PRINT"@,
        TokenKind::Return => "RETURN"@,
        TokenKind::Super => "SUPER"@,
        TokenKind::This => "THIS"@,
        TokenKind::True => "TRUE"@,
        TokenKind::Var => "VAR"@,
        TokenKind::While => "WHILE"@,
    }
}

/// The kind of a word: one of the reserved keywords, else an identifier.
pub open spec fn keyword_kind(w: Seq<char>) -> TokenKind {
    if w == "and"@ {
        TokenKind::And
    } else if w == "class"@ {
        TokenKind::Class
    } else if w == "else"@ {
        TokenKind::Else
    } else if w == "false"@ {
        TokenKind::False
    } else if w == "for"@ {
        TokenKind::For
    } else if w == "fun"@ {
        TokenKind::Fun
    } else if w == "if"@ {
        TokenKind::If
    } else if w == "nil"@ {
        TokenKind::Nil
    } else if w == "or"@ {
        TokenKind::Or
    } else if w == "print"@ {
        TokenKind::Print
    } else if w == "return"@ {
        TokenKind::Return
    } else if w == "super"@ {
        TokenKind::Super
    } else if w == "this"@ {
        TokenKind::This
    } else if w == "true"@ {
        TokenKind::True
    } else if w == "var"@ {
        TokenKind::Var
    } else if w == "while"@ {
        TokenKind::While
    } else {
        TokenKind::Identifier
    }
}

/// `s` without its leading `0` digits.
pub open spec fn trim_leading_zeros(s: Seq<char>) -> Seq<char>
    decreases s.len(),
{
    if s.len() > 0 && s[0] == '0' {
        trim_leading_zeros(s.drop_first())
    } else {
        s
    }
}

/// `s` without its trailing `0` digits.
pub open spec fn trim_trailing_zeros(s: Seq<char>) -> Seq<char>
    decreases s.len(),
{
    if s.len() > 0 && s.last() == '0' {
        trim_trailing_zeros(s.drop_last())
    } else {
        s
    }
}

/// `s`, or a single `0` when `s` is empty.
pub open spec fn or_zero(s: Seq<char>) -> Seq<char> {
    if s.len() == 0 {
        seq!['0']
    } else {
        s
    }
}

/// The digits of a number lexeme before its decimal point.
pub open spec fn integral_digits(s: Seq<char>) -> Seq<char> {
    s.take(find_char(s, 0, '.'))
}

/// The digits of a number lexeme after its decimal point (none without one).
pub open spec fn fraction_digits(s: Seq<char>) -> Seq<char> {
    let d = find_char(s, 0, '.');
    if d < s.len() {
        s.subrange(d + 1, s.len() as int)
    } else {
        seq![]
    }
}

/// The value of a number lexeme in decimal notation: no superfluous zeros and
/// at least one fractional digit, so `123` reads `123.0` and `1.50` reads `1.5`.
pub open spec fn number_text(s: Seq<char>) -> Seq<char> {
    or_zero(trim_leading_zeros(integral_digits(s))) + seq!['.'] + or_zero(
        trim_trailing_zeros(fraction_digits(s)),
    )
}

/// A string lexeme without its first and last characters (the quotes).
pub open spec fn unquoted(s: Seq<char>) -> Seq<char> {
    if s.len() >= 2 {
        s.subrange(1, s.len() - 1)
    } else {
        seq![]
    }
}

/// The literal column of a token listing.
pub open spec fn literal_text(k: TokenKind, lexeme: Seq<char>) -> Seq<char> {
    match k {
        TokenKind::String => unquoted(lexeme),
        TokenKind::Number => number_text(lexeme),
        _ => "null"@,
    }
}

/// One line of a token listing: `<KIND> <lexeme> <literal>`.
pub open spec fn token_text(k: TokenKind, lexeme: Seq<char>) -> Seq<char> {
    kind_name(k) + seq![' '] + lexeme + seq![' '] + literal_text(k, lexeme)
}

proof fn lemma_trim_leading_step(s: Seq<char>, i: int, d: int)
    requires
        0 <= i < d <= s.len(),
        s[i] == '0',
    ensures
        trim_leading_zeros(s.subrange(i, d)) == trim_leading_zeros(s.subrange(i + 1, d)),
{
    assert(s.subrange(i, d).drop_first() =~= s.subrange(i + 1, d));
}

proof fn lemma_trim_trailing_step(s: Seq<char>, f: int, e: int)
    requires
        0 <= f < e <= s.len(),
        s[e - 1] == '0',
    ensures
        trim_trailing_zeros(s.subrange(f, e)) == trim_trailing_zeros(s.subrange(f, e - 1)),
{
    assert(s.subrange(f, e).drop_last() =~= s.subrange(f, e - 1));
}

/// Appends `text[start..end]` to `r`.
fn push_range(r: &mut String, text: &Vec<char>, start: usize, end: usize)
    requires
        start <= end <= text@.len(),
    ensures
        final(r)@ == old(r)@ + text@.subrange(start as int, end as int),
{
    let mut k: usize = start;
    while k < end
        invariant
            start <= k <= end <= text@.len(),
            r@ == old(r)@ + text@.subrange(start as int, k as int),
        decreases end - k,
    {
        push_char(r, text[k]);
        k += 1;
        assert(r@ =~= old(r)@ + text@.subrange(start as int, k as int));
    }
}

/// The value of the number lexeme `lexeme` in decimal notation.
pub fn number_literal_text(lexeme: &str) -> (r: String)
    ensures
        r@ == number_text(lexeme@),
{
    let v = chars_of(lexeme);
    let len = v.len();
    let d = find_in(&v, 0, '.');
    proof {
        crate::text::lemma_find_char(v@, 0, '.');
    }
    let mut i: usize = 0;
    while i < d && v[i] == '0'
        invariant
            i <= d <= len == v@.len(),
            d == find_char(v@, 0, '.'),
            trim_leading_zeros(v@.subrange(i as int, d as int)) == trim_leading_zeros(
                integral_digits(v@),
            ),
        decreases d - i,
    {
        proof {
            lemma_trim_leading_step(v@, i as int, d as int);
        }
        i += 1;
    }
    assert(v@.subrange(0, d as int) =~= integral_digits(v@));
    let mut r = String::new();
    if i == d {
        push_char(&mut r, '0');
    } else {
        push_range(&mut r, &v, i, d);
    }
    push_char(&mut r, '.');
    let f: usize = if d < len {
        d + 1
    } else {
        d
    };
    let mut e: usize = len;
    assert(v@.subrange(f as int, len as int) =~= fraction_digits(v@));
    while e > f && v[e - 1] == '0'
        invariant
            f <= e <= len == v@.len(),
            trim_trailing_zeros(v@.subrange(f as int, e as int)) == trim_trailing_zeros(
                fraction_digits(v@),
            ),
        decreases e - f,
    {
        proof {
            lemma_trim_trailing_step(v@, f as int, e as int);
        }
        e -= 1;
    }
    proof {
        let t = v@.subrange(i as int, d as int);
        if t.len() > 0 {
            assert(t[0] != '0');
        }
        let u = v@.subrange(f as int, e as int);
        if u.len() > 0 {
            assert(u.last() != '0');
        }
    }
    if e == f {
        push_char(&mut r, '0');
    } else {
        push_range(&mut r, &v, f, e);
    }
    assert(r@ =~= number_text(lexeme@));
    r
}

impl TokenKind {
    /// The upper snake case name of this kind.
    pub fn name(&self) -> (r: &'static str)
        ensures
            r@ == kind_name(*self),
    {
        match self {
            TokenKind::LeftParen => "LEFT_PAREN",
            TokenKind::RightParen => "RIGHT_PAREN",
            TokenKind::LeftBrace => "LEFT_BRACE",
            TokenKind::RightBrace => "RIGHT_BRACE",
            TokenKind::Star => "STAR",
            TokenKind::Dot => "DOT",
            TokenKind::Comma => "COMMA",
            TokenKind::Plus => "PLUS",
            TokenKind::Minus => "MINUS",
            TokenKind::Semicolon => "SEMICOLON",
            TokenKind::Equal => "EQUAL",
            TokenKind::EqualEqual => "EQUAL_EQUAL",
            TokenKind::Bang => "BANG",
            TokenKind::BangEqual => "BANG_EQUAL",
            TokenKind::LessEqual => "LESS_EQUAL",
            TokenKind::Less => "LESS",
            TokenKind::GreaterEqual => "GREATER_EQUAL",
            TokenKind::Greater => "GREATER",
            TokenKind::Slash => "SLASH",
            TokenKind::String => "STRING",
            TokenKind::Number => "NUMBER",
            TokenKind::Identifier => "IDENTIFIER",
            TokenKind::And => "AND",
            TokenKind::Class => "CLASS",
            TokenKind::Else => "ELSE",
            TokenKind::False => "FALSE",
            TokenKind::For => "FOR",
            TokenKind::Fun => "FUN",
            TokenKind::If => "IF",
            TokenKind::Nil => "NIL",
            TokenKind::Or => "OR",
            TokenKind::Print => "PRINT",
            TokenKind::Return => "RETURN",
            TokenKind::Super => "SUPER",
            TokenKind::This => "THIS",
            TokenKind::True => "TRUE",
            TokenKind::Var => "VAR",
            TokenKind::While => "WHILE",
        }
    }
}

/// Whether `text[start..end]` spells out `w`.
fn spells(text: &Vec<char>, start: usize, end: usize, w: &str) -> (r: bool)
    requires
        start <= end <= text@.len(),
    ensures
        r == (text@.subrange(start as int, end as int) == w@),
{
    let n = w.unicode_len();
    if end - start != n {
        return false;
    }
    let mut k: usize = 0;
    while k < n
        invariant
            n == w@.len() == end - start,
            start <= end <= text@.len(),
            k <= n,
            forall|j: int| 0 <= j < k ==> text@[start + j] == w@[j],
        decreases n - k,
    {
        if text[start + k] != w.get_char(k) {
            assert(text@.subrange(start as int, end as int)[k as int] != w@[k as int]);
            return false;
        }
        k += 1;
    }
    assert(text@.subrange(start as int, end as int) =~= w@);
    true
}

/// The kind of the word `text[start..end]`: a keyword, else an identifier.
pub fn word_kind(text: &Vec<char>, start: usize, end: usize) -> (r: TokenKind)
    requires
        start <= end <= text@.len(),
    ensures
        r == keyword_kind(text@.subrange(start as int, end as int)),
{
    if spells(text, start, end, "and") {
        TokenKind::And
    } else if spells(text, start, end, "class") {
        TokenKind::Class
    } else if spells(text, start, end, "else") {
        TokenKind::Else
    } else if spells(text, start, end, "false") {
        TokenKind::False
    } else if spells(text, start, end, "for") {
        TokenKind::For
    } else if spells(text, start, end, "fun") {
        TokenKind::Fun
    } else if spells(text, start, end, "if") {
        TokenKind::If
    } else if spells(text, start, end, "nil") {
        TokenKind::Nil
    } else if spells(text, start, end, "or") {
        TokenKind::Or
    } else if spells(text, start, end, "print") {
        TokenKind::Print
    } else if spells(text, start, end, "return") {
        TokenKind::Return
    } else if spells(text, start, end, "super") {
        TokenKind::Super
    } else if spells(text, start, end, "this") {
        TokenKind::This
    } else if spells(text, start, end, "true") {
        TokenKind::True
    } else if spells(text, start, end, "var") {
        TokenKind::Var
    } else if spells(text, start, end, "while") {
        TokenKind::While
    } else {
        TokenKind::Identifier
    }
}

/// The quoted text of a string lexeme without its quotes.
pub fn unquoted_text(lexeme: &str) -> (r: &str)
    ensures
        r@ == unquoted(lexeme@),
{
    let n = lexeme.unicode_len();
    if n >= 2 {
        lexeme.substring_char(1, n - 1)
    } else {
        lexeme.substring_char(0, 0)
    }
}

impl Token {
    /// The token's line in a token listing, e.g. `NUMBER 123 123.0` or
    /// `LEFT_PAREN ( null`. Reads the token only.
    pub fn render(&self) -> (r: String)
        ensures
            r@ == token_text(self.kind, self.lexeme@),
    {
        let mut r = String::from_str(self.kind.name());
        push_char(&mut r, ' ');
        r.append(self.lexeme.as_str());
        push_char(&mut r, ' ');
        match self.kind {
            TokenKind::String => r.append(unquoted_text(self.lexeme.as_str())),
            TokenKind::Number => {
                let t = number_literal_text(self.lexeme.as_str());
                r.append(t.as_str());
            },
            _ => r.append("null"),
        }
        assert(r@ =~= token_text(self.kind, self.lexeme@));
        r
    }
}

/// Rendering a token reads its kind and lexeme and nothing else: tokens that
/// hold the same data render to the same line, however often and whenever
/// it is asked.
pub proof fn lemma_token_render_pure(a: &Token, b: &Token)
    requires
        a.kind == b.kind,
        a.lexeme@ == b.lexeme@,
    ensures
        token_text(a.kind, a.lexeme@) == token_text(b.kind, b.lexeme@),
{
}

} // verus!
