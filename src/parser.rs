//! Recursive descent over the scanner for literals, groupings and unary
//! prefix operators.
use vstd::prelude::*;
use crate::scanner::{delivers, lemma_pull_bounds, pull, Scanner, Step};
use crate::scanner_error::ScanError;
use crate::text::push_char;
use crate::token::{number_literal_text, number_text, unquoted, unquoted_text, Token, TokenKind};

verus! {

/// The mathematical form of an expression tree.
pub enum Node {
    Bool(bool),
    /// A number, by its lexeme.
    Number(Seq<char>),
    Nil,
    /// A string, by its lexeme, quotes included.
    Str(Seq<char>),
    /// A grouping or a unary operator over one operand.
    Labelled(Seq<char>, Box<Node>),
}

/// What one parse finds. Failures carry the pull that caused them: what it
/// found, where it started and where it ended.
pub enum Parsed {
    Expr(Node),
    /// The input ended where an expression was expected.
    EndOfInput,
    /// The pull found a scanning error.
    ScanFailed((Step, int, int)),
    /// The pull found a token that starts no expression of this grammar.
    Unsupported((Step, int, int)),
}

/// `inner` under a label, or the failure of `inner` unchanged.
pub open spec fn labelled(label: Seq<char>, inner: Parsed) -> Parsed {
    match inner {
        Parsed::Expr(n) => Parsed::Expr(Node::Labelled(label, Box::new(n))),
        _ => inner,
    }
}

/// Parses one expression from `pos`: what is found and where the parse ends.
pub open spec fn parse_at(src: Seq<char>, pos: int) -> (Parsed, int)
    decreases src.len() - pos,
{
    let p = pull(src, pos);
    let (found, start, end) = p;
    match found {
        Step::Token(kind) => {
            proof {
                lemma_pull_bounds(src, pos);
            }
            match kind {
                TokenKind::True => (Parsed::Expr(Node::Bool(true)), end),
                TokenKind::False => (Parsed::Expr(Node::Bool(false)), end),
                TokenKind::Nil => (Parsed::Expr(Node::Nil), end),
                TokenKind::Number => (Parsed::Expr(Node::Number(src.subrange(start, end))), end),
                TokenKind::String => (Parsed::Expr(Node::Str(src.subrange(start, end))), end),
                TokenKind::LeftParen => (
                    labelled("group"@, parse_at(src, end).0),
                    parse_at(src, end).1,
                ),
                TokenKind::Bang => (labelled("!"@, parse_at(src, end).0), parse_at(src, end).1),
                TokenKind::Minus => (labelled("-"@, parse_at(src, end).0), parse_at(src, end).1),
                _ => (Parsed::Unsupported(p), end),
            }
        },
        Step::End => (Parsed::EndOfInput, end),
        _ => (Parsed::ScanFailed(p), end),
    }
}

/// The rendering of an expression: `true`, `nil`, `123.0`, the text of a
/// string, `(<label> <operand>)`.
pub open spec fn node_text(n: Node) -> Seq<char>
    decreases n,
{
    match n {
        Node::Bool(b) => if b {
            "true"@
        } else {
            "false"@
        },
        Node::Number(l) => number_text(l),
        Node::Nil => "nil"@,
        Node::Str(l) => unquoted(l),
        Node::Labelled(label, inner) => seq!['('] + label + seq![' '] + node_text(*inner) + seq![
            ')',
        ],
    }
}

/// An expression tree.
#[derive(Debug)]
pub enum TokenType {
    Bool(bool),
    /// A number, by its lexeme.
    Number(String),
    Nil,
    /// A string, by its lexeme, quotes included.
    String(String),
    /// A grouping (`group`) or a unary operator (`!`, `-`) over its operand.
    Parenthesize(String, Box<TokenType>),
}

impl TokenType {
    pub open spec fn node(&self) -> Node
        decreases self,
    {
        match self {
            TokenType::Bool(b) => Node::Bool(*b),
            TokenType::Number(l) => Node::Number(l@),
            TokenType::Nil => Node::Nil,
            TokenType::String(l) => Node::Str(l@),
            TokenType::Parenthesize(label, inner) => Node::Labelled(label@, Box::new(inner.node())),
        }
    }

    /// The expression in its printed form, e.g. `(! true)`. Reads the tree only.
    pub fn render(&self) -> (r: String)
        ensures
            r@ == node_text(self.node()),
        decreases self,
    {
        match self {
            TokenType::Bool(b) => if *b {
                String::from_str("true")
            } else {
                String::from_str("false")
            },
            TokenType::Number(l) => number_literal_text(l.as_str()),
            TokenType::Nil => String::from_str("nil"),
            TokenType::String(l) => String::from_str(unquoted_text(l.as_str())),
            TokenType::Parenthesize(label, inner) => {
                let mut r = String::new();
                push_char(&mut r, '(');
                r.append(label.as_str());
                push_char(&mut r, ' ');
                let t = inner.render();
                r.append(t.as_str());
                push_char(&mut r, ')');
                assert(r@ =~= node_text(self.node()));
                r
            },
        }
    }
}

/// Rendering an expression reads the tree and nothing else: trees that hold
/// the same data render to the same text, however often and whenever it is
/// asked.
pub proof fn lemma_tree_render_pure(a: &TokenType, b: &TokenType)
    requires
        a.node() == b.node(),
    ensures
        node_text(a.node()) == node_text(b.node()),
{
}

/// Why no expression came out.
#[derive(Debug)]
pub enum ParseError<'a> {
    /// The input ended where an expression was expected.
    EndOfInput,
    /// The scanner failed; the error is passed on unchanged.
    Scan(ScanError<'a>),
    /// A token that starts no expression of this grammar.
    Unsupported(Token),
}

/// Whether `r` is what a parse that found `p` in `src` returns.
pub open spec fn yields<'a>(r: Result<TokenType, ParseError<'a>>, src: Seq<char>, p: Parsed) -> bool {
    match r {
        Ok(t) => p == Parsed::Expr(t.node()),
        Err(ParseError::EndOfInput) => p is EndOfInput,
        Err(ParseError::Scan(e)) => p is ScanFailed && delivers(
            Some(Err(e)),
            src,
            p->ScanFailed_0,
        ),
        Err(ParseError::Unsupported(t)) => p is Unsupported && delivers(
            Some(Ok(t)),
            src,
            p->Unsupported_0,
        ),
    }
}

/// A parser that owns its scanner and pulls from it on demand.
pub struct Parser<'a> {
    pub scanner: Scanner<'a>,
}

impl<'a> Parser<'a> {
    pub open spec fn wf(&self) -> bool {
        self.scanner.wf()
    }

    /// A parser at the start of `input`.
    pub fn new(input: &'a str) -> (p: Self)
        ensures
            p.wf(),
            p.scanner.text() == input@,
            p.scanner.position() == 0,
    {
        Parser { scanner: Scanner::new(input) }
    }

    /// Pulls one token and resolves it to an expression, parsing one more
    /// expression as the operand of `(`, `!` and `-`. A grouping does not
    /// consume a closing parenthesis.
    pub fn parse_expression(&mut self) -> (r: Result<TokenType, ParseError<'a>>)
        requires
            old(self).wf(),
        ensures
            final(self).wf(),
            final(self).scanner.text() == old(self).scanner.text(),
            final(self).scanner.position() == parse_at(
                old(self).scanner.text(),
                old(self).scanner.position(),
            ).1,
            yields(
                r,
                old(self).scanner.text(),
                parse_at(old(self).scanner.text(), old(self).scanner.position()).0,
            ),
        decreases old(self).scanner.text().len() - old(self).scanner.position(),
    {
        let ghost src = self.scanner.text();
        let ghost pos = self.scanner.position();
        proof {
            lemma_pull_bounds(src, pos);
        }
        let token = match self.scanner.next() {
            Some(Ok(t)) => t,
            Some(Err(e)) => return Err(ParseError::Scan(e)),
            None => return Err(ParseError::EndOfInput),
        };
        match token.kind {
            TokenKind::True => Ok(TokenType::Bool(true)),
            TokenKind::False => Ok(TokenType::Bool(false)),
            TokenKind::Nil => Ok(TokenType::Nil),
            TokenKind::Number => Ok(TokenType::Number(token.lexeme)),
            TokenKind::String => Ok(TokenType::String(token.lexeme)),
            TokenKind::LeftParen => {
                let inner = self.parse_expression()?;
                Ok(TokenType::Parenthesize(String::from_str("group"), Box::new(inner)))
            },
            TokenKind::Bang => {
                let inner = self.parse_expression()?;
                Ok(TokenType::Parenthesize(String::from_str("!"), Box::new(inner)))
            },
            TokenKind::Minus => {
                let inner = self.parse_expression()?;
                Ok(TokenType::Parenthesize(String::from_str("-"), Box::new(inner)))
            },
            _ => Err(ParseError::Unsupported(token)),
        }
    }
}

} // verus!
