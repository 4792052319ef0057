//! Lexical analysis and expression parsing for a small scripting language:
//! source text becomes tokens, one per pull, and tokens become expression
//! trees for literals, groupings and unary prefix operators.
pub mod parser;
pub mod scanner;
pub mod scanner_error;
pub mod text;
pub mod token;

pub use parser::{ParseError, Parser, TokenType};
pub use scanner::Scanner;
pub use scanner_error::{ScanError, SingleTokenError, UnterminatedStringError};
pub use token::{Token, TokenKind};
