//! The token alphabet of the language and the reserved-word table.

use vstd::prelude::*;

verus! {

/// One classified unit of source text.  A lexeme maps to exactly one variant;
/// reserved words always take priority over the generic identifier variant.
#[derive(Debug, PartialEq)]
pub enum Token {
    /// End of input; the only token returned once the buffer is exhausted.
    Eof,
    /// A generic identifier: 1 to 32 ASCII letters, digits or underscores.
    Id(String),
    /// A number literal, always non-negative at this layer (unary minus is a
    /// separate `Minus` token, composed by the parser).
    Number(i32),
    /// A string literal with the surrounding quotes stripped.
    StringLiteral(String),

    // keywords
    Array,
    Begin,
    Boolean,
    Call,
    Do,
    Else,
    Elsif,
    End,
    False,
    Function,
    Get,
    If,
    Integer,
    Leave,
    Not,
    Put,
    Relax,
    Source,
    Then,
    To,
    True,
    While,

    // relational operators
    Equal,
    GreaterEqual,
    GreaterThan,
    LessEqual,
    LessThan,
    NotEqual,

    // additive operators
    Minus,
    Or,
    Plus,

    // multiplicative operators
    And,
    Divide,
    Multiply,
    Remainder,

    // brackets, parentheses and other punctuation
    CloseBracket,
    CloseParenthesis,
    Comma,
    Concatenate,
    Gets,
    OpenBracket,
    OpenParenthesis,
    Semicolon,
}

/// The mathematical shape of a token: payloads are sequences of characters
/// and unbounded integers, so contracts can speak of lexemes directly.
pub ghost enum TokenModel {
    Eof,
    Id(Seq<char>),
    Number(int),
    StringLiteral(Seq<char>),

    Array,
    Begin,
    Boolean,
    Call,
    Do,
    Else,
    Elsif,
    End,
    False,
    Function,
    Get,
    If,
    Integer,
    Leave,
    Not,
    Put,
    Relax,
    Source,
    Then,
    To,
    True,
    While,

    Equal,
    GreaterEqual,
    GreaterThan,
    LessEqual,
    LessThan,
    NotEqual,

    Minus,
    Or,
    Plus,

    And,
    Divide,
    Multiply,
    Remainder,

    CloseBracket,
    CloseParenthesis,
    Comma,
    Concatenate,
    Gets,
    OpenBracket,
    OpenParenthesis,
    Semicolon,
}

impl View for Token {
    type V = TokenModel;

    open spec fn view(&self) -> TokenModel {
        match self {
            Token::Eof => TokenModel::Eof,
            Token::Id(s) => TokenModel::Id(s@),
            Token::Number(n) => TokenModel::Number(*n as int),
            Token::StringLiteral(s) => TokenModel::StringLiteral(s@),
            Token::Array => TokenModel::Array,
            Token::Begin => TokenModel::Begin,
            Token::Boolean => TokenModel::Boolean,
            Token::Call => TokenModel::Call,
            Token::Do => TokenModel::Do,
            Token::Else => TokenModel::Else,
            Token::Elsif => TokenModel::Elsif,
            Token::End => TokenModel::End,
            Token::False => TokenModel::False,
            Token::Function => TokenModel::Function,
            Token::Get => TokenModel::Get,
            Token::If => TokenModel::If,
            Token::Integer => TokenModel::Integer,
            Token::Leave => TokenModel::Leave,
            Token::Not => TokenModel::Not,
            Token::Put => TokenModel::Put,
            Token::Relax => TokenModel::Relax,
            Token::Source => TokenModel::Source,
            Token::Then => TokenModel::Then,
            Token::To => TokenModel::To,
            Token::True => TokenModel::True,
            Token::While => TokenModel::While,
            Token::Equal => TokenModel::Equal,
            Token::GreaterEqual => TokenModel::GreaterEqual,
            Token::GreaterThan => TokenModel::GreaterThan,
            Token::LessEqual => TokenModel::LessEqual,
            Token::LessThan => TokenModel::LessThan,
            Token::NotEqual => TokenModel::NotEqual,
            Token::Minus => TokenModel::Minus,
            Token::Or => TokenModel::Or,
            Token::Plus => TokenModel::Plus,
            Token::And => TokenModel::And,
            Token::Divide => TokenModel::Divide,
            Token::Multiply => TokenModel::Multiply,
            Token::Remainder => TokenModel::Remainder,
            Token::CloseBracket => TokenModel::CloseBracket,
            Token::CloseParenthesis => TokenModel::CloseParenthesis,
            Token::Comma => TokenModel::Comma,
            Token::Concatenate => TokenModel::Concatenate,
            Token::Gets => TokenModel::Gets,
            Token::OpenBracket => TokenModel::OpenBracket,
            Token::OpenParenthesis => TokenModel::OpenParenthesis,
            Token::Semicolon => TokenModel::Semicolon,
        }
    }
}

/// The characters of an ASCII lexeme, byte for byte.
pub open spec fn ascii_str(bs: Seq<u8>) -> Seq<char> {
    bs.map_values(|b: u8| b as char)
}

/// Relies on String::push: it appends exactly the given character.
#[verifier::external_body]
fn push_char(s: &mut String, c: char)
    ensures
        final(s)@ == old(s)@.push(c),
{
    s.push(c);
}

/// Builds the owned text of a lexeme, one character per byte.
pub(crate) fn bytes_to_string(b: &[u8]) -> (r: String)
    ensures
        r@ == ascii_str(b@),
{
    let mut r = String::new();
    let mut k: usize = 0;
    while k < b.len()
        invariant
            k <= b@.len(),
            r@ == ascii_str(b@.subrange(0, k as int)),
        decreases b@.len() - k,
    {
        push_char(&mut r, b[k] as char);
        k = k + 1;
        proof {
            assert(r@ =~= ascii_str(b@.subrange(0, k as int)));
        }
    }
    proof {
        assert(b@.subrange(0, k as int) =~= b@);
    }
    r
}

/// The reserved-word table: the keyword token for `w`, or `None` when `w` is
/// no reserved word.  Reserved words are lowercase and matched exactly.
pub open spec fn keyword_token(w: Seq<u8>) -> Option<TokenModel> {
    if w.len() == 2 {
        if w[0] == 'd' as u8 && w[1] == 'o' as u8 {
            Some(TokenModel::Do)
        } else if w[0] == 'i' as u8 && w[1] == 'f' as u8 {
            Some(TokenModel::If)
        } else if w[0] == 'o' as u8 && w[1] == 'r' as u8 {
            Some(TokenModel::Or)
        } else if w[0] == 't' as u8 && w[1] == 'o' as u8 {
            Some(TokenModel::To)
        } else {
            None
        }
    } else if w.len() == 3 {
        if w[0] == 'a' as u8 && w[1] == 'n' as u8 && w[2] == 'd' as u8 {
            Some(TokenModel::And)
        } else if w[0] == 'e' as u8 && w[1] == 'n' as u8 && w[2] == 'd' as u8 {
            Some(TokenModel::End)
        } else if w[0] == 'g' as u8 && w[1] == 'e' as u8 && w[2] == 't' as u8 {
            Some(TokenModel::Get)
        } else if w[0] == 'n' as u8 && w[1] == 'o' as u8 && w[2] == 't' as u8 {
            Some(TokenModel::Not)
        } else if w[0] == 'p' as u8 && w[1] == 'u' as u8 && w[2] == 't' as u8 {
            Some(TokenModel::Put)
        } else if w[0] == 'r' as u8 && w[1] == 'e' as u8 && w[2] == 'm' as u8 {
            Some(TokenModel::Remainder)
        } else {
            None
        }
    } else if w.len() == 4 {
        if w[0] == 'c' as u8 && w[1] == 'a' as u8 && w[2] == 'l' as u8 && w[3] == 'l' as u8 {
            Some(TokenModel::Call)
        } else if w[0] == 'e' as u8 && w[1] == 'l' as u8 && w[2] == 's' as u8 && w[3] == 'e' as u8 {
            Some(TokenModel::Else)
        } else if w[0] == 't' as u8 && w[1] == 'h' as u8 && w[2] == 'e' as u8 && w[3] == 'n' as u8 {
            Some(TokenModel::Then)
        } else if w[0] == 't' as u8 && w[1] == 'r' as u8 && w[2] == 'u' as u8 && w[3] == 'e' as u8 {
            Some(TokenModel::True)
        } else {
            None
        }
    } else if w.len() == 5 {
        if w[0] == 'a' as u8 && w[1] == 'r' as u8 && w[2] == 'r' as u8 && w[3] == 'a' as u8 && w[4] == 'y' as u8 {
            Some(TokenModel::Array)
        } else if w[0] == 'b' as u8 && w[1] == 'e' as u8 && w[2] == 'g' as u8 && w[3] == 'i' as u8 && w[4] == 'n' as u8 {
            Some(TokenModel::Begin)
        } else if w[0] == 'e' as u8 && w[1] == 'l' as u8 && w[2] == 's' as u8 && w[3] == 'i' as u8 && w[4] == 'f' as u8 {
            Some(TokenModel::Elsif)
        } else if w[0] == 'f' as u8 && w[1] == 'a' as u8 && w[2] == 'l' as u8 && w[3] == 's' as u8 && w[4] == 'e' as u8 {
            Some(TokenModel::False)
        } else if w[0] == 'l' as u8 && w[1] == 'e' as u8 && w[2] == 'a' as u8 && w[3] == 'v' as u8 && w[4] == 'e' as u8 {
            Some(TokenModel::Leave)
        } else if w[0] == 'r' as u8 && w[1] == 'e' as u8 && w[2] == 'l' as u8 && w[3] == 'a' as u8 && w[4] == 'x' as u8 {
            Some(TokenModel::Relax)
        } else if w[0] == 'w' as u8 && w[1] == 'h' as u8 && w[2] == 'i' as u8 && w[3] == 'l' as u8 && w[4] == 'e' as u8 {
            Some(TokenModel::While)
        } else {
            None
        }
    } else if w.len() == 6 {
        if w[0] == 's' as u8 && w[1] == 'o' as u8 && w[2] == 'u' as u8 && w[3] == 'r' as u8 && w[4] == 'c' as u8 && w[5]
            == 'e' as u8 {
            Some(TokenModel::Source)
        } else {
            None
        }
    } else if w.len() == 7 {
        if w[0] == 'b' as u8 && w[1] == 'o' as u8 && w[2] == 'o' as u8 && w[3] == 'l' as u8 && w[4] == 'e' as u8 && w[5]
            == 'a' as u8 && w[6] == 'n' as u8 {
            Some(TokenModel::Boolean)
        } else if w[0] == 'i' as u8 && w[1] == 'n' as u8 && w[2] == 't' as u8 && w[3] == 'e' as u8 && w[4] == 'g' as u8
            && w[5] == 'e' as u8 && w[6] == 'r' as u8 {
            Some(TokenModel::Integer)
        } else {
            None
        }
    } else if w.len() == 8 {
        if w[0] == 'f' as u8 && w[1] == 'u' as u8 && w[2] == 'n' as u8 && w[3] == 'c' as u8 && w[4] == 't' as u8 && w[5]
            == 'i' as u8 && w[6] == 'o' as u8 && w[7] == 'n' as u8 {
            Some(TokenModel::Function)
        } else {
            None
        }
    } else {
        None
    }
}

/// The token an identifier-shaped lexeme classifies as: its keyword token
/// when `w` is a reserved word, else a generic identifier with that text.
pub open spec fn word_token(w: Seq<u8>) -> TokenModel {
    match keyword_token(w) {
        Some(t) => t,
        None => TokenModel::Id(ascii_str(w)),
    }
}

/// Looks an identifier-shaped lexeme up in the reserved-word table.
pub(crate) fn keyword_lookup(w: &[u8]) -> (t: Option<Token>)
    ensures
        match keyword_token(w@) {
            Some(m) => t matches Some(k) && k@ == m,
            None => t is None,
        },
{
    let n = w.len();
    if n == 2 {
        if w[0] == 'd' as u8 && w[1] == 'o' as u8 {
            Some(Token::Do)
        } else if w[0] == 'i' as u8 && w[1] == 'f' as u8 {
            Some(Token::If)
        } else if w[0] == 'o' as u8 && w[1] == 'r' as u8 {
            Some(Token::Or)
        } else if w[0] == 't' as u8 && w[1] == 'o' as u8 {
            Some(Token::To)
        } else {
            None
        }
    } else if n == 3 {
        if w[0] == 'a' as u8 && w[1] == 'n' as u8 && w[2] == 'd' as u8 {
            Some(Token::And)
        } else if w[0] == 'e' as u8 && w[1] == 'n' as u8 && w[2] == 'd' as u8 {
            Some(Token::End)
        } else if w[0] == 'g' as u8 && w[1] == 'e' as u8 && w[2] == 't' as u8 {
            Some(Token::Get)
        } else if w[0] == 'n' as u8 && w[1] == 'o' as u8 && w[2] == 't' as u8 {
            Some(Token::Not)
        } else if w[0] == 'p' as u8 && w[1] == 'u' as u8 && w[2] == 't' as u8 {
            Some(Token::Put)
        } else if w[0] == 'r' as u8 && w[1] == 'e' as u8 && w[2] == 'm' as u8 {
            Some(Token::Remainder)
        } else {
            None
        }
    } else if n == 4 {
        if w[0] == 'c' as u8 && w[1] == 'a' as u8 && w[2] == 'l' as u8 && w[3] == 'l' as u8 {
            Some(Token::Call)
        } else if w[0] == 'e' as u8 && w[1] == 'l' as u8 && w[2] == 's' as u8 && w[3] == 'e' as u8 {
            Some(Token::Else)
        } else if w[0] == 't' as u8 && w[1] == 'h' as u8 && w[2] == 'e' as u8 && w[3] == 'n' as u8 {
            Some(Token::Then)
        } else if w[0] == 't' as u8 && w[1] == 'r' as u8 && w[2] == 'u' as u8 && w[3] == 'e' as u8 {
            Some(Token::True)
        } else {
            None
        }
    } else if n == 5 {
        if w[0] == 'a' as u8 && w[1] == 'r' as u8 && w[2] == 'r' as u8 && w[3] == 'a' as u8 && w[4] == 'y' as u8 {
            Some(Token::Array)
        } else if w[0] == 'b' as u8 && w[1] == 'e' as u8 && w[2] == 'g' as u8 && w[3] == 'i' as u8 && w[4] == 'n' as u8 {
            Some(Token::Begin)
        } else if w[0] == 'e' as u8 && w[1] == 'l' as u8 && w[2] == 's' as u8 && w[3] == 'i' as u8 && w[4] == 'f' as u8 {
            Some(Token::Elsif)
        } else if w[0] == 'f' as u8 && w[1] == 'a' as u8 && w[2] == 'l' as u8 && w[3] == 's' as u8 && w[4] == 'e' as u8 {
            Some(Token::False)
        } else if w[0] == 'l' as u8 && w[1] == 'e' as u8 && w[2] == 'a' as u8 && w[3] == 'v' as u8 && w[4] == 'e' as u8 {
            Some(Token::Leave)
        } else if w[0] == 'r' as u8 && w[1] == 'e' as u8 && w[2] == 'l' as u8 && w[3] == 'a' as u8 && w[4] == 'x' as u8 {
            Some(Token::Relax)
        } else if w[0] == 'w' as u8 && w[1] == 'h' as u8 && w[2] == 'i' as u8 && w[3] == 'l' as u8 && w[4] == 'e' as u8 {
            Some(Token::While)
        } else {
            None
        }
    } else if n == 6 {
        if w[0] == 's' as u8 && w[1] == 'o' as u8 && w[2] == 'u' as u8 && w[3] == 'r' as u8 && w[4] == 'c' as u8 && w[5]
            == 'e' as u8 {
            Some(Token::Source)
        } else {
            None
        }
    } else if n == 7 {
        if w[0] == 'b' as u8 && w[1] == 'o' as u8 && w[2] == 'o' as u8 && w[3] == 'l' as u8 && w[4] == 'e' as u8 && w[5]
            == 'a' as u8 && w[6] == 'n' as u8 {
            Some(Token::Boolean)
        } else if w[0] == 'i' as u8 && w[1] == 'n' as u8 && w[2] == 't' as u8 && w[3] == 'e' as u8 && w[4] == 'g' as u8
            && w[5] == 'e' as u8 && w[6] == 'r' as u8 {
            Some(Token::Integer)
        } else {
            None
        }
    } else if n == 8 {
        if w[0] == 'f' as u8 && w[1] == 'u' as u8 && w[2] == 'n' as u8 && w[3] == 'c' as u8 && w[4] == 't' as u8 && w[5]
            == 'i' as u8 && w[6] == 'o' as u8 && w[7] == 'n' as u8 {
            Some(Token::Function)
        } else {
            None
        }
    } else {
        None
    }
}

} // verus!
