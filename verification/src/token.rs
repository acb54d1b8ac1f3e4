//! The token model: the closed set of token kinds, the literal values a token
//! may carry, and the token itself, each with its mathematical view.

use vstd::prelude::*;
use vstd::string::*;

verus! {

/// The kind of a token.
#[derive(Debug, Clone, Copy, PartialEq, Eq, Hash, Structural)]
pub enum TokenType {
    // Single-character tokens.
    LeftParen,
    RightParen,
    LeftBrace,
    RightBrace,
    Comma,
    Dot,
    Minus,
    Plus,
    Semicolon,
    Slash,
    Star,
    // One or two character tokens.
    Bang,
    BangEqual,
    Equal,
    EqualEqual,
    Greater,
    GreaterEqual,
    Less,
    LessEqual,
    // Literals.
    Identifier,
    String,
    Number,
    // Keywords.
    And,
    Class,
    Else,
    False,
    Fun,
    For,
    If,
    Nil,
    Or,
    Print,
    Return,
    Super,
    This,
    True,
    Var,
    While,
    // End of input.
    Eof,
}

impl TokenType {
    /// The name of the kind, as it is written in a token's display form.
    pub open spec fn name_text(self) -> Seq<char> {
        match self {
            TokenType::LeftParen => "LeftParen"@,
            TokenType::RightParen => "RightParen"@,
            TokenType::LeftBrace => "LeftBrace"@,
            TokenType::RightBrace => "RightBrace"@,
            TokenType::Comma => "Comma"@,
            TokenType::Dot => "Dot"@,
            TokenType::Minus => "Minus"@,
            TokenType::Plus => "Plus"@,
            TokenType::Semicolon => "Semicolon"@,
            TokenType::Slash => "Slash"@,
            TokenType::Star => "Star"@,
            TokenType::Bang => "Bang"@,
            TokenType::BangEqual => "BangEqual"@,
            TokenType::Equal => "Equal"@,
            TokenType::EqualEqual => "EqualEqual"@,
            TokenType::Greater => "Greater"@,
            TokenType::GreaterEqual => "GreaterEqual"@,
            TokenType::Less => "Less"@,
            TokenType::LessEqual => "LessEqual"@,
            TokenType::Identifier => "Identifier"@,
            TokenType::String => "String"@,
            TokenType::Number => "Number"@,
            TokenType::And => "And"@,
            TokenType::Class => "Class"@,
            TokenType::Else => "Else"@,
            TokenType::False => "False"@,
            TokenType::Fun => "Fun"@,
            TokenType::For => "For"@,
            TokenType::If => "If"@,
            TokenType::Nil => "Nil"@,
            TokenType::Or => "Or"@,
            TokenType::Print => "Print"@,
            TokenType::Return => "Return"@,
            TokenType::Super => "Super"@,
            TokenType::This => "This"@,
            TokenType::True => "True"@,
            TokenType::Var => "Var"@,
            TokenType::While => "While"@,
            TokenType::Eof => "Eof"@,
        }
    }

    /// The name of the kind.
    pub fn name(&self) -> (r: &'static str)
        ensures
            r@ == self.name_text(),
    {
        match self {
            TokenType::LeftParen => "LeftParen",
            TokenType::RightParen => "RightParen",
            TokenType::LeftBrace => "LeftBrace",
            TokenType::RightBrace => "RightBrace",
            TokenType::Comma => "Comma",
            TokenType::Dot => "Dot",
            TokenType::Minus => "Minus",
            TokenType::Plus => "Plus",
            TokenType::Semicolon => "Semicolon",
            TokenType::Slash => "Slash",
            TokenType::Star => "Star",
            TokenType::Bang => "Bang",
            TokenType::BangEqual => "BangEqual",
            TokenType::Equal => "Equal",
            TokenType::EqualEqual => "EqualEqual",
            TokenType::Greater => "Greater",
            TokenType::GreaterEqual => "GreaterEqual",
            TokenType::Less => "Less",
            TokenType::LessEqual => "LessEqual",
            TokenType::Identifier => "Identifier",
            TokenType::String => "String",
            TokenType::Number => "Number",
            TokenType::And => "And",
            TokenType::Class => "Class",
            TokenType::Else => "Else",
            TokenType::False => "False",
            TokenType::Fun => "Fun",
            TokenType::For => "For",
            TokenType::If => "If",
            TokenType::Nil => "Nil",
            TokenType::Or => "Or",
            TokenType::Print => "Print",
            TokenType::Return => "Return",
            TokenType::Super => "Super",
            TokenType::This => "This",
            TokenType::True => "True",
            TokenType::Var => "Var",
            TokenType::While => "While",
            TokenType::Eof => "Eof",
        }
    }
}

/// The number that a sequence of decimal digits writes, most significant digit
/// first.
pub open spec fn digits_value(digits: Seq<u8>) -> nat
    decreases digits.len(),
{
    if digits.len() == 0 {
        0
    } else {
        digits_value(digits.drop_last()) * 10 + digits.last() as nat
    }
}

/// The mathematical view of a [`Decimal`].
pub struct DecimalView {
    pub digits: Seq<u8>,
    pub scale: nat,
}

impl DecimalView {
    /// Every digit is below ten and the point lies within the digits.
    pub open spec fn well_formed(self) -> bool {
        &&& forall|i: int| 0 <= i < self.digits.len() ==> self.digits[i] <= 9
        &&& self.scale <= self.digits.len()
    }

    /// The digits read as one whole number; the value of the decimal is this
    /// number divided by ten to the power `scale`.
    pub open spec fn mantissa(self) -> nat {
        digits_value(self.digits)
    }
}

/// A number literal, decoded exactly: its decimal digits with the point taken
/// out, and the count of digits that stood behind the point. `12.50` is the
/// digits 1, 2, 5, 0 with scale 2.
#[derive(Debug, Clone, PartialEq, Eq)]
pub struct Decimal {
    /// The digits, most significant first, each from 0 to 9.
    pub digits: Vec<u8>,
    /// How many of the digits stand behind the point.
    pub scale: usize,
}

impl View for Decimal {
    type V = DecimalView;

    open spec fn view(&self) -> DecimalView {
        DecimalView { digits: self.digits@, scale: self.scale as nat }
    }
}

/// The digits before a place write no greater number than the digits up to
/// a later place.
pub proof fn lemma_digits_value_grows(digits: Seq<u8>, shorter: int, longer: int)
    requires
        0 <= shorter <= longer <= digits.len(),
    ensures
        digits_value(digits.take(shorter)) <= digits_value(digits.take(longer)),
    decreases longer - shorter,
{
    if shorter < longer {
        lemma_digits_value_grows(digits, shorter, longer - 1);
        assert(digits.take(longer).drop_last() =~= digits.take(longer - 1));
    }
}

impl Decimal {
    /// The digits read as one whole number, where that number fits in 64
    /// bits. The value of the decimal is this number divided by ten to the
    /// power `scale`.
    pub fn mantissa(&self) -> (value: Option<u64>)
        ensures
            match value {
                Some(m) => m == self@.mantissa(),
                None => self@.mantissa() > u64::MAX,
            },
    {
        let mut value: u64 = 0;
        let mut at: usize = 0;
        assert(self.digits@.take(0) =~= Seq::<u8>::empty());
        while at < self.digits.len()
            invariant
                at <= self.digits.len(),
                value == digits_value(self.digits@.take(at as int)),
            decreases self.digits.len() - at,
        {
            let ghost longer = self.digits@.take(at + 1);
            proof {
                assert(longer.drop_last() =~= self.digits@.take(at as int));
                lemma_digits_value_grows(self.digits@, at + 1, self.digits.len() as int);
                assert(self.digits@.take(self.digits.len() as int) =~= self.digits@);
            }
            let shifted = match value.checked_mul(10) {
                Some(shifted) => shifted,
                None => {
                    return None;
                },
            };
            value = match shifted.checked_add(self.digits[at] as u64) {
                Some(sum) => sum,
                None => {
                    return None;
                },
            };
            at += 1;
        }
        assert(self.digits@.take(at as int) =~= self.digits@);
        Some(value)
    }
}

/// The mathematical view of a [`Literal`].
pub enum LiteralView {
    Text(Seq<char>),
    Number(DecimalView),
}

/// The value that a literal token carries besides its lexeme.
#[derive(Debug, Clone, PartialEq, Eq)]
pub enum Literal {
    /// The characters between the quotes of a string literal.
    Text(String),
    /// The value of a number literal.
    Number(Decimal),
}

impl View for Literal {
    type V = LiteralView;

    open spec fn view(&self) -> LiteralView {
        match self {
            Literal::Text(s) => LiteralView::Text(s@),
            Literal::Number(d) => LiteralView::Number(d@),
        }
    }
}

/// The view of an optional literal.
pub open spec fn literal_view(literal: Option<Literal>) -> Option<LiteralView> {
    match literal {
        Some(l) => Some(l@),
        None => None,
    }
}

/// The mathematical view of a [`Token`].
pub struct TokenView {
    pub kind: TokenType,
    pub lexeme: Seq<char>,
    pub literal: Option<LiteralView>,
    pub line: nat,
}

/// A classified piece of source text, tagged with the line it starts on.
#[derive(Debug, Clone, PartialEq, Eq)]
pub struct Token {
    /// The kind of the token.
    pub token_type: TokenType,
    /// The piece of the text that the token was read from; empty for the end
    /// marker.
    pub lexeme: String,
    /// The value of a string or a number; no other token has one.
    pub literal: Option<Literal>,
    /// The line on which the first character of the token stands, counted
    /// from one. The type is wide enough for the lines of any text that a
    /// machine can hold, whatever the width of its `usize`.
    pub line_number: u128,
}

impl View for Token {
    type V = TokenView;

    open spec fn view(&self) -> TokenView {
        TokenView {
            kind: self.token_type,
            lexeme: self.lexeme@,
            literal: literal_view(self.literal),
            line: self.line_number as nat,
        }
    }
}

impl DeepView for Token {
    type V = TokenView;

    open spec fn deep_view(&self) -> TokenView {
        self@
    }
}

impl Token {
    /// Makes a token of the given kind, lexeme, literal value and line.
    /// Lines are counted from one.
    pub fn new(
        token_type: TokenType,
        lexeme: String,
        literal: Option<Literal>,
        line_number: u128,
    ) -> (token: Token)
        requires
            line_number >= 1,
        ensures
            token.token_type == token_type,
            token.lexeme == lexeme,
            token.literal == literal,
            token.line_number == line_number,
            token@ == (TokenView {
                kind: token_type,
                lexeme: lexeme@,
                literal: literal_view(literal),
                line: line_number as nat,
            }),
    {
        Token { token_type, lexeme, literal, line_number }
    }

    /// The display form of a token: the name of its kind, a space, and its
    /// lexeme. The literal value is left out.
    pub open spec fn display_text(self) -> Seq<char> {
        self.token_type.name_text() + " "@ + self.lexeme@
    }

    /// The token in its display form.
    pub fn display(&self) -> (text: String)
        ensures
            text@ == self.display_text(),
    {
        let mut text = String::from_str(self.token_type.name());
        text.append(" ");
        text.append(self.lexeme.as_str());
        text
    }
}

} // verus!
