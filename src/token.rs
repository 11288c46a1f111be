use vstd::prelude::*;

verus! {

/// Lexical category of a token.
#[derive(Debug, Clone, Copy, PartialEq, Eq, Structural)]
pub enum TokenType {
    Operator,
    LParen,
    RParen,
    IntLiteral,
    StringLiteral,
    CharLiteral,
    FloatLiteral,
    Fn,
    If,
    For,
    While,
    Return,
    Break,
    Continue,
    ID,
    IntType,
    StringType,
    FloatType,
    BoolType,
    VoidType,
    CharType,
    ShortType,
    LongType,
    True,
    False,
    LBracket,
    RBracket,
    Assignment,
    Colon,
    SemiColon,
    Coma,
    RetOp,
}

/// A token as a pair of its category and its literal text.
pub type TokV = (TokenType, Seq<char>);

/// A classified lexeme: its category and its literal text.
#[derive(Debug, Clone)]
pub struct Token {
    tok_type: TokenType,
    tok_value: String,
}

impl View for Token {
    type V = TokV;

    closed spec fn view(&self) -> TokV {
        (self.tok_type, self.tok_value@)
    }
}

/// The view of each token of a sequence.
pub open spec fn tokens_view(s: Seq<Token>) -> Seq<TokV> {
    s.map_values(|t: Token| t@)
}

/// The short name that diagnostics use for a category ("error" for those without one).
pub open spec fn kind_name(k: TokenType) -> Seq<char> {
    match k {
        TokenType::Operator => "operator"@,
        TokenType::IntLiteral => "int_literal"@,
        TokenType::Assignment => "assignment"@,
        TokenType::ID => "ID"@,
        TokenType::SemiColon => "semicolon"@,
        TokenType::Colon => "colon"@,
        TokenType::Fn => "fn"@,
        TokenType::False => "false"@,
        TokenType::True => "true"@,
        TokenType::For => "for"@,
        TokenType::If => "if"@,
        TokenType::LParen => "LParen"@,
        TokenType::RParen => "RParen"@,
        TokenType::While => "while"@,
        _ => "error"@,
    }
}

impl Token {
    pub fn new(value: String, token_type: TokenType) -> (r: Self)
        ensures
            r@ == (token_type, value@),
    {
        Self { tok_type: token_type, tok_value: value }
    }

    pub fn get_type(&self) -> (r: TokenType)
        ensures
            r == self@.0,
    {
        self.tok_type
    }

    pub fn get_value(&self) -> (r: String)
        ensures
            r@ == self@.1,
    {
        self.tok_value.clone()
    }

    /// Borrows the literal text.
    pub fn text(&self) -> (r: &String)
        ensures
            r@ == self@.1,
    {
        &self.tok_value
    }

    pub fn get_name_of_token(&self) -> (r: &'static str)
        ensures
            r@ == kind_name(self@.0),
    {
        match self.tok_type {
            TokenType::Operator => "operator",
            TokenType::IntLiteral => "int_literal",
            TokenType::Assignment => "assignment",
            TokenType::ID => "ID",
            TokenType::SemiColon => "semicolon",
            TokenType::Colon => "colon",
            TokenType::Fn => "fn",
            TokenType::False => "false",
            TokenType::True => "true",
            TokenType::For => "for",
            TokenType::If => "if",
            TokenType::LParen => "LParen",
            TokenType::RParen => "RParen",
            TokenType::While => "while",
            _ => "error",
        }
    }
}

} // verus!
