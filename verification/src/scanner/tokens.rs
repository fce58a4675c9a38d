use crate::common::literal::{Literal, LiteralView};
use crate::common::text::{from_chars, push_str};
use vstd::prelude::*;

verus! {

/// The kinds of token.
#[allow(non_camel_case_types)]
#[derive(Debug, Clone, Copy, PartialEq, Eq, Structural)]
pub enum TokenType {
    // Single-character tokens.
    LEFTPAREN,
    RIGHTPAREN,
    LEFTBRACE,
    RIGHTBRACE,
    COMMA,
    DOT,
    MINUS,
    PLUS,
    COLON,
    SEMICOLON,
    SLASH,
    STAR,
    QUESTIONMARK,
    // One or two character tokens.
    BANG,
    BANGEQUAL,
    EQUAL,
    EQUALEQUAL,
    GREATER,
    GREATEREQUAL,
    LESS,
    LESSEQUAL,
    // Literals.
    NUMBER,
    STRING,
    IDENTIFIER,
    // Keywords.
    NIL,
    FALSE,
    TRUE,
    AND,
    CLASS,
    ELSE,
    FUN,
    FOR,
    IF,
    OR,
    PRINT,
    RETURN,
    SUPER,
    THIS,
    VAR,
    WHILE,
    EOF,
}

impl TokenType {
    /// How the kind is written: the characters of a punctuation token, the
    /// upper-case name of any other.
    pub open spec fn text(self) -> Seq<char> {
        match self {
            TokenType::LEFTPAREN => "("@,
            TokenType::RIGHTPAREN => ")"@,
            TokenType::LEFTBRACE => "{"@,
            TokenType::RIGHTBRACE => "}"@,
            TokenType::COMMA => ","@,
            TokenType::DOT => "."@,
            TokenType::MINUS => "-"@,
            TokenType::PLUS => "+"@,
            TokenType::COLON => ":"@,
            TokenType::SEMICOLON => ";"@,
            TokenType::SLASH => "/"@,
            TokenType::STAR => "*"@,
            TokenType::QUESTIONMARK => "?"@,
            TokenType::BANG => "!"@,
            TokenType::BANGEQUAL => "!="@,
            TokenType::EQUAL => "="@,
            TokenType::EQUALEQUAL => "=="@,
            TokenType::GREATER => ">"@,
            TokenType::GREATEREQUAL => ">="@,
            TokenType::LESS => "<"@,
            TokenType::LESSEQUAL => "<="@,
            TokenType::NUMBER => "NUMBER"@,
            TokenType::STRING => "STRING"@,
            TokenType::IDENTIFIER => "IDENTIFIER"@,
            TokenType::NIL => "NIL"@,
            TokenType::FALSE => "FALSE"@,
            TokenType::TRUE => "TRUE"@,
            TokenType::AND => "AND"@,
            TokenType::CLASS => "CLASS"@,
            TokenType::ELSE => "ELSE"@,
            TokenType::FUN => "FUN"@,
            TokenType::FOR => "FOR"@,
            TokenType::IF => "IF"@,
            TokenType::OR => "OR"@,
            TokenType::PRINT => "PRINT"@,
            TokenType::RETURN => "RETURN"@,
            TokenType::SUPER => "SUPER"@,
            TokenType::THIS => "THIS"@,
            TokenType::VAR => "VAR"@,
            TokenType::WHILE => "WHILE"@,
            TokenType::EOF => "EOF"@,
        }
    }

    /// The kind as `&str`.
    pub fn as_str(&self) -> (r: &'static str)
        ensures
            r@ == self.text(),
    {
        match self {
            TokenType::LEFTPAREN => "(",
            TokenType::RIGHTPAREN => ")",
            TokenType::LEFTBRACE => "{",
            TokenType::RIGHTBRACE => "}",
            TokenType::COMMA => ",",
            TokenType::DOT => ".",
            TokenType::MINUS => "-",
            TokenType::PLUS => "+",
            TokenType::COLON => ":",
            TokenType::SEMICOLON => ";",
            TokenType::SLASH => "/",
            TokenType::STAR => "*",
            TokenType::QUESTIONMARK => "?",
            TokenType::BANG => "!",
            TokenType::BANGEQUAL => "!=",
            TokenType::EQUAL => "=",
            TokenType::EQUALEQUAL => "==",
            TokenType::GREATER => ">",
            TokenType::GREATEREQUAL => ">=",
            TokenType::LESS => "<",
            TokenType::LESSEQUAL => "<=",
            TokenType::NUMBER => "NUMBER",
            TokenType::STRING => "STRING",
            TokenType::IDENTIFIER => "IDENTIFIER",
            TokenType::NIL => "NIL",
            TokenType::FALSE => "FALSE",
            TokenType::TRUE => "TRUE",
            TokenType::AND => "AND",
            TokenType::CLASS => "CLASS",
            TokenType::ELSE => "ELSE",
            TokenType::FUN => "FUN",
            TokenType::FOR => "FOR",
            TokenType::IF => "IF",
            TokenType::OR => "OR",
            TokenType::PRINT => "PRINT",
            TokenType::RETURN => "RETURN",
            TokenType::SUPER => "SUPER",
            TokenType::THIS => "THIS",
            TokenType::VAR => "VAR",
            TokenType::WHILE => "WHILE",
            TokenType::EOF => "EOF",
        }
    }

    /// The kind as text.
    pub fn to_string(&self) -> (r: String)
        ensures
            r@ == self.text(),
    {
        String::from_str(self.as_str())
    }
}

/// A token: its kind, the characters it was read from, the value of a number
/// or string literal, and the line it stands on.
#[derive(Debug)]
pub struct Token {
    pub typ: TokenType,
    pub lexeme: String,
    pub literal: Option<Literal>,
    pub line: usize,
}

/// A [`Token`] with its texts as sequences of characters.
pub struct TokenView {
    pub typ: TokenType,
    pub lexeme: Seq<char>,
    pub literal: Option<LiteralView>,
    pub line: usize,
}

impl View for Token {
    type V = TokenView;

    open spec fn view(&self) -> TokenView {
        TokenView {
            typ: self.typ,
            lexeme: self.lexeme@,
            literal: match self.literal {
                Some(literal) => Some(literal@),
                None => None,
            },
            line: self.line,
        }
    }
}

impl TokenView {
    /// How the token is written: its kind, then its literal value where it has one.
    pub open spec fn display(self) -> Seq<char> {
        match self.literal {
            Some(literal) => self.typ.text() + " "@ + literal.display(),
            None => self.typ.text(),
        }
    }
}

impl Clone for Token {
    fn clone(&self) -> (r: Self)
        ensures
            r == *self,
    {
        let literal = match &self.literal {
            Some(literal) => Some(literal.clone()),
            None => None,
        };
        Token { typ: self.typ, lexeme: self.lexeme.clone(), literal, line: self.line }
    }
}

impl Token {
    /// A token.
    pub fn new(typ: TokenType, lexeme: String, literal: Option<Literal>, line: usize) -> (r: Token)
        ensures
            r == (Token { typ, lexeme, literal, line }),
    {
        Token { typ, lexeme, literal, line }
    }

    /// How the token is written: its kind, then its value where it has one.
    pub fn to_string(&self) -> (r: String)
        ensures
            r@ == self@.display(),
    {
        match &self.literal {
            Some(literal) => {
                let mut out: Vec<char> = Vec::new();
                push_str(&mut out, self.typ.as_str());
                push_str(&mut out, " ");
                let text = literal.to_string();
                push_str(&mut out, text.as_str());
                from_chars(out.as_slice())
            },
            None => self.typ.to_string(),
        }
    }
}

} // verus!
