use crate::scanner::tokens::TokenType;
use vstd::prelude::*;

verus! {

/// An operator that is written as one token.
pub trait OperatorTokenType {
    /// The kind of token that writes the operator.
    spec fn token_type_spec(&self) -> TokenType;

    fn token_type(&self) -> (r: TokenType)
        ensures
            r == self.token_type_spec(),
    ;
}

/// The operators `and` and `or`.
#[allow(non_camel_case_types)]
#[derive(Copy, Clone, Debug, PartialEq, Eq, Structural)]
pub enum LogicalOperator {
    AND,
    OR,
}

impl OperatorTokenType for LogicalOperator {
    open spec fn token_type_spec(&self) -> TokenType {
        match *self {
            LogicalOperator::AND => TokenType::AND,
            LogicalOperator::OR => TokenType::OR,
        }
    }

    fn token_type(&self) -> (r: TokenType) {
        match *self {
            LogicalOperator::AND => TokenType::AND,
            LogicalOperator::OR => TokenType::OR,
        }
    }
}

impl LogicalOperator {
    /// How the operator is written.
    pub open spec fn text(self) -> Seq<char> {
        match self {
            LogicalOperator::AND => "and"@,
            LogicalOperator::OR => "or"@,
        }
    }

    /// How the operator is written, as `&str`.
    pub fn as_str(&self) -> (r: &'static str)
        ensures
            r@ == self.text(),
    {
        match self {
            LogicalOperator::AND => "and",
            LogicalOperator::OR => "or",
        }
    }

    /// How the operator is written.
    pub fn to_string(&self) -> (r: String)
        ensures
            r@ == self.text(),
    {
        String::from_str(self.as_str())
    }
}

/// The operators that stand before one operand.
#[allow(non_camel_case_types)]
#[derive(Copy, Clone, Debug, PartialEq, Eq, Structural)]
pub enum UnaryOperator {
    MINUS,
    BANG,
}

impl OperatorTokenType for UnaryOperator {
    open spec fn token_type_spec(&self) -> TokenType {
        match *self {
            UnaryOperator::MINUS => TokenType::MINUS,
            UnaryOperator::BANG => TokenType::BANG,
        }
    }

    fn token_type(&self) -> (r: TokenType) {
        match *self {
            UnaryOperator::MINUS => TokenType::MINUS,
            UnaryOperator::BANG => TokenType::BANG,
        }
    }
}

impl UnaryOperator {
    /// How the operator is written.
    pub open spec fn text(self) -> Seq<char> {
        self.token_type_spec().text()
    }

    /// How the operator is written.
    pub fn to_string(&self) -> (r: String)
        ensures
            r@ == self.text(),
    {
        self.token_type().to_string()
    }
}

/// The operators that stand between two operands.
#[allow(non_camel_case_types)]
#[derive(Copy, Clone, Debug, PartialEq, Eq, Structural)]
pub enum BinaryOperator {
    MINUS,
    PLUS,
    BANGEQUAL,
    EQUALEQUAL,
    GREATER,
    GREATEREQUAL,
    LESS,
    LESSEQUAL,
    SLASH,
    STAR,
    COMMA,
}

impl OperatorTokenType for BinaryOperator {
    open spec fn token_type_spec(&self) -> TokenType {
        match *self {
            BinaryOperator::MINUS => TokenType::MINUS,
            BinaryOperator::PLUS => TokenType::PLUS,
            BinaryOperator::BANGEQUAL => TokenType::BANGEQUAL,
            BinaryOperator::EQUALEQUAL => TokenType::EQUALEQUAL,
            BinaryOperator::GREATER => TokenType::GREATER,
            BinaryOperator::GREATEREQUAL => TokenType::GREATEREQUAL,
            BinaryOperator::LESS => TokenType::LESS,
            BinaryOperator::LESSEQUAL => TokenType::LESSEQUAL,
            BinaryOperator::SLASH => TokenType::SLASH,
            BinaryOperator::STAR => TokenType::STAR,
            BinaryOperator::COMMA => TokenType::COMMA,
        }
    }

    fn token_type(&self) -> (r: TokenType) {
        match *self {
            BinaryOperator::MINUS => TokenType::MINUS,
            BinaryOperator::PLUS => TokenType::PLUS,
            BinaryOperator::BANGEQUAL => TokenType::BANGEQUAL,
            BinaryOperator::EQUALEQUAL => TokenType::EQUALEQUAL,
            BinaryOperator::GREATER => TokenType::GREATER,
            BinaryOperator::GREATEREQUAL => TokenType::GREATEREQUAL,
            BinaryOperator::LESS => TokenType::LESS,
            BinaryOperator::LESSEQUAL => TokenType::LESSEQUAL,
            BinaryOperator::SLASH => TokenType::SLASH,
            BinaryOperator::STAR => TokenType::STAR,
            BinaryOperator::COMMA => TokenType::COMMA,
        }
    }
}

impl BinaryOperator {
    /// How the operator is written.
    pub open spec fn text(self) -> Seq<char> {
        self.token_type_spec().text()
    }

    /// How the operator is written.
    pub fn to_string(&self) -> (r: String)
        ensures
            r@ == self.text(),
    {
        self.token_type().to_string()
    }
}

/// The operator of the conditional expression.
#[allow(non_camel_case_types)]
#[derive(Copy, Clone, Debug, PartialEq, Eq, Structural)]
pub enum TernaryOperator {
    QUESTIONMARK,
}

impl OperatorTokenType for TernaryOperator {
    open spec fn token_type_spec(&self) -> TokenType {
        TokenType::QUESTIONMARK
    }

    fn token_type(&self) -> (r: TokenType) {
        TokenType::QUESTIONMARK
    }
}

impl TernaryOperator {
    /// How the operator is written.
    pub open spec fn text(self) -> Seq<char> {
        self.token_type_spec().text()
    }

    /// How the operator is written.
    pub fn to_string(&self) -> (r: String)
        ensures
            r@ == self.text(),
    {
        self.token_type().to_string()
    }
}

/// The tokens that a call is written with.
#[allow(non_camel_case_types)]
#[derive(Copy, Clone, Debug, PartialEq, Eq, Structural)]
pub enum CallOperator {
    LEFTPAREN,
    RIGHTPAREN,
    COMMA,
}

impl OperatorTokenType for CallOperator {
    open spec fn token_type_spec(&self) -> TokenType {
        match *self {
            CallOperator::LEFTPAREN => TokenType::LEFTPAREN,
            CallOperator::RIGHTPAREN => TokenType::RIGHTPAREN,
            CallOperator::COMMA => TokenType::COMMA,
        }
    }

    fn token_type(&self) -> (r: TokenType) {
        match *self {
            CallOperator::LEFTPAREN => TokenType::LEFTPAREN,
            CallOperator::RIGHTPAREN => TokenType::RIGHTPAREN,
            CallOperator::COMMA => TokenType::COMMA,
        }
    }
}

} // verus!
