use super::number::{display_bits, equal_bits, less_bits, Number};
use super::text::{from_chars, push_str};
use crate::runtime::callable::{Callable, LoxCallable};
use crate::runtime::class::LoxClass;
use crate::runtime::instance::InstanceHandle;
use vstd::prelude::*;

verus! {

/// A value of the language.
#[derive(Debug)]
pub enum Literal {
    String(String),
    Number(Number),
    Boolean(bool),
    Callable(Callable),
    Class(LoxClass),
    Instance(InstanceHandle),
    Nil,
}

/// A [`Literal`] with its text as a sequence of characters.
pub enum LiteralView {
    String(Seq<char>),
    Number(Number),
    Boolean(bool),
    Callable(Callable),
    Class(LoxClass),
    Instance(InstanceHandle),
    Nil,
}

impl View for Literal {
    type V = LiteralView;

    open spec fn view(&self) -> LiteralView {
        match *self {
            Literal::String(text) => LiteralView::String(text@),
            Literal::Number(n) => LiteralView::Number(n),
            Literal::Boolean(b) => LiteralView::Boolean(b),
            Literal::Callable(callable) => LiteralView::Callable(callable),
            Literal::Class(class) => LiteralView::Class(class),
            Literal::Instance(handle) => LiteralView::Instance(handle),
            Literal::Nil => LiteralView::Nil,
        }
    }
}

/// The views of a sequence of values.
pub open spec fn views(values: Seq<Literal>) -> Seq<LiteralView> {
    values.map_values(|v: Literal| v@)
}

impl LiteralView {
    /// Whether `if`, `while`, `and` and `or` take the value as true: a string
    /// that is not empty, a number greater than zero, and `true`. Every other
    /// value is taken as false, and so is a number that is not a number.
    pub open spec fn is_truthy(self) -> bool {
        match self {
            LiteralView::String(text) => text.len() > 0,
            LiteralView::Number(n) => less_bits(0, n.bits),
            LiteralView::Boolean(b) => b,
            _ => false,
        }
    }

    /// How `print` writes the value.
    pub open spec fn display(self) -> Seq<char> {
        match self {
            LiteralView::String(text) => text,
            LiteralView::Number(n) => display_bits(n.bits),
            LiteralView::Boolean(b) => if b {
                "true"@
            } else {
                "false"@
            },
            LiteralView::Callable(callable) => "<fn "@ + callable.name_spec() + ">"@,
            LiteralView::Class(class) => "class "@ + class.name@,
            LiteralView::Instance(handle) => handle.class.name@ + " instance"@,
            LiteralView::Nil => "NIL"@,
        }
    }

    /// Equality of values: by content for nil, booleans, numbers and strings,
    /// by identity for callables, classes and instances; values of different
    /// kinds are never equal.
    pub open spec fn same(self, other: LiteralView) -> bool {
        match (self, other) {
            (LiteralView::String(a), LiteralView::String(b)) => a == b,
            (LiteralView::Number(a), LiteralView::Number(b)) => equal_bits(a.bits, b.bits),
            (LiteralView::Boolean(a), LiteralView::Boolean(b)) => a == b,
            (LiteralView::Nil, LiteralView::Nil) => true,
            (LiteralView::Callable(a), LiteralView::Callable(b)) => a.identity() == b.identity(),
            (LiteralView::Class(a), LiteralView::Class(b)) => a.id == b.id,
            (LiteralView::Instance(a), LiteralView::Instance(b)) => a.index == b.index,
            _ => false,
        }
    }
}

impl Clone for Literal {
    fn clone(&self) -> (r: Self)
        ensures
            r == *self,
    {
        match self {
            Literal::String(text) => Literal::String(text.clone()),
            Literal::Number(n) => Literal::Number(*n),
            Literal::Boolean(b) => Literal::Boolean(*b),
            Literal::Callable(callable) => Literal::Callable(callable.clone()),
            Literal::Class(class) => Literal::Class(class.clone()),
            Literal::Instance(handle) => Literal::Instance(handle.clone()),
            Literal::Nil => Literal::Nil,
        }
    }
}

impl Literal {
    /// Whether `if`, `while`, `and` and `or` take the value as true.
    pub fn is_truthy(&self) -> (r: bool)
        ensures
            r == self@.is_truthy(),
    {
        match self {
            Literal::String(text) => text.as_str().unicode_len() > 0,
            Literal::Number(n) => Number::zero().less_than(n),
            Literal::Boolean(b) => *b,
            _ => false,
        }
    }

    /// The callable that the value holds, if it holds one.
    pub fn into_callable(self) -> (r: Option<Callable>)
        ensures
            r == match self {
                Literal::Callable(callable) => Some(callable),
                _ => None::<Callable>,
            },
    {
        match self {
            Literal::Callable(callable) => Some(callable),
            _ => None,
        }
    }

    /// How `print` writes the value.
    pub fn to_string(&self) -> (r: String)
        ensures
            r@ == self@.display(),
    {
        match self {
            Literal::String(text) => text.clone(),
            Literal::Number(n) => n.to_string(),
            Literal::Boolean(b) => {
                if *b {
                    String::from_str("true")
                } else {
                    String::from_str("false")
                }
            },
            Literal::Callable(callable) => {
                let mut out: Vec<char> = Vec::new();
                push_str(&mut out, "<fn ");
                let name = callable.name();
                push_str(&mut out, name.as_str());
                push_str(&mut out, ">");
                assert(out@ =~= "<fn "@ + callable.name_spec() + ">"@);
                from_chars(out.as_slice())
            },
            Literal::Class(class) => {
                let mut out: Vec<char> = Vec::new();
                push_str(&mut out, "class ");
                push_str(&mut out, class.name.as_str());
                from_chars(out.as_slice())
            },
            Literal::Instance(handle) => {
                let mut out: Vec<char> = Vec::new();
                push_str(&mut out, handle.class.name.as_str());
                push_str(&mut out, " instance");
                from_chars(out.as_slice())
            },
            Literal::Nil => String::from_str("NIL"),
        }
    }

    /// Equality of values.
    pub fn equals(&self, other: &Literal) -> (r: bool)
        ensures
            r == self@.same(other@),
    {
        match (self, other) {
            (Literal::String(a), Literal::String(b)) => *a == *b,
            (Literal::Number(a), Literal::Number(b)) => a.equals(b),
            (Literal::Boolean(a), Literal::Boolean(b)) => *a == *b,
            (Literal::Nil, Literal::Nil) => true,
            (Literal::Callable(a), Literal::Callable(b)) => {
                match (a.identity_of(), b.identity_of()) {
                    (Some(x), Some(y)) => x == y,
                    (None, None) => true,
                    _ => false,
                }
            },
            (Literal::Class(a), Literal::Class(b)) => a.id == b.id,
            (Literal::Instance(a), Literal::Instance(b)) => a.index == b.index,
            _ => false,
        }
    }
}

} // verus!
