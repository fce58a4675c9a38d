use super::expression::{Expression, ExpressionNode, FunctionDeclaration, Identifier};
use crate::common::text::{from_chars, push_str};
use vstd::prelude::*;

verus! {

/// The names from `from` on, each behind a blank.
pub open spec fn names_text(names: Seq<Identifier>, from: int) -> Seq<char>
    decreases names.len() - from,
{
    if 0 <= from < names.len() {
        " "@ + names[from].name@ + names_text(names, from + 1)
    } else {
        Seq::empty()
    }
}

/// How an expression is written for inspection: operators stand before
/// their operands, and parentheses show how the operands group. A call is
/// written without its arguments, a function without its body.
pub open spec fn node_text(node: ExpressionNode) -> Seq<char>
    decreases node,
{
    match node.expr {
        Expression::TernaryExpression(condition, operator, first, second) => "("@ + node_text(
            *condition,
        ) + " "@ + operator.text() + " ("@ + node_text(*first) + " "@ + node_text(*second)
            + "))"@,
        Expression::BinaryExpression(left, operator, right) => "("@ + operator.text() + " "@
            + node_text(*left) + " "@ + node_text(*right) + ")"@,
        Expression::Grouping(inner) => "(group "@ + node_text(*inner) + ")"@,
        Expression::CallExpression(callee, _, _) => "(call "@ + node_text(*callee) + ")"@,
        Expression::GetExpression(name, object) => "(get "@ + node_text(*object) + " "@
            + name.name@ + ")"@,
        Expression::SetExpression(object, name, value) => "(set "@ + node_text(*object) + " "@
            + name.name@ + " "@ + node_text(*value) + ")"@,
        Expression::FunctionExpression(function) => "(FunctionExpression"@ + names_text(
            function.parameters@,
            0,
        ) + ")"@,
        Expression::Literal(literal) => literal@.display(),
        Expression::Unary(operator, operand) => "("@ + operator.text() + " "@ + node_text(
            *operand,
        ) + ")"@,
        Expression::Variable(variable) => variable.identifier.name@,
        Expression::Assignment(variable, value) => variable.identifier.name@ + " "@ + node_text(
            *value,
        ),
        Expression::Or(left, operator, right) => node_text(*left) + " "@ + operator.text() + " "@
            + node_text(*right),
        Expression::And(left, operator, right) => node_text(*left) + " "@ + operator.text()
            + " "@ + node_text(*right),
    }
}

/// Appends the names, each behind a blank.
fn write_names(out: &mut Vec<char>, names: &Vec<Identifier>)
    ensures
        final(out)@ == old(out)@ + names_text(names@, 0),
{
    let mut i: usize = 0;
    assert(out@ + names_text(names@, 0) =~= old(out)@ + names_text(names@, 0));
    while i < names.len()
        invariant
            i <= names.len(),
            out@ + names_text(names@, i as int) == old(out)@ + names_text(names@, 0),
        decreases names.len() - i,
    {
        let ghost before = out@;
        push_str(out, " ");
        push_str(out, names[i].name.as_str());
        assert(out@ + names_text(names@, i + 1) =~= before + names_text(names@, i as int));
        i += 1;
    }
    assert(out@ + names_text(names@, i as int) =~= out@);
}

impl ExpressionNode {
    /// Appends the expression as [`node_text`] writes it.
    #[verifier::rlimit(50)]
    #[verifier::spinoff_prover]
    pub fn write_to(&self, out: &mut Vec<char>)
        ensures
            final(out)@ == old(out)@ + node_text(*self),
        decreases self,
    {
        let ghost start = out@;
        match &self.expr {
            Expression::TernaryExpression(condition, operator, first, second) => {
                push_str(out, "(");
                condition.write_to(out);
                push_str(out, " ");
                push_str(out, operator.to_string().as_str());
                push_str(out, " (");
                first.write_to(out);
                push_str(out, " ");
                second.write_to(out);
                push_str(out, "))");
                assert(out@ =~= start + node_text(*self));
            },
            Expression::BinaryExpression(left, operator, right) => {
                push_str(out, "(");
                push_str(out, operator.to_string().as_str());
                push_str(out, " ");
                left.write_to(out);
                push_str(out, " ");
                right.write_to(out);
                push_str(out, ")");
                assert(out@ =~= start + node_text(*self));
            },
            Expression::Grouping(inner) => {
                push_str(out, "(group ");
                inner.write_to(out);
                push_str(out, ")");
                assert(out@ =~= start + node_text(*self));
            },
            Expression::CallExpression(callee, _, _) => {
                push_str(out, "(call ");
                callee.write_to(out);
                push_str(out, ")");
                assert(out@ =~= start + node_text(*self));
            },
            Expression::GetExpression(name, object) => {
                push_str(out, "(get ");
                object.write_to(out);
                push_str(out, " ");
                push_str(out, name.name.as_str());
                push_str(out, ")");
                assert(out@ =~= start + node_text(*self));
            },
            Expression::SetExpression(object, name, value) => {
                push_str(out, "(set ");
                object.write_to(out);
                push_str(out, " ");
                push_str(out, name.name.as_str());
                push_str(out, " ");
                value.write_to(out);
                push_str(out, ")");
                assert(out@ =~= start + node_text(*self));
            },
            Expression::FunctionExpression(function) => {
                push_str(out, "(FunctionExpression");
                write_names(out, &function.parameters);
                push_str(out, ")");
                assert(out@ =~= start + node_text(*self));
            },
            Expression::Literal(literal) => {
                push_str(out, literal.to_string().as_str());
            },
            Expression::Unary(operator, operand) => {
                push_str(out, "(");
                push_str(out, operator.to_string().as_str());
                push_str(out, " ");
                operand.write_to(out);
                push_str(out, ")");
                assert(out@ =~= start + node_text(*self));
            },
            Expression::Variable(variable) => {
                push_str(out, variable.identifier.name.as_str());
            },
            Expression::Assignment(variable, value) => {
                push_str(out, variable.identifier.name.as_str());
                push_str(out, " ");
                value.write_to(out);
                assert(out@ =~= start + node_text(*self));
            },
            Expression::Or(left, operator, right) => {
                left.write_to(out);
                push_str(out, " ");
                push_str(out, operator.to_string().as_str());
                push_str(out, " ");
                right.write_to(out);
                assert(out@ =~= start + node_text(*self));
            },
            Expression::And(left, operator, right) => {
                left.write_to(out);
                push_str(out, " ");
                push_str(out, operator.to_string().as_str());
                push_str(out, " ");
                right.write_to(out);
                assert(out@ =~= start + node_text(*self));
            },
        }
    }

    /// The expression as [`node_text`] writes it.
    pub fn to_string(&self) -> (r: String)
        ensures
            r@ == node_text(*self),
    {
        let mut out: Vec<char> = Vec::new();
        self.write_to(&mut out);
        assert(out@ =~= node_text(*self));
        from_chars(out.as_slice())
    }
}

impl FunctionDeclaration {
    /// How a function declaration is written for inspection.
    pub open spec fn text(&self) -> Seq<char> {
        "FunctionDeclaration: "@ + self.identifier.name@
    }

    /// The declaration as [`FunctionDeclaration::text`] writes it.
    pub fn to_string(&self) -> (r: String)
        ensures
            r@ == self.text(),
    {
        crate::common::text::concatenate("FunctionDeclaration: ", self.identifier.name.as_str())
    }
}

} // verus!
