use std::sync::Arc;
use vstd::prelude::*;

verus! {

/// An expression of the lambda calculus. Sub-trees are shared through `Arc`.
#[derive(Debug, PartialEq, Eq)]
pub enum Expression {
    Application(Arc<Expression>, Arc<Expression>),
    Lambda(String, Arc<Expression>),
    Let(String, Arc<Expression>, Arc<Expression>),
    Number(isize),
    Variable(String),
}

/// Applies `function` to `argument`.
pub fn app(function: Expression, argument: Expression) -> (r: Expression)
    ensures
        r == Expression::Application(Arc::new(function), Arc::new(argument)),
{
    Expression::Application(Arc::new(function), Arc::new(argument))
}

/// A function of one parameter, `variable`, whose body is `expression`.
pub fn lambda(variable: &str, expression: Expression) -> (r: Expression)
    ensures
        r matches Expression::Lambda(v, b) && v@ == variable@ && *b == expression,
{
    Expression::Lambda(variable.to_owned(), Arc::new(expression))
}

/// Binds `variable` to `bound_expression` within `expression`.
pub fn let_(variable: &str, bound_expression: Expression, expression: Expression) -> (r: Expression)
    ensures
        r matches Expression::Let(v, b, e) && v@ == variable@ && *b == bound_expression
            && *e == expression,
{
    Expression::Let(variable.to_owned(), Arc::new(bound_expression), Arc::new(expression))
}

/// The numeric literal `number`.
pub fn num(number: isize) -> (r: Expression)
    ensures
        r == Expression::Number(number),
{
    Expression::Number(number)
}

/// A use of the variable `name`.
pub fn var(name: &str) -> (r: Expression)
    ensures
        r matches Expression::Variable(v) && v@ == name@,
{
    Expression::Variable(name.to_owned())
}

} // verus!
