//! Typed AST nodes of the surface language, and the token kinds the parser
//! names in its error messages.

use vstd::prelude::*;

verus! {

/// A node of the surface language.
#[derive(Debug)]
#[allow(inconsistent_fields)]
pub enum Expression {
    /// A function definition: its name, its parameter names, and its body.
    FnDef { name: String, arguments: Vec<String>, expr: Box<Expression> },
    /// A two-way branch on the condition's value being zero.
    Case { condition: Box<Expression>, t: Box<Expression>, f: Box<Expression> },
    /// A loop over an induction variable: `next_val` recomputes the
    /// variable each iteration, `while_expr` is the loop condition, and the
    /// values of `expr` are summed into the loop's result.
    For { var: String, next_val: Box<Expression>, while_expr: Box<Expression>, expr: Box<
        Expression,
    > },
    /// A call by name with its evaluated arguments.
    Fn { name: String, args: Vec<Expression> },
    /// A binding of `name` to `init` over `expr`.
    VarDef { name: String, init: Box<Expression>, expr: Box<Expression> },
    /// A variable reference.
    Var(String),
    /// A string literal; compiles to a pointer into the data segment.
    Str(String),
    /// A 32-bit signed integer literal.
    Value(i32),
}

/// The kind of token a failed parse step expected.
#[derive(Debug)]
pub enum ExpressionType {
    Char,
    Number,
    Literal,
    Args,
    FnDef,
    For,
    FnOrVar,
    VarDef,
}

/// The leading 30 characters of the remaining source, the location hint of
/// every parse error.
pub open spec fn spec_error_code(s: Seq<char>) -> Seq<char> {
    if s.len() < 30 {
        s
    } else {
        s.take(30)
    }
}

/// The fixed prefix of the message each token kind produces.
pub open spec fn spec_expected_msg(t: ExpressionType) -> Seq<char> {
    match t {
        ExpressionType::Char => "A character was expected here: "@,
        ExpressionType::Number => "A number was expected here: "@,
        ExpressionType::Literal => "A literal was expected here: "@,
        ExpressionType::Args => "An arguments were expected here: "@,
        ExpressionType::FnDef => "A function definiton was expected here: "@,
        ExpressionType::For => "A for cycle was expected here: "@,
        ExpressionType::FnOrVar => "A function call or variable reference was expected here: "@,
        ExpressionType::VarDef => "A variable definition was expected here: "@,
    }
}

/// The full located message of a failed parse step.
pub open spec fn spec_explained(t: ExpressionType, s: Seq<char>) -> Seq<char> {
    spec_expected_msg(t) + spec_error_code(s) + "..."@
}

impl ExpressionType {
    /// The located message: what was expected, the leading characters of
    /// the remaining source, and an ellipsis.
    pub fn to_explained_string(&self, s: &str) -> (r: String)
        ensures
            r@ == spec_explained(*self, s@),
    {
        let mut m = match self {
            ExpressionType::Char => <String as vstd::string::StringExecFns>::from_str(
                "A character was expected here: ",
            ),
            ExpressionType::Number => <String as vstd::string::StringExecFns>::from_str(
                "A number was expected here: ",
            ),
            ExpressionType::Literal => <String as vstd::string::StringExecFns>::from_str(
                "A literal was expected here: ",
            ),
            ExpressionType::Args => <String as vstd::string::StringExecFns>::from_str(
                "An arguments were expected here: ",
            ),
            ExpressionType::FnDef => <String as vstd::string::StringExecFns>::from_str(
                "A function definiton was expected here: ",
            ),
            ExpressionType::For => <String as vstd::string::StringExecFns>::from_str(
                "A for cycle was expected here: ",
            ),
            ExpressionType::FnOrVar => <String as vstd::string::StringExecFns>::from_str(
                "A function call or variable reference was expected here: ",
            ),
            ExpressionType::VarDef => <String as vstd::string::StringExecFns>::from_str(
                "A variable definition was expected here: ",
            ),
        };
        let code = crate::util::error_code(s);
        <String as vstd::string::StringExecFns>::append(&mut m, code);
        <String as vstd::string::StringExecFns>::append(&mut m, "...");
        m
    }
}

} // verus!
