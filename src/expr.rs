//! Expression trees: printing and evaluation.
use vstd::prelude::*;
use crate::enviro::Enviro;
use crate::literals::{bool_value, falsy, type_label, value_eq, value_text, shows_as, LiteralVal, Value};
use crate::number::{is_zero, less, less_equal, negate, num_le, num_lt, num_neg, zero_bits};
use crate::scanner::{Token, TokenType, TokenV};
use crate::text::{append_str, chars_less, chars_of, seq_less};

verus! {

/// An expression. Each node owns its children.
#[derive(Debug)]
pub enum Expr {
    Binary { l: Box<Expr>, op: Token, r: Box<Expr> },
    Grouping { expr: Box<Expr> },
    Literal { val: LiteralVal },
    Unary { op: Token, r: Box<Expr> },
    Variable { name: Token },
}

/// The mathematical form of an expression.
pub enum ExprV {
    Binary { l: Box<ExprV>, op: TokenV, r: Box<ExprV> },
    Grouping { expr: Box<ExprV> },
    Literal { val: Value },
    Unary { op: TokenV, r: Box<ExprV> },
    Variable { name: TokenV },
}

impl View for Expr {
    type V = ExprV;

    open spec fn view(&self) -> ExprV
        decreases self,
    {
        match self {
            Expr::Binary { l, op, r } => ExprV::Binary {
                l: Box::new((**l).view()),
                op: op@,
                r: Box::new((**r).view()),
            },
            Expr::Grouping { expr } => ExprV::Grouping { expr: Box::new((**expr).view()) },
            Expr::Literal { val } => ExprV::Literal { val: val@ },
            Expr::Unary { op, r } => ExprV::Unary { op: op@, r: Box::new((**r).view()) },
            Expr::Variable { name } => ExprV::Variable { name: name@ },
        }
    }
}

/// The four operations on doubles that the evaluator hands to its caller.
#[derive(Debug, Copy, Clone, PartialEq, Eq, Structural)]
pub enum ArithOp {
    Add,
    Sub,
    Mul,
    Div,
}

/// `arith` computes as `f` does.
pub open spec fn computes<A: Fn(ArithOp, u64, u64) -> u64>(
    arith: A,
    f: spec_fn(ArithOp, u64, u64) -> u64,
) -> bool {
    forall|op: ArithOp, a: u64, b: u64, r: u64| #[trigger]
        arith.ensures((op, a, b), r) ==> r == f(op, a, b)
}

/// Why an evaluation failed.
#[derive(Debug, Clone)]
pub enum EvalError {
    UndefinedVariable { name: String },
    UnaryTypeError { type_label: String },
    InvalidUnaryOperator { op: TokenType },
    DivisionByZero { dividend: u64 },
    BinaryTypeError { op: TokenType, left: LiteralVal, right: LiteralVal },
    UnimplementedOperator { op: TokenType, left: String, right: String },
}

pub enum EvalErr {
    UndefinedVariable { name: Seq<char> },
    UnaryTypeError { type_label: Seq<char> },
    InvalidUnaryOperator { op: TokenType },
    DivisionByZero { dividend: u64 },
    BinaryTypeError { op: TokenType, left: Value, right: Value },
    UnimplementedOperator { op: TokenType, left: Seq<char>, right: Seq<char> },
}

impl View for EvalError {
    type V = EvalErr;

    open spec fn view(&self) -> EvalErr {
        match self {
            EvalError::UndefinedVariable { name } => EvalErr::UndefinedVariable { name: name@ },
            EvalError::UnaryTypeError { type_label } => EvalErr::UnaryTypeError {
                type_label: type_label@,
            },
            EvalError::InvalidUnaryOperator { op } => EvalErr::InvalidUnaryOperator { op: *op },
            EvalError::DivisionByZero { dividend } => EvalErr::DivisionByZero {
                dividend: *dividend,
            },
            EvalError::BinaryTypeError { op, left, right } => EvalErr::BinaryTypeError {
                op: *op,
                left: left@,
                right: right@,
            },
            EvalError::UnimplementedOperator { op, left, right } => EvalErr::UnimplementedOperator {
                op: *op,
                left: left@,
                right: right@,
            },
        }
    }
}

pub open spec fn result_view(r: Result<LiteralVal, EvalError>) -> Result<Value, EvalErr> {
    match r {
        Ok(v) => Ok(v@),
        Err(e) => Err(e@),
    }
}

/// Applying a unary operator to a value.
pub open spec fn unary_result(op: TokenType, v: Value) -> Result<Value, EvalErr> {
    match op {
        TokenType::Minus => match v {
            Value::Num(x) => Ok(Value::Num(num_neg(x))),
            _ => Err(EvalErr::UnaryTypeError { type_label: type_label(v) }),
        },
        TokenType::Bang => Ok(bool_value(falsy(v))),
        _ => Err(EvalErr::InvalidUnaryOperator { op }),
    }
}

pub open spec fn unimplemented(op: TokenType, a: Value, b: Value) -> Result<Value, EvalErr> {
    Err(EvalErr::UnimplementedOperator { op, left: type_label(a), right: type_label(b) })
}

/// Applying a binary operator to two values, with `f` doing arithmetic on doubles.
pub open spec fn binary_result(
    a: Value,
    op: TokenType,
    b: Value,
    f: spec_fn(ArithOp, u64, u64) -> u64,
) -> Result<Value, EvalErr> {
    if op == TokenType::EqualEqual {
        Ok(bool_value(value_eq(a, b)))
    } else if op == TokenType::BangEqual {
        Ok(bool_value(!value_eq(a, b)))
    } else {
        match (a, b) {
            (Value::Num(x), Value::Num(y)) => match op {
                TokenType::Plus => Ok(Value::Num(f(ArithOp::Add, x, y))),
                TokenType::Minus => Ok(Value::Num(f(ArithOp::Sub, x, y))),
                TokenType::Star => Ok(Value::Num(f(ArithOp::Mul, x, y))),
                TokenType::Slash => if zero_bits(y) {
                    Err(EvalErr::DivisionByZero { dividend: x })
                } else {
                    Ok(Value::Num(f(ArithOp::Div, x, y)))
                },
                TokenType::Greater => Ok(bool_value(num_lt(y, x))),
                TokenType::GreaterEqual => Ok(bool_value(num_le(y, x))),
                TokenType::Less => Ok(bool_value(num_lt(x, y))),
                TokenType::LessEqual => Ok(bool_value(num_le(x, y))),
                _ => unimplemented(op, a, b),
            },
            (Value::Str(s), Value::Str(t)) => match op {
                TokenType::Plus => Ok(Value::Str(s + t)),
                TokenType::Greater => Ok(bool_value(seq_less(t, s))),
                TokenType::GreaterEqual => Ok(bool_value(!seq_less(s, t))),
                TokenType::Less => Ok(bool_value(seq_less(s, t))),
                TokenType::LessEqual => Ok(bool_value(!seq_less(t, s))),
                _ => unimplemented(op, a, b),
            },
            (Value::Num(_), Value::Str(_)) | (Value::Str(_), Value::Num(_)) => Err(
                EvalErr::BinaryTypeError { op, left: a, right: b },
            ),
            _ => unimplemented(op, a, b),
        }
    }
}

/// The value of `e` with the variables of `env`, with `f` doing arithmetic on doubles.
/// Children are evaluated left to right; the first error ends the evaluation.
pub open spec fn eval_expr(
    e: ExprV,
    env: Map<Seq<char>, Value>,
    f: spec_fn(ArithOp, u64, u64) -> u64,
) -> Result<Value, EvalErr>
    decreases e,
{
    match e {
        ExprV::Variable { name } => if env.contains_key(name.lexeme) {
            Ok(env[name.lexeme])
        } else {
            Err(EvalErr::UndefinedVariable { name: name.lexeme })
        },
        ExprV::Literal { val } => Ok(val),
        ExprV::Grouping { expr } => eval_expr(*expr, env, f),
        ExprV::Unary { op, r } => match eval_expr(*r, env, f) {
            Ok(v) => unary_result(op.kind, v),
            Err(x) => Err(x),
        },
        ExprV::Binary { l, op, r } => match eval_expr(*l, env, f) {
            Ok(a) => match eval_expr(*r, env, f) {
                Ok(b) => binary_result(a, op.kind, b, f),
                Err(x) => Err(x),
            },
            Err(x) => Err(x),
        },
    }
}

/// The prefix text of `e`, with `show` giving the text of a number.
pub open spec fn expr_text(e: ExprV, show: spec_fn(u64) -> Seq<char>) -> Seq<char>
    decreases e,
{
    match e {
        ExprV::Binary { l, op, r } => "("@ + op.lexeme + " "@ + expr_text(*l, show) + " "@
            + expr_text(*r, show) + ")"@,
        ExprV::Grouping { expr } => "(group "@ + expr_text(*expr, show) + ")"@,
        ExprV::Literal { val } => value_text(val, show),
        ExprV::Unary { op, r } => "("@ + op.lexeme + " "@ + expr_text(*r, show) + ")"@,
        ExprV::Variable { name } => "var "@ + name.lexeme,
    }
}

/// Applies a unary operator.
fn unary_op(op: TokenType, v: LiteralVal) -> (r: Result<LiteralVal, EvalError>)
    ensures
        result_view(r) == unary_result(op, v@),
{
    match (op, &v) {
        (TokenType::Minus, LiteralVal::NumVal(x)) => Ok(LiteralVal::NumVal(negate(*x))),
        (TokenType::Minus, _) => Err(EvalError::UnaryTypeError { type_label: v.as_literal_type() }),
        (TokenType::Bang, _) => Ok(v.is_falsy()),
        _ => Err(EvalError::InvalidUnaryOperator { op }),
    }
}

fn unimplemented_op(op: TokenType, a: &LiteralVal, b: &LiteralVal) -> (r: Result<
    LiteralVal,
    EvalError,
>)
    ensures
        result_view(r) == unimplemented(op, a@, b@),
{
    Err(
        EvalError::UnimplementedOperator {
            op,
            left: a.as_literal_type(),
            right: b.as_literal_type(),
        },
    )
}

/// Applies a binary operator, handing arithmetic on doubles to `arith`.
fn binary_op<A: Fn(ArithOp, u64, u64) -> u64>(
    a: LiteralVal,
    op: TokenType,
    b: LiteralVal,
    arith: &A,
) -> (r: Result<LiteralVal, EvalError>)
    requires
        forall|o: ArithOp, x: u64, y: u64| arith.requires((o, x, y)),
    ensures
        forall|f: spec_fn(ArithOp, u64, u64) -> u64| #[trigger]
            computes(*arith, f) ==> result_view(r) == binary_result(a@, op, b@, f),
{
    if op == TokenType::EqualEqual {
        return Ok(LiteralVal::is_boolean_truthy(a.equals(&b)));
    }
    if op == TokenType::BangEqual {
        return Ok(LiteralVal::is_boolean_truthy(!a.equals(&b)));
    }
    match (&a, &b) {
        (LiteralVal::NumVal(x), LiteralVal::NumVal(y)) => match op {
            TokenType::Plus => Ok(LiteralVal::NumVal(arith(ArithOp::Add, *x, *y))),
            TokenType::Minus => Ok(LiteralVal::NumVal(arith(ArithOp::Sub, *x, *y))),
            TokenType::Star => Ok(LiteralVal::NumVal(arith(ArithOp::Mul, *x, *y))),
            TokenType::Slash => {
                if is_zero(*y) {
                    Err(EvalError::DivisionByZero { dividend: *x })
                } else {
                    Ok(LiteralVal::NumVal(arith(ArithOp::Div, *x, *y)))
                }
            },
            TokenType::Greater => Ok(LiteralVal::is_boolean_truthy(less(*y, *x))),
            TokenType::GreaterEqual => Ok(LiteralVal::is_boolean_truthy(less_equal(*y, *x))),
            TokenType::Less => Ok(LiteralVal::is_boolean_truthy(less(*x, *y))),
            TokenType::LessEqual => Ok(LiteralVal::is_boolean_truthy(less_equal(*x, *y))),
            _ => unimplemented_op(op, &a, &b),
        },
        (LiteralVal::StringVal(s), LiteralVal::StringVal(t)) => {
            let sc = chars_of(s.as_str());
            let tc = chars_of(t.as_str());
            match op {
                TokenType::Plus => {
                    let mut joined = s.clone();
                    append_str(&mut joined, t.as_str());
                    Ok(LiteralVal::StringVal(joined))
                },
                TokenType::Greater => Ok(
                    LiteralVal::is_boolean_truthy(chars_less(tc.as_slice(), sc.as_slice())),
                ),
                TokenType::GreaterEqual => Ok(
                    LiteralVal::is_boolean_truthy(!chars_less(sc.as_slice(), tc.as_slice())),
                ),
                TokenType::Less => Ok(
                    LiteralVal::is_boolean_truthy(chars_less(sc.as_slice(), tc.as_slice())),
                ),
                TokenType::LessEqual => Ok(
                    LiteralVal::is_boolean_truthy(!chars_less(tc.as_slice(), sc.as_slice())),
                ),
                _ => unimplemented_op(op, &a, &b),
            }
        },
        (LiteralVal::NumVal(_), LiteralVal::StringVal(_)) | (
            LiteralVal::StringVal(_),
            LiteralVal::NumVal(_),
        ) => Err(EvalError::BinaryTypeError { op, left: a.duplicate(), right: b.duplicate() }),
        _ => unimplemented_op(op, &a, &b),
    }
}

impl Expr {
    /// The prefix text of the tree: `(op left right)`, `(group inner)`, the literal's text,
    /// `(op operand)`, `var name`.
    pub fn format_str<S: Fn(u64) -> String>(&self, show: &S) -> (r: String)
        requires
            forall|x: u64| show.requires((x,)),
        ensures
            forall|g: spec_fn(u64) -> Seq<char>| #[trigger]
                shows_as(*show, g) ==> r@ == expr_text(self@, g),
        decreases self,
    {
        match self {
            Expr::Binary { l, op, r } => {
                let ls = l.format_str(show);
                let rs = r.format_str(show);
                let mut out = String::from_str("(");
                append_str(&mut out, op.lexeme.as_str());
                append_str(&mut out, " ");
                append_str(&mut out, ls.as_str());
                append_str(&mut out, " ");
                append_str(&mut out, rs.as_str());
                append_str(&mut out, ")");
                out
            },
            Expr::Grouping { expr } => {
                let inner = expr.format_str(show);
                let mut out = String::from_str("(group ");
                append_str(&mut out, inner.as_str());
                append_str(&mut out, ")");
                out
            },
            Expr::Literal { val } => val.format_str(show),
            Expr::Unary { op, r } => {
                let rs = r.format_str(show);
                let mut out = String::from_str("(");
                append_str(&mut out, op.lexeme.as_str());
                append_str(&mut out, " ");
                append_str(&mut out, rs.as_str());
                append_str(&mut out, ")");
                out
            },
            Expr::Variable { name } => {
                let mut out = String::from_str("var ");
                append_str(&mut out, name.lexeme.as_str());
                out
            },
        }
    }

    /// Evaluates the tree with the variables of `enviro`, handing arithmetic on doubles to
    /// `arith`.
    pub fn eval<A: Fn(ArithOp, u64, u64) -> u64>(&self, enviro: &Enviro, arith: &A) -> (r: Result<
        LiteralVal,
        EvalError,
    >)
        requires
            enviro.wf(),
            forall|o: ArithOp, x: u64, y: u64| arith.requires((o, x, y)),
        ensures
            forall|f: spec_fn(ArithOp, u64, u64) -> u64| #[trigger]
                computes(*arith, f) ==> result_view(r) == eval_expr(self@, enviro@, f),
        decreases self,
    {
        match self {
            Expr::Variable { name } => match enviro.get(name.lexeme.as_str()) {
                Some(v) => Ok(v.duplicate()),
                None => Err(EvalError::UndefinedVariable { name: name.lexeme.clone() }),
            },
            Expr::Literal { val } => Ok(val.duplicate()),
            Expr::Grouping { expr } => expr.eval(enviro, arith),
            Expr::Unary { op, r } => {
                let v = r.eval(enviro, arith)?;
                unary_op(op.token_type, v)
            },
            Expr::Binary { l, op, r } => {
                let a = l.eval(enviro, arith)?;
                let b = r.eval(enviro, arith)?;
                binary_op(a, op.token_type, b, arith)
            },
        }
    }
}

} // verus!
