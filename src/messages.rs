//! The text of each error, as a user reads it.
use vstd::prelude::*;
use crate::expr::{EvalErr, EvalError};
use crate::literals::{shows_as, value_text};
use crate::parser::ParseError;
use crate::interpreter::{RunErr, RunError};
use crate::scanner::{errors_view, kind_text, ScanErr, ScanError};
use crate::text::{append_str, debug_quoted, quoted_of, string_of};

verus! {

pub open spec fn digit_chars() -> Seq<char> {
    seq!['0', '1', '2', '3', '4', '5', '6', '7', '8', '9']
}

/// The decimal digits of `n`, without leading zeros.
pub open spec fn decimal(n: nat) -> Seq<char>
    decreases n,
{
    if n < 10 {
        seq![digit_chars()[n as int]]
    } else {
        decimal(n / 10).push(digit_chars()[(n % 10) as int])
    }
}

/// The decimal text of `n`.
pub fn decimal_text(n: u64) -> (r: String)
    ensures
        r@ == decimal(n as nat),
{
    let digits = ['0', '1', '2', '3', '4', '5', '6', '7', '8', '9'];
    assert(digits@ =~= digit_chars());
    let mut tail: Vec<char> = Vec::new();
    let mut m = n;
    while m >= 10
        invariant
            digits@ == digit_chars(),
            decimal(n as nat) == decimal(m as nat) + tail@,
        decreases m,
    {
        let d = digits[(m % 10) as usize];
        let ghost before = tail@;
        tail.insert(0, d);
        proof {
            assert(decimal(m as nat) == decimal((m / 10) as nat).push(d));
            assert(decimal((m / 10) as nat).push(d) + before =~= decimal((m / 10) as nat) + tail@);
        }
        m = m / 10;
    }
    let ghost before = tail@;
    tail.insert(0, digits[m as usize]);
    proof {
        assert(decimal(m as nat) + before =~= tail@);
    }
    string_of(tail.as_slice(), 0, tail.len())
}

/// The decimal text of `i`, with a minus sign when negative.
pub open spec fn signed_decimal(i: int) -> Seq<char> {
    if i < 0 {
        "-"@ + decimal((-i) as nat)
    } else {
        decimal(i as nat)
    }
}

/// The decimal text of `i`, with a minus sign when negative.
pub fn signed_decimal_text(i: i64) -> (r: String)
    ensures
        r@ == signed_decimal(i as int),
{
    if i < 0 {
        let magnitude = (-(i as i128)) as u64;
        let mut out = String::from_str("-");
        append_str(&mut out, decimal_text(magnitude).as_str());
        out
    } else {
        decimal_text(i as u64)
    }
}

/// The text of a scanning error.
pub open spec fn scan_message(e: ScanErr) -> Seq<char> {
    match e {
        ScanErr::BadChar { line, c } => "Bad char at line "@ + decimal(line) + ": "@ + seq![c],
        ScanErr::UnterminatedString { line } => "Unterminated string at line "@ + decimal(line),
        ScanErr::NumberParse { text } => "Could not parse num: "@ + text,
    }
}

/// The messages of `es`, each followed by a newline.
pub open spec fn joined_messages(es: Seq<ScanErr>) -> Seq<char>
    decreases es.len(),
{
    if es.len() == 0 {
        seq![]
    } else {
        joined_messages(es.drop_last()) + scan_message(es.last()) + "\n"@
    }
}

/// The text of a parsing error.
pub open spec fn parse_message(e: ParseError) -> Seq<char> {
    match e {
        ParseError::Missing { expected, found } => "Expected "@ + kind_text(expected)
            + ", found "@ + kind_text(found),
        ParseError::ExpectedExpression { found } => "Expected expression, found "@ + kind_text(
            found,
        ),
    }
}

/// The text of an evaluation error, with `show` giving the text of a number.
pub open spec fn eval_message(e: EvalErr, show: spec_fn(u64) -> Seq<char>) -> Seq<char> {
    match e {
        EvalErr::UndefinedVariable { name } => "Variable -=("@ + name
            + ")=- has not been declared!"@,
        EvalErr::UnaryTypeError { type_label } => "Cannot use Minus operator on type "@
            + type_label,
        EvalErr::InvalidUnaryOperator { op } => kind_text(op)
            + " is not a valid operator for unaries"@,
        EvalErr::DivisionByZero { dividend } => "Cannot divide -=("@ + show(dividend)
            + ")=- by 0, results in infinity"@,
        EvalErr::BinaryTypeError { op, left, right } => "Cannot use "@ + kind_text(op)
            + " operator between "@ + crate::literals::type_label(left) + " and "@
            + crate::literals::type_label(right) + " types -=("@ + value_text(left, show)
            + " and "@ + value_text(right, show) + ")=-"@,
        EvalErr::UnimplementedOperator { op, left, right } => kind_text(op)
            + " not yet implemented for -=("@ + quoted_of(left) + " and "@ + quoted_of(right)
            + ")=-"@,
    }
}

/// A string of one character.
fn char_text(c: char) -> (r: String)
    ensures
        r@ == seq![c],
{
    let one = [c];
    assert(one@ =~= seq![c]);
    string_of(one.as_slice(), 0, 1)
}

impl ScanError {
    pub fn message(&self) -> (r: String)
        ensures
            r@ == scan_message(self@),
    {
        match self {
            ScanError::BadChar { line, c } => {
                let mut out = String::from_str("Bad char at line ");
                append_str(&mut out, decimal_text(*line as u64).as_str());
                append_str(&mut out, ": ");
                append_str(&mut out, char_text(*c).as_str());
                out
            },
            ScanError::UnterminatedString { line } => {
                let mut out = String::from_str("Unterminated string at line ");
                append_str(&mut out, decimal_text(*line as u64).as_str());
                out
            },
            ScanError::NumberParse { text } => {
                let mut out = String::from_str("Could not parse num: ");
                append_str(&mut out, text.as_str());
                out
            },
        }
    }
}

/// Every message of `errs`, each followed by a newline.
pub fn join_messages(errs: &Vec<ScanError>) -> (r: String)
    ensures
        r@ == joined_messages(errors_view(errs@)),
{
    let ghost ev = errors_view(errs@);
    let mut out = String::new();
    let mut i: usize = 0;
    while i < errs.len()
        invariant
            i <= errs@.len(),
            ev == errors_view(errs@),
            out@ == joined_messages(ev.take(i as int)),
        decreases errs.len() - i,
    {
        let m = errs[i].message();
        append_str(&mut out, m.as_str());
        append_str(&mut out, "\n");
        proof {
            assert(ev.take(i + 1).drop_last() =~= ev.take(i as int));
            assert(ev[i as int] == errs@[i as int]@);
        }
        i += 1;
    }
    proof {
        assert(ev.take(i as int) =~= ev);
    }
    out
}

impl ParseError {
    pub fn message(&self) -> (r: String)
        ensures
            r@ == parse_message(*self),
    {
        match self {
            ParseError::Missing { expected, found } => {
                let mut out = String::from_str("Expected ");
                append_str(&mut out, expected.name());
                append_str(&mut out, ", found ");
                append_str(&mut out, found.name());
                out
            },
            ParseError::ExpectedExpression { found } => {
                let mut out = String::from_str("Expected expression, found ");
                append_str(&mut out, found.name());
                out
            },
        }
    }
}

impl EvalError {
    /// The text of the error; `show` gives the text of a number.
    pub fn message<S: Fn(u64) -> String>(&self, show: &S) -> (r: String)
        requires
            forall|x: u64| show.requires((x,)),
        ensures
            forall|g: spec_fn(u64) -> Seq<char>| #[trigger]
                shows_as(*show, g) ==> r@ == eval_message(self@, g),
    {
        match self {
            EvalError::UndefinedVariable { name } => {
                let mut out = String::from_str("Variable -=(");
                append_str(&mut out, name.as_str());
                append_str(&mut out, ")=- has not been declared!");
                out
            },
            EvalError::UnaryTypeError { type_label } => {
                let mut out = String::from_str("Cannot use Minus operator on type ");
                append_str(&mut out, type_label.as_str());
                out
            },
            EvalError::InvalidUnaryOperator { op } => {
                let mut out = String::from_str(op.name());
                append_str(&mut out, " is not a valid operator for unaries");
                out
            },
            EvalError::DivisionByZero { dividend } => {
                let mut out = String::from_str("Cannot divide -=(");
                append_str(&mut out, show(*dividend).as_str());
                append_str(&mut out, ")=- by 0, results in infinity");
                out
            },
            EvalError::BinaryTypeError { op, left, right } => {
                let mut out = String::from_str("Cannot use ");
                append_str(&mut out, op.name());
                append_str(&mut out, " operator between ");
                append_str(&mut out, left.as_literal_type().as_str());
                append_str(&mut out, " and ");
                append_str(&mut out, right.as_literal_type().as_str());
                append_str(&mut out, " types -=(");
                append_str(&mut out, left.format_str(show).as_str());
                append_str(&mut out, " and ");
                append_str(&mut out, right.format_str(show).as_str());
                append_str(&mut out, ")=-");
                out
            },
            EvalError::UnimplementedOperator { op, left, right } => {
                let mut out = String::from_str(op.name());
                append_str(&mut out, " not yet implemented for -=(");
                append_str(&mut out, debug_quoted(left.as_str()).as_str());
                append_str(&mut out, " and ");
                append_str(&mut out, debug_quoted(right.as_str()).as_str());
                append_str(&mut out, ")=-");
                out
            },
        }
    }
}

/// The text of what stopped a run, with `show` giving the text of a number.
pub open spec fn run_message(e: RunErr, show: spec_fn(u64) -> Seq<char>) -> Seq<char> {
    match e {
        RunErr::Scan(es) => joined_messages(es),
        RunErr::Parse(x) => parse_message(x),
        RunErr::Eval(x) => eval_message(x, show),
    }
}

impl RunError {
    /// The text of the error; `show` gives the text of a number.
    pub fn message<S: Fn(u64) -> String>(&self, show: &S) -> (r: String)
        requires
            forall|x: u64| show.requires((x,)),
        ensures
            forall|g: spec_fn(u64) -> Seq<char>| #[trigger]
                shows_as(*show, g) ==> r@ == run_message(self@, g),
    {
        match self {
            RunError::Scan(es) => join_messages(es),
            RunError::Parse(x) => x.message(),
            RunError::Eval(x) => x.message(show),
        }
    }
}

} // verus!
