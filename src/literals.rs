//! Runtime values and the truth table of `!`.
use vstd::prelude::*;
use crate::number::{equal, int_to_bits, int_to_double, is_zero, num_eq, zero_bits};
use crate::scanner::{self, Payload, Token, TokenType, TokenV};

verus! {

/// A runtime value. A number is held as the IEEE-754 bit pattern of a double.
#[derive(Debug, Clone)]
pub enum LiteralVal {
    NumVal(u64),
    StringVal(String),
    TrueVal,
    FalseVal,
    NullVal,
}

/// The mathematical form of a runtime value.
pub enum Value {
    Num(u64),
    Str(Seq<char>),
    True,
    False,
    Null,
}

impl View for LiteralVal {
    type V = Value;

    open spec fn view(&self) -> Value {
        match self {
            LiteralVal::NumVal(b) => Value::Num(*b),
            LiteralVal::StringVal(s) => Value::Str(s@),
            LiteralVal::TrueVal => Value::True,
            LiteralVal::FalseVal => Value::False,
            LiteralVal::NullVal => Value::Null,
        }
    }
}

pub open spec fn bool_value(b: bool) -> Value {
    if b {
        Value::True
    } else {
        Value::False
    }
}

/// Structural equality: same variant and same payload, numbers compared as doubles.
pub open spec fn value_eq(a: Value, b: Value) -> bool {
    match (a, b) {
        (Value::Num(x), Value::Num(y)) => num_eq(x, y),
        (Value::Str(x), Value::Str(y)) => x == y,
        (Value::True, Value::True) => true,
        (Value::False, Value::False) => true,
        (Value::Null, Value::Null) => true,
        _ => false,
    }
}

/// Whether a value counts as false; this is also the result of `!`.
pub open spec fn falsy(v: Value) -> bool {
    match v {
        Value::Num(x) => zero_bits(x),
        Value::Str(s) => s.len() == 0,
        Value::True => false,
        Value::False => true,
        Value::Null => true,
    }
}

pub open spec fn type_label(v: Value) -> Seq<char> {
    match v {
        Value::Num(_) => "Number"@,
        Value::Str(_) => "String"@,
        _ => "Boolean"@,
    }
}

/// The text of a value, with `show` giving the text of a number.
pub open spec fn value_text(v: Value, show: spec_fn(u64) -> Seq<char>) -> Seq<char> {
    match v {
        Value::Num(x) => show(x),
        Value::Str(s) => s,
        Value::True => "true"@,
        Value::False => "false"@,
        Value::Null => "null"@,
    }
}

/// `show` prints numbers as `g` does.
pub open spec fn shows_as<S: Fn(u64) -> String>(show: S, g: spec_fn(u64) -> Seq<char>) -> bool {
    forall|x: u64, r: String| #[trigger] show.ensures((x,), r) ==> r@ == g(x)
}

/// A token that `token_fmt` accepts: a literal kind, carrying the payload of its kind.
pub open spec fn literal_token(t: TokenV) -> bool {
    match t.kind {
        TokenType::Number => t.literal matches Some(Payload::Float(_)) || t.literal matches Some(
            Payload::Int(_),
        ),
        TokenType::StringLit => t.literal matches Some(Payload::Str(_)),
        TokenType::True | TokenType::False | TokenType::Nil => true,
        _ => false,
    }
}

/// The value that a literal token stands for.
pub open spec fn token_value(t: TokenV) -> Value {
    match t.kind {
        TokenType::Number => match t.literal {
            Some(Payload::Float(b)) => Value::Num(b),
            Some(Payload::Int(i)) => Value::Num(int_to_bits(i)),
            _ => Value::Null,
        },
        TokenType::StringLit => match t.literal {
            Some(Payload::Str(s)) => Value::Str(s),
            _ => Value::Null,
        },
        TokenType::True => Value::True,
        TokenType::False => Value::False,
        _ => Value::Null,
    }
}

/// The text that a string or identifier payload holds.
pub fn unwrap_as_str(literal: Option<scanner::LiteralVal>) -> (r: String)
    requires
        literal matches Some(scanner::LiteralVal::StringVal(_)) || literal matches Some(
            scanner::LiteralVal::IdentifierVal(_),
        ),
    ensures
        literal matches Some(scanner::LiteralVal::StringVal(s)) ==> r@ == s@,
        literal matches Some(scanner::LiteralVal::IdentifierVal(s)) ==> r@ == s@,
{
    match literal {
        Some(scanner::LiteralVal::StringVal(s)) => s,
        Some(scanner::LiteralVal::IdentifierVal(s)) => s,
        _ => String::new(),
    }
}

impl LiteralVal {
    /// A copy with the same view.
    pub fn duplicate(&self) -> (r: LiteralVal)
        ensures
            r@ == self@,
    {
        match self {
            LiteralVal::NumVal(b) => LiteralVal::NumVal(*b),
            LiteralVal::StringVal(s) => LiteralVal::StringVal(s.clone()),
            LiteralVal::TrueVal => LiteralVal::TrueVal,
            LiteralVal::FalseVal => LiteralVal::FalseVal,
            LiteralVal::NullVal => LiteralVal::NullVal,
        }
    }

    /// The text of the value: numbers as `show` prints them, strings unquoted.
    pub fn format_str<S: Fn(u64) -> String>(&self, show: &S) -> (r: String)
        requires
            forall|x: u64| show.requires((x,)),
        ensures
            forall|g: spec_fn(u64) -> Seq<char>| #[trigger]
                shows_as(*show, g) ==> r@ == value_text(self@, g),
    {
        match self {
            LiteralVal::NumVal(v) => show(*v),
            LiteralVal::StringVal(s) => s.clone(),
            LiteralVal::TrueVal => String::from_str("true"),
            LiteralVal::FalseVal => String::from_str("false"),
            LiteralVal::NullVal => String::from_str("null"),
        }
    }

    /// The name of the value's type in error messages.
    pub fn as_literal_type(&self) -> (r: String)
        ensures
            r@ == type_label(self@),
    {
        match self {
            LiteralVal::NumVal(_) => String::from_str("Number"),
            LiteralVal::StringVal(_) => String::from_str("String"),
            LiteralVal::TrueVal => String::from_str("Boolean"),
            LiteralVal::FalseVal => String::from_str("Boolean"),
            LiteralVal::NullVal => String::from_str("Boolean"),
        }
    }

    /// The value of a literal token.
    pub fn token_fmt(token: Token) -> (r: Self)
        requires
            literal_token(token@),
        ensures
            r@ == token_value(token@),
    {
        match token.token_type {
            TokenType::Number => match token.literal {
                Some(scanner::LiteralVal::FVal(b)) => LiteralVal::NumVal(b),
                Some(scanner::LiteralVal::IntVal(i)) => LiteralVal::NumVal(int_to_double(i)),
                _ => LiteralVal::NullVal,
            },
            TokenType::StringLit => LiteralVal::StringVal(unwrap_as_str(token.literal)),
            TokenType::True => LiteralVal::TrueVal,
            TokenType::False => LiteralVal::FalseVal,
            _ => LiteralVal::NullVal,
        }
    }

    /// Whether the value counts as false, as a value: `TrueVal` for zero, the empty string,
    /// `false` and null. This is the result of `!`.
    pub fn is_falsy(&self) -> (r: LiteralVal)
        ensures
            r@ == bool_value(falsy(self@)),
    {
        match self {
            LiteralVal::NumVal(x) => {
                if is_zero(*x) {
                    LiteralVal::TrueVal
                } else {
                    LiteralVal::FalseVal
                }
            },
            LiteralVal::StringVal(s) => {
                if s.as_str().unicode_len() == 0 {
                    LiteralVal::TrueVal
                } else {
                    LiteralVal::FalseVal
                }
            },
            LiteralVal::TrueVal => LiteralVal::FalseVal,
            LiteralVal::FalseVal => LiteralVal::TrueVal,
            LiteralVal::NullVal => LiteralVal::TrueVal,
        }
    }

    /// `TrueVal` or `FalseVal`.
    pub fn is_boolean_truthy(b: bool) -> (r: Self)
        ensures
            r@ == bool_value(b),
    {
        if b {
            LiteralVal::TrueVal
        } else {
            LiteralVal::FalseVal
        }
    }

    /// Structural equality, numbers compared as doubles.
    pub fn equals(&self, other: &LiteralVal) -> (r: bool)
        ensures
            r == value_eq(self@, other@),
    {
        match (self, other) {
            (LiteralVal::NumVal(x), LiteralVal::NumVal(y)) => equal(*x, *y),
            (LiteralVal::StringVal(x), LiteralVal::StringVal(y)) => *x == *y,
            (LiteralVal::TrueVal, LiteralVal::TrueVal) => true,
            (LiteralVal::FalseVal, LiteralVal::FalseVal) => true,
            (LiteralVal::NullVal, LiteralVal::NullVal) => true,
            _ => false,
        }
    }
}

impl PartialEq for LiteralVal {
    fn eq(&self, other: &LiteralVal) -> (r: bool) {
        self.equals(other)
    }
}

impl vstd::std_specs::cmp::PartialEqSpecImpl for LiteralVal {
    open spec fn obeys_eq_spec() -> bool {
        true
    }

    open spec fn eq_spec(&self, other: &LiteralVal) -> bool {
        value_eq(self@, other@)
    }
}

} // verus!
