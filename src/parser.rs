//! Recursive-descent parsing of tokens into expressions and statements.
use vstd::prelude::*;
use crate::expr::{Expr, ExprV};
use crate::literals::{token_value, LiteralVal};
use crate::scanner::{parsable_token, Token, TokenType, TokenV};
use crate::statement::{Statement, StmtV};

verus! {

/// Why parsing stopped.
#[derive(Debug, Clone, Copy, PartialEq, Eq, Structural)]
pub enum ParseError {
    /// The token `expected` was needed where `found` stands.
    Missing { expected: TokenType, found: TokenType },
    /// No expression starts with `found`.
    ExpectedExpression { found: TokenType },
}

/// The kind of the token at `i`; past the end the input reads as `Eof`.
pub open spec fn kind_at(ts: Seq<TokenV>, i: int) -> TokenType {
    if 0 <= i < ts.len() {
        ts[i].kind
    } else {
        TokenType::Eof
    }
}

/// The operators of each binary level: equality, comparison, term, factor.
pub open spec fn level_op(level: int, k: TokenType) -> bool {
    if level == 0 {
        k == TokenType::BangEqual || k == TokenType::EqualEqual
    } else if level == 1 {
        k == TokenType::Greater || k == TokenType::GreaterEqual || k == TokenType::Less || k
            == TokenType::LessEqual
    } else if level == 2 {
        k == TokenType::Minus || k == TokenType::Plus
    } else {
        k == TokenType::Slash || k == TokenType::Star
    }
}

pub open spec fn literal_kind(k: TokenType) -> bool {
    k == TokenType::True || k == TokenType::False || k == TokenType::Nil || k == TokenType::Number
        || k == TokenType::StringLit
}

/// An expression and the position after it, or the error that stopped parsing.
pub type Parsed = Result<(ExprV, int), ParseError>;

pub open spec fn in_range(ts: Seq<TokenV>, lo: int, j: int) -> bool {
    lo <= j <= ts.len()
}

/// `expression := equality`
pub open spec fn p_expression(ts: Seq<TokenV>, i: int) -> Parsed
    decreases ts.len() - i, 22int,
{
    p_level(ts, i, 0)
}

/// `level := operand (op operand)*`, left-associative.
pub open spec fn p_level(ts: Seq<TokenV>, i: int, level: int) -> Parsed
    decreases ts.len() - i, 20 - 4 * level,
{
    if !(0 <= level <= 3 && 0 <= i <= ts.len()) {
        Err(ParseError::ExpectedExpression { found: TokenType::Eof })
    } else {
        match p_operand(ts, i, level) {
            Ok((e, j)) => if in_range(ts, i, j) {
                p_rest(ts, e, j, level)
            } else {
                Ok((e, j))
            },
            Err(x) => Err(x),
        }
    }
}

/// The operators and operands that follow `lhs` at `j`.
pub open spec fn p_rest(ts: Seq<TokenV>, lhs: ExprV, j: int, level: int) -> Parsed
    decreases ts.len() - j, 19 - 4 * level,
{
    if !(0 <= level <= 3 && 0 <= j < ts.len() && kind_at(ts, j) != TokenType::Eof && level_op(
        level,
        kind_at(ts, j),
    )) {
        Ok((lhs, j))
    } else {
        match p_operand(ts, j + 1, level) {
            Ok((r, k)) => if in_range(ts, j + 1, k) {
                p_rest(ts, ExprV::Binary { l: Box::new(lhs), op: ts[j], r: Box::new(r) }, k, level)
            } else {
                Ok((lhs, j))
            },
            Err(x) => Err(x),
        }
    }
}

/// The operand of a level: the next level, or `unary` under the factor level.
pub open spec fn p_operand(ts: Seq<TokenV>, i: int, level: int) -> Parsed
    decreases ts.len() - i, 18 - 4 * level,
{
    if !(0 <= level <= 3 && 0 <= i <= ts.len()) {
        Err(ParseError::ExpectedExpression { found: TokenType::Eof })
    } else if level < 3 {
        p_level(ts, i, level + 1)
    } else {
        p_unary(ts, i)
    }
}

/// `unary := ("!" | "-") unary | primary`
pub open spec fn p_unary(ts: Seq<TokenV>, i: int) -> Parsed
    decreases ts.len() - i, 4int,
{
    if !(0 <= i <= ts.len()) {
        Err(ParseError::ExpectedExpression { found: TokenType::Eof })
    } else if kind_at(ts, i) == TokenType::Bang || kind_at(ts, i) == TokenType::Minus {
        match p_unary(ts, i + 1) {
            Ok((r, j)) => Ok((ExprV::Unary { op: ts[i], r: Box::new(r) }, j)),
            Err(x) => Err(x),
        }
    } else {
        p_primary(ts, i)
    }
}

/// `primary := literal | "(" expression ")" | identifier`
pub open spec fn p_primary(ts: Seq<TokenV>, i: int) -> Parsed
    decreases ts.len() - i, 3int,
{
    let k = kind_at(ts, i);
    if !(0 <= i <= ts.len()) {
        Err(ParseError::ExpectedExpression { found: TokenType::Eof })
    } else if k == TokenType::LParen {
        match p_expression(ts, i + 1) {
            Ok((e, j)) => if kind_at(ts, j) == TokenType::RParen {
                Ok((ExprV::Grouping { expr: Box::new(e) }, j + 1))
            } else {
                Err(ParseError::Missing { expected: TokenType::RParen, found: kind_at(ts, j) })
            },
            Err(x) => Err(x),
        }
    } else if literal_kind(k) {
        Ok((ExprV::Literal { val: token_value(ts[i]) }, i + 1))
    } else if k == TokenType::Identifier {
        Ok((ExprV::Variable { name: ts[i] }, i + 1))
    } else {
        Err(ParseError::ExpectedExpression { found: k })
    }
}

/// A statement and the position after it, or the error that stopped parsing.
pub type ParsedStmt = Result<(StmtV, int), ParseError>;

/// An expression followed by `;`, wrapped by `wrap`.
pub open spec fn p_terminated(ts: Seq<TokenV>, i: int, wrap: spec_fn(ExprV) -> StmtV) -> ParsedStmt {
    match p_expression(ts, i) {
        Ok((e, j)) => if kind_at(ts, j) == TokenType::Semicolon {
            Ok((wrap(e), j + 1))
        } else {
            Err(ParseError::Missing { expected: TokenType::Semicolon, found: kind_at(ts, j) })
        },
        Err(x) => Err(x),
    }
}

/// `statement := "print" expression ";" | "var" IDENTIFIER "=" expression ";" | expression ";"`
pub open spec fn p_statement(ts: Seq<TokenV>, i: int) -> ParsedStmt {
    let k = kind_at(ts, i);
    if k == TokenType::Print {
        p_terminated(ts, i + 1, |e: ExprV| StmtV::Print { expr: e })
    } else if k == TokenType::Var {
        if kind_at(ts, i + 1) != TokenType::Identifier {
            Err(ParseError::Missing { expected: TokenType::Identifier, found: kind_at(ts, i + 1) })
        } else if kind_at(ts, i + 2) != TokenType::Equal {
            Err(ParseError::Missing { expected: TokenType::Equal, found: kind_at(ts, i + 2) })
        } else {
            p_terminated(ts, i + 3, |e: ExprV| StmtV::Var { t: ts[i + 1], init: e })
        }
    } else {
        p_terminated(ts, i, |e: ExprV| StmtV::Expression { expr: e })
    }
}

/// `program := statement* Eof`, stopping at the first error.
pub open spec fn p_program(ts: Seq<TokenV>, i: int) -> Result<Seq<StmtV>, ParseError>
    decreases ts.len() - i,
{
    if !(0 <= i < ts.len()) || kind_at(ts, i) == TokenType::Eof {
        Ok(seq![])
    } else {
        match p_statement(ts, i) {
            Ok((s, j)) => if in_range(ts, i + 1, j) {
                match p_program(ts, j) {
                    Ok(rest) => Ok(seq![s] + rest),
                    Err(x) => Err(x),
                }
            } else {
                Ok(seq![s])
            },
            Err(x) => Err(x),
        }
    }
}

/// Whether a statement may start with `k`.
pub open spec fn statement_start(k: TokenType) -> bool {
    k == TokenType::Class || k == TokenType::Fun || k == TokenType::Var || k == TokenType::For || k
        == TokenType::If || k == TokenType::While || k == TokenType::Print || k == TokenType::Return
}

/// The first position at or after `i` that holds `Eof` or starts a statement.
pub open spec fn sync_point(ts: Seq<TokenV>, i: int) -> int
    decreases ts.len() - i,
{
    if 0 <= i < ts.len() && kind_at(ts, i) != TokenType::Eof && !statement_start(kind_at(ts, i)) {
        sync_point(ts, i + 1)
    } else {
        i
    }
}

pub open spec fn tokens_of(p: Parser) -> Seq<TokenV> {
    crate::scanner::tokens_view(p.tokens@)
}

/// The outcome of an expression parse: the expression and where the cursor stands, or the
/// error.
pub open spec fn parsed_as(r: Result<Expr, ParseError>, cursor: usize, s: Parsed) -> bool {
    match (r, s) {
        (Ok(e), Ok((v, j))) => e@ == v && cursor == j,
        (Err(x), Err(y)) => x == y,
        _ => false,
    }
}

pub open spec fn statements_view(v: Seq<Statement>) -> Seq<StmtV> {
    v.map_values(|s: Statement| s@)
}

/// A cursor over a sequence of tokens.
pub struct Parser {
    pub tokens: Vec<Token>,
    pub current: usize,
}

impl Parser {
    pub open spec fn wf(&self) -> bool {
        &&& self.current <= self.tokens@.len()
        &&& tokens_of(*self).len() == self.tokens@.len()
        &&& forall|i: int| 0 <= i < self.tokens@.len() ==> parsable_token(#[trigger] self.tokens@[i]@)
    }

    pub fn new(tokens: Vec<Token>) -> (r: Self)
        requires
            forall|i: int| 0 <= i < tokens@.len() ==> parsable_token(#[trigger] tokens@[i]@),
        ensures
            r.wf(),
            r.tokens == tokens,
            r.current == 0,
    {
        Parser { tokens, current: 0 }
    }

    /// Parses one expression from the cursor on.
    pub fn parse(&mut self) -> (r: Result<Expr, ParseError>)
        requires
            old(self).wf(),
        ensures
            final(self).wf(),
            final(self).tokens == old(self).tokens,
            parsed_as(r, final(self).current, p_expression(tokens_of(*old(self)), old(self).current as int)),
    {
        self.expression()
    }

    /// `expression := equality`
    pub fn expression(&mut self) -> (r: Result<Expr, ParseError>)
        requires
            old(self).wf(),
        ensures
            final(self).wf(),
            final(self).tokens == old(self).tokens,
            parsed_as(r, final(self).current, p_expression(tokens_of(*old(self)), old(self).current as int)),
            r is Ok ==> final(self).current >= old(self).current,
        decreases old(self).tokens@.len() - old(self).current, 23int,
    {
        self.equality()
    }

    fn equality(&mut self) -> (r: Result<Expr, ParseError>)
        requires
            old(self).wf(),
        ensures
            final(self).wf(),
            final(self).tokens == old(self).tokens,
            parsed_as(r, final(self).current, p_level(tokens_of(*old(self)), old(self).current as int, 0)),
            r is Ok ==> final(self).current >= old(self).current,
        decreases old(self).tokens@.len() - old(self).current, 21int,
    {
        self.binary(0)
    }

    fn comparison(&mut self) -> (r: Result<Expr, ParseError>)
        requires
            old(self).wf(),
        ensures
            final(self).wf(),
            final(self).tokens == old(self).tokens,
            parsed_as(r, final(self).current, p_level(tokens_of(*old(self)), old(self).current as int, 1)),
            r is Ok ==> final(self).current >= old(self).current,
        decreases old(self).tokens@.len() - old(self).current, 17int,
    {
        self.binary(1)
    }

    fn term(&mut self) -> (r: Result<Expr, ParseError>)
        requires
            old(self).wf(),
        ensures
            final(self).wf(),
            final(self).tokens == old(self).tokens,
            parsed_as(r, final(self).current, p_level(tokens_of(*old(self)), old(self).current as int, 2)),
            r is Ok ==> final(self).current >= old(self).current,
        decreases old(self).tokens@.len() - old(self).current, 13int,
    {
        self.binary(2)
    }

    fn factor(&mut self) -> (r: Result<Expr, ParseError>)
        requires
            old(self).wf(),
        ensures
            final(self).wf(),
            final(self).tokens == old(self).tokens,
            parsed_as(r, final(self).current, p_level(tokens_of(*old(self)), old(self).current as int, 3)),
            r is Ok ==> final(self).current >= old(self).current,
        decreases old(self).tokens@.len() - old(self).current, 9int,
    {
        self.binary(3)
    }

    /// One binary level: an operand, then each operator of the level with its right operand,
    /// grouping to the left.
    fn binary(&mut self, level: u8) -> (r: Result<Expr, ParseError>)
        requires
            old(self).wf(),
            level <= 3,
        ensures
            final(self).wf(),
            final(self).tokens == old(self).tokens,
            parsed_as(r, final(self).current, p_level(tokens_of(*old(self)), old(self).current as int, level as int)),
            r is Ok ==> final(self).current >= old(self).current,
        decreases old(self).tokens@.len() - old(self).current, 20 - 4 * level,
    {
        let ghost ts = tokens_of(*self);
        let ghost i0 = self.current as int;
        let mut expr = self.operand(level)?;
        while self.match_level(level)
            invariant
                self.wf(),
                self.tokens == old(self).tokens,
                ts == tokens_of(*self),
                level <= 3,
                i0 == old(self).current,
                i0 <= self.current,
                p_level(ts, i0, level as int) == p_rest(ts, expr@, self.current as int, level as int),
            decreases self.tokens@.len() - self.current,
        {
            let operation = self.previous();
            let right = self.operand(level)?;
            expr = Expr::Binary { l: Box::new(expr), op: operation, r: Box::new(right) };
        }
        Ok(expr)
    }

    fn operand(&mut self, level: u8) -> (r: Result<Expr, ParseError>)
        requires
            old(self).wf(),
            level <= 3,
        ensures
            final(self).wf(),
            final(self).tokens == old(self).tokens,
            parsed_as(r, final(self).current, p_operand(tokens_of(*old(self)), old(self).current as int, level as int)),
            r is Ok ==> final(self).current >= old(self).current,
        decreases old(self).tokens@.len() - old(self).current, 18 - 4 * level,
    {
        match level {
            0 => self.comparison(),
            1 => self.term(),
            2 => self.factor(),
            _ => self.unary(),
        }
    }

    fn unary(&mut self) -> (r: Result<Expr, ParseError>)
        requires
            old(self).wf(),
        ensures
            final(self).wf(),
            final(self).tokens == old(self).tokens,
            parsed_as(r, final(self).current, p_unary(tokens_of(*old(self)), old(self).current as int)),
            r is Ok ==> final(self).current > old(self).current,
        decreases old(self).tokens@.len() - old(self).current, 4int,
    {
        if self.matching(TokenType::Bang) || self.matching(TokenType::Minus) {
            let operation = self.previous();
            let right = self.unary()?;
            return Ok(Expr::Unary { op: operation, r: Box::new(right) });
        }
        self.primary()
    }

    fn primary(&mut self) -> (r: Result<Expr, ParseError>)
        requires
            old(self).wf(),
        ensures
            final(self).wf(),
            final(self).tokens == old(self).tokens,
            parsed_as(r, final(self).current, p_primary(tokens_of(*old(self)), old(self).current as int)),
            r is Ok ==> final(self).current > old(self).current,
            r is Err && kind_at(tokens_of(*old(self)), old(self).current as int) != TokenType::LParen
                ==> final(self).current == old(self).current,
        decreases old(self).tokens@.len() - old(self).current, 3int,
    {
        let k = self.peek_kind();
        match k {
            TokenType::LParen => {
                self.advance();
                let expr = self.expression()?;
                self.consume(TokenType::RParen)?;
                Ok(Expr::Grouping { expr: Box::new(expr) })
            },
            TokenType::True | TokenType::False | TokenType::Nil | TokenType::Number
            | TokenType::StringLit => {
                let t = self.peek();
                self.advance();
                Ok(Expr::Literal { val: LiteralVal::token_fmt(t) })
            },
            TokenType::Identifier => {
                let t = self.peek();
                self.advance();
                Ok(Expr::Variable { name: t })
            },
            _ => Err(ParseError::ExpectedExpression { found: k }),
        }
    }

    /// Parses statements until `Eof`, stopping at the first error.
    pub fn parse_program(&mut self) -> (r: Result<Vec<Statement>, ParseError>)
        requires
            old(self).wf(),
        ensures
            final(self).wf(),
            final(self).tokens == old(self).tokens,
            match (r, p_program(tokens_of(*old(self)), old(self).current as int)) {
                (Ok(v), Ok(s)) => statements_view(v@) == s,
                (Err(x), Err(y)) => x == y,
                _ => false,
            },
    {
        let ghost ts = tokens_of(*self);
        let ghost i0 = self.current as int;
        let mut out: Vec<Statement> = Vec::new();
        proof {
            assert(statements_view(out@) + seq![] =~= seq![]);
            assert(forall|rest: Seq<StmtV>| statements_view(out@) + rest =~= rest);
        }
        while !self.is_at_end()
            invariant
                self.wf(),
                self.tokens == old(self).tokens,
                ts == tokens_of(*self),
                ts == tokens_of(*old(self)),
                i0 == old(self).current as int,
                p_program(ts, i0) == match p_program(ts, self.current as int) {
                    Ok(rest) => Ok(statements_view(out@) + rest),
                    Err(x) => Err(x),
                },
            decreases self.tokens@.len() - self.current,
        {
            let ghost before = out@;
            let ghost j = self.current as int;
            let st = self.statement()?;
            out.push(st);
            proof {
                assert(statements_view(out@) =~= statements_view(before).push(st@));
                match p_program(ts, self.current as int) {
                    Ok(rest) => {
                        assert(statements_view(before) + (seq![st@] + rest) =~= statements_view(out@) + rest);
                    },
                    Err(_) => {},
                }
            }
        }
        proof {
            assert(statements_view(out@) + seq![] =~= statements_view(out@));
        }
        Ok(out)
    }

    /// One statement: `print e;`, `var name = e;` or `e;`.
    fn statement(&mut self) -> (r: Result<Statement, ParseError>)
        requires
            old(self).wf(),
        ensures
            final(self).wf(),
            final(self).tokens == old(self).tokens,
            match (r, p_statement(tokens_of(*old(self)), old(self).current as int)) {
                (Ok(st), Ok((v, j))) => st@ == v && final(self).current == j,
                (Err(x), Err(y)) => x == y,
                _ => false,
            },
            r is Ok ==> final(self).current > old(self).current,
    {
        if self.matching(TokenType::Print) {
            let expr = self.expression()?;
            self.consume(TokenType::Semicolon)?;
            return Ok(Statement::Print { expr });
        }
        if self.matching(TokenType::Var) {
            self.consume(TokenType::Identifier)?;
            let t = self.previous();
            self.consume(TokenType::Equal)?;
            let init = self.expression()?;
            self.consume(TokenType::Semicolon)?;
            return Ok(Statement::Var { t, init });
        }
        let expr = self.expression()?;
        self.consume(TokenType::Semicolon)?;
        Ok(Statement::Expression { expr })
    }

    /// Discards tokens after an error: moves past the current token, then up to the next
    /// token that can start a statement, or to `Eof`.
    pub fn synchronize(&mut self)
        requires
            old(self).wf(),
        ensures
            final(self).wf(),
            final(self).tokens == old(self).tokens,
            final(self).current == sync_point(
                tokens_of(*old(self)),
                old(self).current + if kind_at(tokens_of(*old(self)), old(self).current as int)
                    != TokenType::Eof {
                    1int
                } else {
                    0int
                },
            ),
    {
        self.advance();
        let ghost ts = tokens_of(*self);
        let ghost start = self.current as int;
        while !self.is_at_end()
            invariant
                self.wf(),
                self.tokens == old(self).tokens,
                ts == tokens_of(*self),
                ts == tokens_of(*old(self)),
                start == old(self).current + if kind_at(ts, old(self).current as int)
                    != TokenType::Eof {
                    1int
                } else {
                    0int
                },
                sync_point(ts, start) == sync_point(ts, self.current as int),
            decreases self.tokens@.len() - self.current,
        {
            match self.peek_kind() {
                TokenType::Class | TokenType::Fun | TokenType::Var | TokenType::For | TokenType::If
                | TokenType::While | TokenType::Print | TokenType::Return => return,
                _ => self.advance(),
            }
        }
    }

    /// Moves past a token of kind `ttype`, or fails naming what stands there.
    fn consume(&mut self, ttype: TokenType) -> (r: Result<(), ParseError>)
        requires
            old(self).wf(),
            ttype != TokenType::Eof,
        ensures
            final(self).wf(),
            final(self).tokens == old(self).tokens,
            kind_at(tokens_of(*old(self)), old(self).current as int) == ttype ==> r is Ok
                && final(self).current == old(self).current + 1,
            kind_at(tokens_of(*old(self)), old(self).current as int) != ttype
                ==> final(self).current == old(self).current,
            kind_at(tokens_of(*old(self)), old(self).current as int) != ttype ==> r == Err::<
                (),
                ParseError,
            >(
                ParseError::Missing {
                    expected: ttype,
                    found: kind_at(tokens_of(*old(self)), old(self).current as int),
                },
            ),
    {
        let k = self.peek_kind();
        if k == ttype {
            self.advance();
            Ok(())
        } else {
            Err(ParseError::Missing { expected: ttype, found: k })
        }
    }

    /// Moves past a token of kind `t` when one comes next.
    fn matching(&mut self, t: TokenType) -> (r: bool)
        requires
            old(self).wf(),
        ensures
            final(self).wf(),
            final(self).tokens == old(self).tokens,
            r == (kind_at(tokens_of(*old(self)), old(self).current as int) == t && t
                != TokenType::Eof),
            final(self).current == old(self).current + if r {
                1int
            } else {
                0int
            },
    {
        if self.check(t) {
            self.advance();
            true
        } else {
            false
        }
    }

    /// Moves past an operator of the binary level when one comes next.
    fn match_level(&mut self, level: u8) -> (r: bool)
        requires
            old(self).wf(),
            level <= 3,
        ensures
            final(self).wf(),
            final(self).tokens == old(self).tokens,
            r == (kind_at(tokens_of(*old(self)), old(self).current as int) != TokenType::Eof
                && level_op(level as int, kind_at(tokens_of(*old(self)), old(self).current as int))),
            final(self).current == old(self).current + if r {
                1int
            } else {
                0int
            },
    {
        match level {
            0 => self.matching(TokenType::BangEqual) || self.matching(TokenType::EqualEqual),
            1 => self.matching(TokenType::Greater) || self.matching(TokenType::GreaterEqual)
                || self.matching(TokenType::Less) || self.matching(TokenType::LessEqual),
            2 => self.matching(TokenType::Minus) || self.matching(TokenType::Plus),
            _ => self.matching(TokenType::Slash) || self.matching(TokenType::Star),
        }
    }

    /// Whether the next token has kind `t`; never at the end.
    fn check(&self, t: TokenType) -> (r: bool)
        requires
            self.wf(),
        ensures
            r == (kind_at(tokens_of(*self), self.current as int) == t && t != TokenType::Eof),
    {
        if self.is_at_end() {
            return false;
        }
        self.peek_kind() == t
    }

    /// Moves to the next token, unless at the end.
    fn advance(&mut self)
        requires
            old(self).wf(),
        ensures
            final(self).wf(),
            final(self).tokens == old(self).tokens,
            final(self).current == old(self).current + if kind_at(
                tokens_of(*old(self)),
                old(self).current as int,
            ) != TokenType::Eof {
                1int
            } else {
                0int
            },
    {
        if !self.is_at_end() && self.current < self.tokens.len() {
            self.current += 1;
        }
    }

    fn is_at_end(&self) -> (r: bool)
        requires
            self.wf(),
        ensures
            r == (kind_at(tokens_of(*self), self.current as int) == TokenType::Eof),
    {
        self.peek_kind() == TokenType::Eof
    }

    /// The kind of the next token; `Eof` past the last one.
    fn peek_kind(&self) -> (r: TokenType)
        requires
            self.wf(),
        ensures
            r == kind_at(tokens_of(*self), self.current as int),
    {
        if self.current < self.tokens.len() {
            self.tokens[self.current].token_type
        } else {
            TokenType::Eof
        }
    }

    /// A copy of the next token.
    fn peek(&self) -> (r: Token)
        requires
            self.wf(),
            self.current < self.tokens@.len(),
        ensures
            r@ == tokens_of(*self)[self.current as int],
    {
        self.tokens[self.current].duplicate()
    }

    /// A copy of the token just passed.
    fn previous(&self) -> (r: Token)
        requires
            self.wf(),
            0 < self.current,
        ensures
            r@ == tokens_of(*self)[self.current - 1],
    {
        self.tokens[self.current - 1].duplicate()
    }
}

} // verus!
