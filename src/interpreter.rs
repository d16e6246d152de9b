//! Executing statements against one environment.
use vstd::prelude::*;
use crate::enviro::Enviro;
use crate::expr::{computes, eval_expr, result_view, ArithOp, EvalErr, EvalError, Expr};
use crate::literals::{LiteralVal, Value};
use crate::parser::{p_program, statements_view, ParseError, Parser};
use crate::scanner::{reads_numbers_as, scan_result, ScanErr, ScanError, Scanner, TokenV};
use crate::statement::{Statement, StmtV};

verus! {

/// The environment after a statement and the value that it prints, if any.
pub type Executed = Result<(Map<Seq<char>, Value>, Option<Value>), EvalErr>;

/// Executing one statement: an expression statement evaluates and discards, a print statement
/// hands back its value, a declaration binds its name, replacing an earlier binding.
pub open spec fn exec_stmt(
    s: StmtV,
    env: Map<Seq<char>, Value>,
    f: spec_fn(ArithOp, u64, u64) -> u64,
) -> Executed {
    match s {
        StmtV::Expression { expr } => match eval_expr(expr, env, f) {
            Ok(_) => Ok((env, None)),
            Err(x) => Err(x),
        },
        StmtV::Print { expr } => match eval_expr(expr, env, f) {
            Ok(v) => Ok((env, Some(v))),
            Err(x) => Err(x),
        },
        StmtV::Var { t, init } => match eval_expr(init, env, f) {
            Ok(v) => Ok((env.insert(t.lexeme, v), None)),
            Err(x) => Err(x),
        },
    }
}

/// Executing statements in order: the values printed, the environment at the end, and the
/// error that stopped execution, if any.
pub open spec fn exec_program(
    ss: Seq<StmtV>,
    env: Map<Seq<char>, Value>,
    f: spec_fn(ArithOp, u64, u64) -> u64,
) -> (Seq<Value>, Map<Seq<char>, Value>, Option<EvalErr>)
    decreases ss.len(),
{
    if ss.len() == 0 {
        (seq![], env, None)
    } else {
        match exec_stmt(ss[0], env, f) {
            Ok((env2, out)) => {
                let rest = exec_program(ss.drop_first(), env2, f);
                let printed = match out {
                    Some(v) => seq![v] + rest.0,
                    None => rest.0,
                };
                (printed, rest.1, rest.2)
            },
            Err(x) => (seq![], env, Some(x)),
        }
    }
}

/// Why running a source text stopped.
#[derive(Debug, Clone)]
pub enum RunError {
    Scan(Vec<ScanError>),
    Parse(ParseError),
    Eval(EvalError),
}

pub enum RunErr {
    Scan(Seq<ScanErr>),
    Parse(ParseError),
    Eval(EvalErr),
}

impl View for RunError {
    type V = RunErr;

    open spec fn view(&self) -> RunErr {
        match self {
            RunError::Scan(es) => RunErr::Scan(crate::scanner::errors_view(es@)),
            RunError::Parse(e) => RunErr::Parse(*e),
            RunError::Eval(e) => RunErr::Eval(e@),
        }
    }
}

/// Running a whole source text: scan, parse every statement, then execute them in order.
/// Gives the values printed and the error that stopped the run, if any.
pub open spec fn run_text(
    src: Seq<char>,
    env: Map<Seq<char>, Value>,
    pf: spec_fn(Seq<char>) -> Option<u64>,
    f: spec_fn(ArithOp, u64, u64) -> u64,
) -> (Seq<Value>, Map<Seq<char>, Value>, Option<RunErr>) {
    match scan_result(src, pf) {
        Err(es) => (seq![], env, Some(RunErr::Scan(es))),
        Ok(ts) => match p_program(ts, 0) {
            Err(x) => (seq![], env, Some(RunErr::Parse(x))),
            Ok(ss) => {
                let r = exec_program(ss, env, f);
                (
                    r.0,
                    r.1,
                    match r.2 {
                        Some(x) => Some(RunErr::Eval(x)),
                        None => None,
                    },
                )
            },
        },
    }
}

pub open spec fn values_view(v: Seq<LiteralVal>) -> Seq<Value> {
    v.map_values(|x: LiteralVal| x@)
}

/// Holds the one environment of a program run.
pub struct Interpreter {
    pub enviro: Enviro,
}

impl Interpreter {
    pub fn new() -> (r: Self)
        ensures
            r.enviro.wf(),
            r.enviro@ == Map::<Seq<char>, Value>::empty(),
    {
        Interpreter { enviro: Enviro::new() }
    }

    /// Evaluates an expression in the current environment.
    pub fn interpret<A: Fn(ArithOp, u64, u64) -> u64>(&mut self, pe: Expr, arith: &A) -> (r:
        Result<LiteralVal, EvalError>)
        requires
            old(self).enviro.wf(),
            forall|o: ArithOp, x: u64, y: u64| arith.requires((o, x, y)),
        ensures
            final(self).enviro.wf(),
            final(self).enviro@ == old(self).enviro@,
            forall|f: spec_fn(ArithOp, u64, u64) -> u64| #[trigger]
                computes(*arith, f) ==> result_view(r) == eval_expr(pe@, old(self).enviro@, f),
    {
        pe.eval(&self.enviro, arith)
    }

    /// Executes one statement. A print statement gives back the value to print.
    pub fn interpret_statement<A: Fn(ArithOp, u64, u64) -> u64>(
        &mut self,
        statement: Statement,
        arith: &A,
    ) -> (r: Result<Option<LiteralVal>, EvalError>)
        requires
            old(self).enviro.wf(),
            forall|o: ArithOp, x: u64, y: u64| arith.requires((o, x, y)),
        ensures
            final(self).enviro.wf(),
            forall|f: spec_fn(ArithOp, u64, u64) -> u64| #[trigger]
                computes(*arith, f) ==> match (r, exec_stmt(statement@, old(self).enviro@, f)) {
                    (Ok(out), Ok((env, printed))) => final(self).enviro@ == env && match (
                        out,
                        printed,
                    ) {
                        (Some(v), Some(w)) => v@ == w,
                        (None, None) => true,
                        _ => false,
                    },
                    (Err(x), Err(y)) => x@ == y && final(self).enviro@ == old(self).enviro@,
                    _ => false,
                },
    {
        match statement {
            Statement::Expression { expr } => {
                expr.eval(&self.enviro, arith)?;
                Ok(None)
            },
            Statement::Var { t, init } => {
                let val = init.eval(&self.enviro, arith)?;
                self.enviro.define(t.lexeme, val);
                Ok(None)
            },
            Statement::Print { expr } => {
                let v = expr.eval(&self.enviro, arith)?;
                Ok(Some(v))
            },
        }
    }

    /// Scans, parses and executes a whole source text. Gives the values that print statements
    /// produced, in order, and the error that stopped the run, if any; nothing executes when
    /// scanning or parsing fails.
    pub fn run<P: Fn(&str) -> Option<u64>, A: Fn(ArithOp, u64, u64) -> u64>(
        &mut self,
        contents: &str,
        parse: &P,
        arith: &A,
    ) -> (r: (Vec<LiteralVal>, Option<RunError>))
        requires
            old(self).enviro.wf(),
            contents@.len() < usize::MAX,
            forall|s: &str| parse.requires((s,)),
            forall|o: ArithOp, x: u64, y: u64| arith.requires((o, x, y)),
        ensures
            final(self).enviro.wf(),
            forall|pf: spec_fn(Seq<char>) -> Option<u64>, f: spec_fn(ArithOp, u64, u64) -> u64|
                #[trigger] reads_numbers_as(*parse, pf) && #[trigger] computes(*arith, f) ==> {
                    let expected = run_text(contents@, old(self).enviro@, pf, f);
                    &&& values_view(r.0@) == expected.0
                    &&& final(self).enviro@ == expected.1
                    &&& match (r.1, expected.2) {
                        (Some(x), Some(y)) => x@ == y,
                        (None, None) => true,
                        _ => false,
                    }
                },
    {
        let mut printed: Vec<LiteralVal> = Vec::new();
        let mut s = Scanner::new(contents);
        let tokens = match s.scan_tokens(parse) {
            Ok(t) => t,
            Err(es) => return (printed, Some(RunError::Scan(es))),
        };
        let ghost ts = crate::scanner::tokens_view(tokens@);
        let mut p = Parser::new(tokens);
        let statements = match p.parse_program() {
            Ok(v) => v,
            Err(e) => return (printed, Some(RunError::Parse(e))),
        };
        let ghost ss = statements_view(statements@);
        assert(p_program(ts, 0) == Ok::<Seq<StmtV>, ParseError>(ss));
        let ghost env0 = self.enviro@;
        proof {
            assert forall|f: spec_fn(ArithOp, u64, u64) -> u64| #[trigger]
                computes(*arith, f) implies {
                let whole = exec_program(ss, env0, f);
                let rest = exec_program(ss.skip(0), self.enviro@, f);
                &&& whole.0 == values_view(printed@) + rest.0
                &&& whole.1 == rest.1
                &&& whole.2 == rest.2
            } by {
                assert(ss.skip(0) =~= ss);
                let whole = exec_program(ss, env0, f);
                assert(values_view(printed@) + whole.0 =~= whole.0);
            }
        }
        let mut rest = statements;
        let ghost mut k: int = 0;
        while rest.len() > 0
            invariant
                self.enviro.wf(),
                forall|o: ArithOp, x: u64, y: u64| arith.requires((o, x, y)),
                0 <= k <= ss.len(),
                env0 == old(self).enviro@,
                p_program(ts, 0) == Ok::<Seq<StmtV>, ParseError>(ss),
                forall|pf: spec_fn(Seq<char>) -> Option<u64>|
                    #[trigger] reads_numbers_as(*parse, pf) ==> scan_result(contents@, pf) == Ok::<
                        Seq<TokenV>,
                        Seq<ScanErr>,
                    >(ts),
                statements_view(rest@) == ss.skip(k),
                forall|f: spec_fn(ArithOp, u64, u64) -> u64| #[trigger]
                    computes(*arith, f) ==> {
                        let whole = exec_program(ss, env0, f);
                        let after = exec_program(ss.skip(k), self.enviro@, f);
                        &&& whole.0 == values_view(printed@) + after.0
                        &&& whole.1 == after.1
                        &&& whole.2 == after.2
                    },
            decreases rest.len(),
        {
            let ghost rv = rest@;
            let ghost env_before = self.enviro@;
            let ghost printed_before = printed@;
            let st = rest.remove(0);
            proof {
                assert(statements_view(rv)[0] == st@);
                assert(ss.skip(k)[0] == st@);
                assert(ss.skip(k).drop_first() =~= ss.skip(k + 1));
                assert(statements_view(rest@) =~= ss.skip(k + 1));
            }
            match self.interpret_statement(st, arith) {
                Ok(Some(v)) => {
                    printed.push(v);
                    proof {
                        assert(values_view(printed@) =~= values_view(printed_before).push(v@));
                        assert forall|f: spec_fn(ArithOp, u64, u64) -> u64| #[trigger]
                            computes(*arith, f) implies {
                            let whole = exec_program(ss, env0, f);
                            let after = exec_program(ss.skip(k + 1), self.enviro@, f);
                            &&& whole.0 == values_view(printed@) + after.0
                            &&& whole.1 == after.1
                            &&& whole.2 == after.2
                        } by {
                            let after = exec_program(ss.skip(k + 1), self.enviro@, f);
                            assert(values_view(printed_before) + (seq![v@] + after.0)
                                =~= values_view(printed@) + after.0);
                        }
                    }
                },
                Ok(None) => {},
                Err(e) => {
                    proof {
                        assert forall|f: spec_fn(ArithOp, u64, u64) -> u64| #[trigger]
                            computes(*arith, f) implies {
                            let whole = exec_program(ss, env0, f);
                            &&& whole.0 == values_view(printed@)
                            &&& whole.1 == self.enviro@
                            &&& whole.2 == Some(e@)
                        } by {
                            let after = exec_program(ss.skip(k), env_before, f);
                            assert(after.0 =~= seq![]);
                            assert(values_view(printed@) + after.0 =~= values_view(printed@));
                        }
                    }
                    let err = RunError::Eval(e);
                    assert(err@ == RunErr::Eval(e@));
                    return (printed, Some(err));
                },
            }
            proof {
                k = k + 1;
            }
        }
        proof {
            assert forall|f: spec_fn(ArithOp, u64, u64) -> u64| #[trigger]
                computes(*arith, f) implies {
                let whole = exec_program(ss, env0, f);
                &&& whole.0 == values_view(printed@)
                &&& whole.1 == self.enviro@
                &&& whole.2 is None
            } by {
                assert(ss.skip(k).len() == 0);
                let after = exec_program(ss.skip(k), self.enviro@, f);
                assert(values_view(printed@) + after.0 =~= values_view(printed@));
            }
        }
        (printed, None)
    }
}

} // verus!
