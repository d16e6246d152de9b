//! Properties of the language that hold for every input.
use vstd::prelude::*;
use crate::expr::{eval_expr, ArithOp, EvalErr, ExprV};
use crate::interpreter::exec_program;
use crate::literals::Value;
use crate::number::zero_bits;
use crate::scanner::{
    eof_token, keyword_table, lookup_from, scan_from, scan_result, scan_step, scanned_tokens,
    newlines, quote_end, single_kind, token_at, Payload, ScanErr, TokenType, TokenV,
};
use crate::statement::StmtV;

verus! {

/// A source made of one punctuation character `( ) { } , . - + ; *` scans to exactly one
/// token of that character's kind, then `Eof`.
pub proof fn law_single_character(c: char, pf: spec_fn(Seq<char>) -> Option<u64>)
    requires
        single_kind(c) is Some,
    ensures
        scan_result(seq![c], pf) == Ok::<Seq<TokenV>, Seq<ScanErr>>(
            seq![token_at(single_kind(c)->0, seq![c], 0, 1, None, 1), eof_token(1)],
        ),
{
    let src = seq![c];
    assert(scan_from(src, 1, 1, pf) == (Seq::<TokenV>::empty(), Seq::<ScanErr>::empty(), 1nat));
    let r = scan_from(src, 0, 1, pf);
    assert(r.0 =~= seq![token_at(single_kind(c)->0, src, 0, 1, None, 1)]);
    assert(r.1 =~= Seq::<ScanErr>::empty());
    assert(r.0.push(eof_token(r.2)) =~= seq![
        token_at(single_kind(c)->0, seq![c], 0, 1, None, 1),
        eof_token(1),
    ]);
}

proof fn lemma_keyword_not_eof(s: Seq<char>, i: int)
    ensures
        lookup_from(keyword_table(), s, i) != Some(TokenType::Eof),
    decreases keyword_table().len() - i,
{
    let t = keyword_table();
    if 0 <= i < t.len() {
        lemma_keyword_not_eof(s, i + 1);
        assert(i == 0 || i == 1 || i == 2 || i == 3 || i == 4 || i == 5 || i == 6 || i == 7 || i
            == 8 || i == 9 || i == 10 || i == 11 || i == 12 || i == 13 || i == 14 || i == 15);
    }
}

proof fn lemma_scan_without_eof(
    src: Seq<char>,
    pos: int,
    line: nat,
    pf: spec_fn(Seq<char>) -> Option<u64>,
)
    ensures
        forall|k: int|
            0 <= k < scan_from(src, pos, line, pf).0.len() ==> (#[trigger] scan_from(
                src,
                pos,
                line,
                pf,
            ).0[k]).kind != TokenType::Eof,
    decreases src.len() - pos,
{
    if 0 <= pos < src.len() {
        let st = scan_step(src, pos, line, pf);
        if pos < st.next <= src.len() {
            lemma_scan_without_eof(src, st.next, st.line, pf);
            let e = crate::scanner::alnum_end(src, pos + 1);
            lemma_keyword_not_eof(src.subrange(pos, e), 0);
            let rest = scan_from(src, st.next, st.line, pf);
            let all = scan_from(src, pos, line, pf);
            match st.item {
                Some(Ok(t)) => {
                    assert(t.kind != TokenType::Eof);
                    assert forall|k: int| 0 <= k < all.0.len() implies (
                    #[trigger] all.0[k]).kind != TokenType::Eof by {
                        if k > 0 {
                            assert(all.0[k] == rest.0[k - 1]);
                        }
                    }
                },
                _ => {},
            }
        }
    }
}

/// A scanned token sequence ends in exactly one `Eof` token: the last token is `Eof` and no
/// other token has that kind.
pub proof fn law_one_eof(src: Seq<char>, pf: spec_fn(Seq<char>) -> Option<u64>)
    ensures
        ({
            let ts = scanned_tokens(src, pf);
            &&& ts.len() >= 1
            &&& ts.last().kind == TokenType::Eof
            &&& forall|k: int| 0 <= k < ts.len() - 1 ==> (#[trigger] ts[k]).kind != TokenType::Eof
        }),
{
    lemma_scan_without_eof(src, 0, 1, pf);
    let r = scan_from(src, 0, 1, pf);
    let ts = scanned_tokens(src, pf);
    assert forall|k: int| 0 <= k < ts.len() - 1 implies (#[trigger] ts[k]).kind
        != TokenType::Eof by {
        assert(ts[k] == r.0[k]);
    }
}

proof fn lemma_quote_end(src: Seq<char>, i: int)
    requires
        1 <= i < src.len(),
        src.last() == '"',
        forall|k: int| 1 <= k < src.len() - 1 ==> src[k] != '"' && src[k] != '\\',
    ensures
        quote_end(src, i) == src.len() - 1,
    decreases src.len() - i,
{
    if i < src.len() - 1 {
        lemma_quote_end(src, i + 1);
    }
}

/// A string literal scans to one `StringLit` token whose payload is exactly the text between
/// the quotes, newlines kept, and whose line counts those newlines; then `Eof` on that line.
/// This is stated for text without quotes or backslashes, which escape the character after
/// them.
pub proof fn law_string_literal(text: Seq<char>, pf: spec_fn(Seq<char>) -> Option<u64>)
    requires
        forall|k: int| 0 <= k < text.len() ==> text[k] != '"' && text[k] != '\\',
    ensures
        ({
            let src = seq!['"'] + text + seq!['"'];
            let line = 1 + newlines(text);
            scan_result(src, pf) == Ok::<Seq<TokenV>, Seq<ScanErr>>(
                seq![
                    token_at(TokenType::StringLit, src, 0, src.len() as int, Some(Payload::Str(text)), line),
                    eof_token(line),
                ],
            )
        }),
{
    let src = seq!['"'] + text + seq!['"'];
    let n = src.len() as int;
    assert forall|k: int| 1 <= k < n - 1 implies src[k] != '"' && src[k] != '\\' by {
        assert(src[k] == text[k - 1]);
    }
    lemma_quote_end(src, 1);
    assert(src.subrange(1, n - 1) =~= text);
    let line = 1 + newlines(text);
    assert(scan_from(src, n, line, pf) == (Seq::<TokenV>::empty(), Seq::<ScanErr>::empty(), line));
    let r = scan_from(src, 0, 1, pf);
    let t = token_at(TokenType::StringLit, src, 0, n, Some(Payload::Str(text)), line);
    assert(r.0 =~= seq![t]);
    assert(r.1 =~= Seq::<ScanErr>::empty());
    assert(r.0.push(eof_token(r.2)) =~= seq![t, eof_token(line)]);
}

/// Dividing a number by either zero fails with `DivisionByZero` naming the dividend; no
/// infinite value comes out.
pub proof fn law_division_by_zero(
    x: u64,
    y: u64,
    op: TokenV,
    env: Map<Seq<char>, Value>,
    f: spec_fn(ArithOp, u64, u64) -> u64,
)
    requires
        op.kind == TokenType::Slash,
        zero_bits(y),
    ensures
        eval_expr(
            ExprV::Binary {
                l: Box::new(ExprV::Literal { val: Value::Num(x) }),
                op,
                r: Box::new(ExprV::Literal { val: Value::Num(y) }),
            },
            env,
            f,
        ) == Err::<Value, EvalErr>(EvalErr::DivisionByZero { dividend: x }),
{
    reveal_with_fuel(eval_expr, 2);
}

/// `==` and `!=` between a number and a string, in either order, never fail: the two are
/// unequal.
pub proof fn law_mixed_equality(
    x: u64,
    s: Seq<char>,
    op: TokenV,
    env: Map<Seq<char>, Value>,
    f: spec_fn(ArithOp, u64, u64) -> u64,
)
    requires
        op.kind == TokenType::EqualEqual || op.kind == TokenType::BangEqual,
    ensures
        ({
            let expected = if op.kind == TokenType::EqualEqual {
                Value::False
            } else {
                Value::True
            };
            let num = ExprV::Literal { val: Value::Num(x) };
            let text = ExprV::Literal { val: Value::Str(s) };
            &&& eval_expr(
                ExprV::Binary { l: Box::new(num), op, r: Box::new(text) },
                env,
                f,
            ) == Ok::<Value, EvalErr>(expected)
            &&& eval_expr(
                ExprV::Binary { l: Box::new(text), op, r: Box::new(num) },
                env,
                f,
            ) == Ok::<Value, EvalErr>(expected)
        }),
{
    reveal_with_fuel(eval_expr, 2);
}

/// Reading a name that no declaration bound fails with `UndefinedVariable` naming it.
pub proof fn law_undefined_variable(
    name: TokenV,
    env: Map<Seq<char>, Value>,
    f: spec_fn(ArithOp, u64, u64) -> u64,
)
    requires
        !env.contains_key(name.lexeme),
    ensures
        eval_expr(ExprV::Variable { name }, env, f) == Err::<Value, EvalErr>(
            EvalErr::UndefinedVariable { name: name.lexeme },
        ),
{
}

/// Declaring a name twice keeps the second value: after `var n = a; var n = b;` the name
/// reads as `b`, and nothing else of the environment changed but that binding.
pub proof fn law_redeclaration(
    t: TokenV,
    a: Value,
    b: Value,
    env: Map<Seq<char>, Value>,
    f: spec_fn(ArithOp, u64, u64) -> u64,
)
    ensures
        ({
            let first = StmtV::Var { t, init: ExprV::Literal { val: a } };
            let second = StmtV::Var { t, init: ExprV::Literal { val: b } };
            let after = exec_program(seq![first, second], env, f);
            &&& after.2 is None
            &&& after.1 == env.insert(t.lexeme, b)
            &&& eval_expr(ExprV::Variable { name: t }, after.1, f) == Ok::<Value, EvalErr>(b)
        }),
{
    let first = StmtV::Var { t, init: ExprV::Literal { val: a } };
    let second = StmtV::Var { t, init: ExprV::Literal { val: b } };
    let ss = seq![first, second];
    reveal_with_fuel(exec_program, 3);
    assert(ss.drop_first() =~= seq![second]);
    assert(ss.drop_first().drop_first() =~= Seq::<StmtV>::empty());
    assert(env.insert(t.lexeme, a).insert(t.lexeme, b) =~= env.insert(t.lexeme, b));
}

} // verus!
