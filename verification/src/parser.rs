//! Recursive-descent parser: turns source text into the program tree.
//!
//! The grammar covered here: a program is a sequence of statements; a
//! statement is either an expression followed by a newline, or an
//! `if`/`elif`/`else` chain whose branch bodies are single inline statements
//! (an `elif` chain parses as a nested `If` in the first branch's `orelse`);
//! an expression is a number, a string literal, a name, or a call of a name
//! with comma-separated argument expressions.
//!
//! Every parsing function is specified against a specification-level parser
//! over the lexed token sequence; the specification descends with a fuel
//! bound so that it is total, and the executable parser spends fuel the same
//! way, so the two agree exactly.

use vstd::prelude::*;

use crate::ast::{Expression, Statement, Program, ExprV, StmtV, expr_view, stmt_view, exprs_view,
    stmts_view};
use crate::lexer::{Token, spec_lex, lex_source};
use vstd::string::StrSliceExecFns;

verus! {

/// Index ranges carried by name and string tokens lie inside the source.
pub open spec fn tok_wf(s: Seq<char>, tok: Token) -> bool {
    match tok {
        Token::Name { start, end } => start <= end && end <= s.len(),
        Token::Text { start, end } => start <= end && end <= s.len(),
        _ => true,
    }
}

pub open spec fn toks_wf(s: Seq<char>, t: Seq<Token>) -> bool {
    forall|k: int| 0 <= k < t.len() ==> tok_wf(s, #[trigger] t[k])
}

proof fn toks_wf_cons(s: Seq<char>, t: Token, r: Seq<Token>)
    requires
        toks_wf(s, r),
        tok_wf(s, t),
    ensures
        toks_wf(s, r.insert(0, t)),
{
    let ri = r.insert(0, t);
    r.insert_ensures(0, t);
    assert forall|k: int| 0 <= k < ri.len() implies tok_wf(s, #[trigger] ri[k]) by {
        if k == 0 {
            assert(ri[0] == t);
        } else {
            assert(ri[k] == r[k - 1]);
        }
    }
}

proof fn spec_lex_wf(s: Seq<char>, i: int)
    requires
        0 <= i <= s.len(),
        s.len() <= usize::MAX,
    ensures
        match spec_lex(s, i) {
            Option::Some(t) => toks_wf(s, t),
            Option::None => true,
        },
    decreases s.len() - i,
{
    if i < s.len() {
        let c = s[i];
        if c == ' ' {
            spec_lex_wf(s, i + 1);
        } else if c == '\n' || c == '(' || c == ')' || c == ',' || c == ':' {
            spec_lex_wf(s, i + 1);
            let tk = if c == '\n' {
                Token::Newline
            } else if c == '(' {
                Token::LPar
            } else if c == ')' {
                Token::RPar
            } else if c == ',' {
                Token::Comma
            } else {
                Token::Colon
            };
            if let Option::Some(r) = spec_lex(s, i + 1) {
                toks_wf_cons(s, tk, r);
            }
        } else if crate::lexer::is_digit(c) {
            let e = crate::lexer::num_end(s, i);
            crate::lexer::num_end_bounds(s, i + 1);
            assert(e == crate::lexer::num_end(s, i + 1));
            spec_lex_wf(s, e);
            if e - i <= crate::lexer::MAX_NUMBER_DIGITS {
                if let Option::Some(r) = spec_lex(s, e) {
                    toks_wf_cons(
                        s,
                        Token::Number { value: crate::lexer::num_val(s, i, e) as i64 },
                        r,
                    );
                }
            }
        } else if crate::lexer::is_name_start(c) {
            let e = crate::lexer::name_end(s, i);
            crate::lexer::name_end_bounds(s, i + 1);
            assert(e == crate::lexer::name_end(s, i + 1));
            spec_lex_wf(s, e);
            assert(tok_wf(s, crate::lexer::classify_name(s, i, e)));
            if let Option::Some(r) = spec_lex(s, e) {
                toks_wf_cons(s, crate::lexer::classify_name(s, i, e), r);
            }
        } else if c == '\'' {
            crate::lexer::quote_end_bounds(s, i + 1);
            let e = crate::lexer::quote_end(s, i + 1);
            if e < s.len() {
                spec_lex_wf(s, e + 1);
                if let Option::Some(r) = spec_lex(s, e + 1) {
                    toks_wf_cons(s, Token::Text { start: (i + 1) as usize, end: e as usize }, r);
                }
            }
        }
    }
}

/// Parses one expression starting at token `i`: a number, a string literal,
/// a name, or a call of a name.
pub open spec fn spec_parse_expr(s: Seq<char>, t: Seq<Token>, i: int, fuel: nat) -> Option<
    (ExprV, int),
>
    decreases fuel,
{
    if fuel == 0 {
        Option::None
    } else if 0 <= i < t.len() {
        match t[i] {
            Token::Number { value } => Option::Some(
                (ExprV::NumberV { value: value as int }, i + 1),
            ),
            Token::Text { start, end } => Option::Some(
                (ExprV::StrV { value: s.subrange(start as int, end as int) }, i + 1),
            ),
            Token::Name { start, end } => {
                let ident = ExprV::IdentifierV { name: s.subrange(start as int, end as int) };
                if i + 1 < t.len() && t[i + 1] is LPar {
                    match spec_parse_args(s, t, i + 2, (fuel - 1) as nat) {
                        Option::Some((args, j)) => Option::Some(
                            (ExprV::CallV { function: Box::new(ident), args }, j),
                        ),
                        Option::None => Option::None,
                    }
                } else {
                    Option::Some((ident, i + 1))
                }
            },
            _ => Option::None,
        }
    } else {
        Option::None
    }
}

/// Parses a call's argument list starting after the opening parenthesis and
/// consumes the closing parenthesis.
pub open spec fn spec_parse_args(s: Seq<char>, t: Seq<Token>, i: int, fuel: nat) -> Option<
    (Seq<ExprV>, int),
>
    decreases fuel,
{
    if fuel == 0 {
        Option::None
    } else if 0 <= i < t.len() && t[i] is RPar {
        Option::Some((Seq::empty(), i + 1))
    } else {
        match spec_parse_expr(s, t, i, (fuel - 1) as nat) {
            Option::Some((e, j)) => spec_parse_more_args(
                s,
                t,
                j,
                (fuel - 1) as nat,
                Seq::empty().push(e),
            ),
            Option::None => Option::None,
        }
    }
}

/// Parses the remainder of an argument list after at least one argument.
pub open spec fn spec_parse_more_args(
    s: Seq<char>,
    t: Seq<Token>,
    i: int,
    fuel: nat,
    acc: Seq<ExprV>,
) -> Option<(Seq<ExprV>, int)>
    decreases fuel,
{
    if fuel == 0 {
        Option::None
    } else if 0 <= i < t.len() && t[i] is RPar {
        Option::Some((acc, i + 1))
    } else if 0 <= i < t.len() && t[i] is Comma {
        match spec_parse_expr(s, t, i + 1, (fuel - 1) as nat) {
            Option::Some((e, j)) => spec_parse_more_args(s, t, j, (fuel - 1) as nat, acc.push(e)),
            Option::None => Option::None,
        }
    } else {
        Option::None
    }
}

/// Parses one statement starting at token `i`.
pub open spec fn spec_parse_stmt(s: Seq<char>, t: Seq<Token>, i: int, fuel: nat) -> Option<
    (StmtV, int),
>
    decreases fuel,
{
    if fuel == 0 {
        Option::None
    } else if 0 <= i < t.len() && t[i] is KwIf {
        spec_parse_if(s, t, i + 1, (fuel - 1) as nat)
    } else {
        match spec_parse_expr(s, t, i, (fuel - 1) as nat) {
            Option::Some((e, j)) => if 0 <= j < t.len() && t[j] is Newline {
                Option::Some((StmtV::ExpressionV { expression: e }, j + 1))
            } else {
                Option::None
            },
            Option::None => Option::None,
        }
    }
}

/// Parses the tail of a conditional, the leading `if` or `elif` keyword
/// already consumed: test expression, colon, inline body, then an optional
/// `elif` chain (a nested conditional) or `else` branch.
pub open spec fn spec_parse_if(s: Seq<char>, t: Seq<Token>, i: int, fuel: nat) -> Option<
    (StmtV, int),
>
    decreases fuel,
{
    if fuel == 0 {
        Option::None
    } else {
        match spec_parse_expr(s, t, i, (fuel - 1) as nat) {
            Option::Some((test, j)) => if 0 <= j < t.len() && t[j] is Colon {
                match spec_parse_stmt(s, t, j + 1, (fuel - 1) as nat) {
                    Option::Some((body, k)) => {
                        let bodyseq = Seq::empty().push(body);
                        if 0 <= k < t.len() && t[k] is KwElif {
                            match spec_parse_if(s, t, k + 1, (fuel - 1) as nat) {
                                Option::Some((chain, m)) => Option::Some(
                                    (
                                        StmtV::IfV {
                                            test,
                                            body: bodyseq,
                                            orelse: Option::Some(Seq::empty().push(chain)),
                                        },
                                        m,
                                    ),
                                ),
                                Option::None => Option::None,
                            }
                        } else if 0 <= k && k + 1 < t.len() && t[k] is KwElse && t[k + 1]
                            is Colon {
                            match spec_parse_stmt(s, t, k + 2, (fuel - 1) as nat) {
                                Option::Some((els, m)) => Option::Some(
                                    (
                                        StmtV::IfV {
                                            test,
                                            body: bodyseq,
                                            orelse: Option::Some(Seq::empty().push(els)),
                                        },
                                        m,
                                    ),
                                ),
                                Option::None => Option::None,
                            }
                        } else {
                            Option::Some(
                                (StmtV::IfV { test, body: bodyseq, orelse: Option::None }, k),
                            )
                        }
                    },
                    Option::None => Option::None,
                }
            } else {
                Option::None
            },
            Option::None => Option::None,
        }
    }
}

/// Parses statements until the token sequence is exhausted.
pub open spec fn spec_parse_stmts(
    s: Seq<char>,
    t: Seq<Token>,
    i: int,
    fuel: nat,
    acc: Seq<StmtV>,
) -> Option<Seq<StmtV>>
    decreases fuel,
{
    if fuel == 0 {
        Option::None
    } else if i >= t.len() {
        Option::Some(acc)
    } else {
        match spec_parse_stmt(s, t, i, (fuel - 1) as nat) {
            Option::Some((st, j)) => spec_parse_stmts(s, t, j, (fuel - 1) as nat, acc.push(st)),
            Option::None => Option::None,
        }
    }
}

/// What parsing a whole program means: lex, then parse statements to the
/// end of the token sequence, with fuel ample for any token count the
/// machine can hold.
pub open spec fn spec_parse_program(s: Seq<char>) -> Option<Seq<StmtV>> {
    match spec_lex(s, 0) {
        Option::Some(t) => if t.len() > usize::MAX - 4 {
            Option::None
        } else {
            spec_parse_stmts(s, t, 0, (t.len() + 4) as nat, Seq::empty())
        },
        Option::None => Option::None,
    }
}

/// What parsing a single statement means: lex, parse one statement, and
/// demand that it consumes every token.
pub open spec fn spec_parse_statement(s: Seq<char>) -> Option<StmtV> {
    match spec_lex(s, 0) {
        Option::Some(t) => if t.len() > usize::MAX - 4 {
            Option::None
        } else {
            match spec_parse_stmt(s, t, 0, (t.len() + 4) as nat) {
                Option::Some((st, j)) => if j == t.len() {
                    Option::Some(st)
                } else {
                    Option::None
                },
                Option::None => Option::None,
            }
        },
        Option::None => Option::None,
    }
}

/// What parsing a single expression means: lex, parse one expression, and
/// demand that it consumes every token but for one optional trailing
/// newline.
pub open spec fn spec_parse_expression(s: Seq<char>) -> Option<ExprV> {
    match spec_lex(s, 0) {
        Option::Some(t) => if t.len() > usize::MAX - 4 {
            Option::None
        } else {
            match spec_parse_expr(s, t, 0, (t.len() + 4) as nat) {
                Option::Some((e, j)) => if j == t.len() || (j + 1 == t.len() && t[j]
                    is Newline) {
                    Option::Some(e)
                } else {
                    Option::None
                },
                Option::None => Option::None,
            }
        },
        Option::None => Option::None,
    }
}

proof fn exprs_view_push(s: Seq<Expression>, e: Expression)
    ensures
        exprs_view(s.push(e)) == exprs_view(s).push(expr_view(e)),
{
    let sp = s.push(e);
    assert(sp.subrange(0, sp.len() - 1) =~= s);
    assert(sp[sp.len() - 1] == e);
}

proof fn stmts_view_push(s: Seq<Statement>, e: Statement)
    ensures
        stmts_view(s.push(e)) == stmts_view(s).push(stmt_view(e)),
{
    let sp = s.push(e);
    assert(sp.subrange(0, sp.len() - 1) =~= s);
    assert(sp[sp.len() - 1] == e);
}

fn parse_expr(s: &str, sl: usize, toks: &Vec<Token>, i: usize, fuel: usize) -> (r: Result<
    (Expression, usize),
    String,
>)
    requires
        sl == s@.len(),
        toks_wf(s@, toks@),
    ensures
        match r {
            Result::Ok((e, j)) => spec_parse_expr(s@, toks@, i as int, fuel as nat)
                == Option::Some((expr_view(e), j as int)) && j <= toks@.len(),
            Result::Err(_) => spec_parse_expr(s@, toks@, i as int, fuel as nat) is None,
        },
    decreases fuel,
{
    if fuel == 0 {
        return Result::Err("expression nesting is too deep".to_owned());
    }
    if i >= toks.len() {
        return Result::Err("expected an expression".to_owned());
    }
    let tok = toks[i];
    match tok {
        Token::Number { value } => Result::Ok((Expression::Number { value }, i + 1)),
        Token::Text { start, end } => {
            let v = s.substring_char(start, end).to_owned();
            proof {
                assert(expr_view(Expression::Str { value: v }) == ExprV::StrV {
                    value: s@.subrange(start as int, end as int),
                });
            }
            Result::Ok((Expression::Str { value: v }, i + 1))
        },
        Token::Name { start, end } => {
            let name = s.substring_char(start, end).to_owned();
            let ident = Expression::Identifier { name };
            let is_call = i + 1 < toks.len() && (match toks[i + 1] {
                Token::LPar => true,
                _ => false,
            });
            if is_call {
                match parse_args(s, sl, toks, i + 2, fuel - 1) {
                    Result::Ok((args, j)) => {
                        let ghost identv = ExprV::IdentifierV {
                            name: s@.subrange(start as int, end as int),
                        };
                        let e = Expression::Call { function: Box::new(ident), args };
                        proof {
                            assert(expr_view(e) == ExprV::CallV {
                                function: Box::new(identv),
                                args: exprs_view(e->Call_args@),
                            });
                        }
                        Result::Ok((e, j))
                    },
                    Result::Err(m) => Result::Err(m),
                }
            } else {
                proof {
                    assert(expr_view(ident) == ExprV::IdentifierV {
                        name: s@.subrange(start as int, end as int),
                    });
                }
                Result::Ok((ident, i + 1))
            }
        },
        _ => Result::Err("unexpected token in expression".to_owned()),
    }
}

fn parse_args(s: &str, sl: usize, toks: &Vec<Token>, i: usize, fuel: usize) -> (r: Result<
    (Vec<Expression>, usize),
    String,
>)
    requires
        sl == s@.len(),
        toks_wf(s@, toks@),
    ensures
        match r {
            Result::Ok((args, j)) => spec_parse_args(s@, toks@, i as int, fuel as nat)
                == Option::Some((exprs_view(args@), j as int)) && j <= toks@.len(),
            Result::Err(_) => spec_parse_args(s@, toks@, i as int, fuel as nat) is None,
        },
    decreases fuel,
{
    if fuel == 0 {
        return Result::Err("expression nesting is too deep".to_owned());
    }
    if i < toks.len() {
        let is_rpar = match toks[i] {
            Token::RPar => true,
            _ => false,
        };
        if is_rpar {
            let args: Vec<Expression> = Vec::new();
            proof {
                assert(exprs_view(args@) =~= Seq::<ExprV>::empty());
            }
            return Result::Ok((args, i + 1));
        }
    }
    match parse_expr(s, sl, toks, i, fuel - 1) {
        Result::Ok((e, j)) => {
            let ghost ev = expr_view(e);
            let mut acc: Vec<Expression> = Vec::new();
            acc.push(e);
            proof {
                assert(acc@ =~= Seq::<Expression>::empty().push(acc@[0]));
                exprs_view_push(Seq::empty(), acc@[0]);
                assert(exprs_view(Seq::<Expression>::empty()) =~= Seq::<ExprV>::empty());
                assert(exprs_view(acc@) =~= Seq::<ExprV>::empty().push(ev));
            }
            parse_more_args(s, sl, toks, j, fuel - 1, acc)
        },
        Result::Err(m) => Result::Err(m),
    }
}

fn parse_more_args(s: &str, sl: usize, toks: &Vec<Token>, i: usize, fuel: usize, acc: Vec<
    Expression,
>) -> (r: Result<(Vec<Expression>, usize), String>)
    requires
        sl == s@.len(),
        toks_wf(s@, toks@),
    ensures
        match r {
            Result::Ok((args, j)) => spec_parse_more_args(
                s@,
                toks@,
                i as int,
                fuel as nat,
                exprs_view(acc@),
            ) == Option::Some((exprs_view(args@), j as int)) && j <= toks@.len(),
            Result::Err(_) => spec_parse_more_args(
                s@,
                toks@,
                i as int,
                fuel as nat,
                exprs_view(acc@),
            ) is None,
        },
    decreases fuel,
{
    if fuel == 0 {
        return Result::Err("expression nesting is too deep".to_owned());
    }
    if i < toks.len() {
        let is_rpar = match toks[i] {
            Token::RPar => true,
            _ => false,
        };
        if is_rpar {
            return Result::Ok((acc, i + 1));
        }
        let is_comma = match toks[i] {
            Token::Comma => true,
            _ => false,
        };
        if is_comma {
            return match parse_expr(s, sl, toks, i + 1, fuel - 1) {
                Result::Ok((e, j)) => {
                    let ghost accs = acc@;
                    let ghost ev = expr_view(e);
                    let mut acc2 = acc;
                    acc2.push(e);
                    proof {
                        exprs_view_push(accs, acc2@[acc2@.len() - 1]);
                        assert(exprs_view(acc2@) == exprs_view(accs).push(ev));
                    }
                    parse_more_args(s, sl, toks, j, fuel - 1, acc2)
                },
                Result::Err(m) => Result::Err(m),
            };
        }
    }
    Result::Err("expected a comma or a closing parenthesis".to_owned())
}


fn parse_stmt(s: &str, sl: usize, toks: &Vec<Token>, i: usize, fuel: usize) -> (r: Result<
    (Statement, usize),
    String,
>)
    requires
        sl == s@.len(),
        toks_wf(s@, toks@),
    ensures
        match r {
            Result::Ok((st, j)) => spec_parse_stmt(s@, toks@, i as int, fuel as nat)
                == Option::Some((stmt_view(st), j as int)) && j <= toks@.len(),
            Result::Err(_) => spec_parse_stmt(s@, toks@, i as int, fuel as nat) is None,
        },
    decreases fuel,
{
    if fuel == 0 {
        return Result::Err("statement nesting is too deep".to_owned());
    }
    if i < toks.len() {
        let is_if = match toks[i] {
            Token::KwIf => true,
            _ => false,
        };
        if is_if {
            return parse_if(s, sl, toks, i + 1, fuel - 1);
        }
    }
    match parse_expr(s, sl, toks, i, fuel - 1) {
        Result::Ok((e, j)) => {
            if j < toks.len() {
                let is_nl = match toks[j] {
                    Token::Newline => true,
                    _ => false,
                };
                if is_nl {
                    let st = Statement::Expression { expression: e };
                    proof {
                        assert(stmt_view(st) == StmtV::ExpressionV {
                            expression: expr_view(st->Expression_expression),
                        });
                    }
                    return Result::Ok((st, j + 1));
                }
            }
            Result::Err("expected a newline after an expression statement".to_owned())
        },
        Result::Err(m) => Result::Err(m),
    }
}

fn parse_if(s: &str, sl: usize, toks: &Vec<Token>, i: usize, fuel: usize) -> (r: Result<
    (Statement, usize),
    String,
>)
    requires
        sl == s@.len(),
        toks_wf(s@, toks@),
    ensures
        match r {
            Result::Ok((st, j)) => spec_parse_if(s@, toks@, i as int, fuel as nat)
                == Option::Some((stmt_view(st), j as int)) && j <= toks@.len(),
            Result::Err(_) => spec_parse_if(s@, toks@, i as int, fuel as nat) is None,
        },
    decreases fuel,
{
    if fuel == 0 {
        return Result::Err("conditional nesting is too deep".to_owned());
    }
    let (test, j) = match parse_expr(s, sl, toks, i, fuel - 1) {
        Result::Ok(p) => p,
        Result::Err(m) => {
            return Result::Err(m);
        },
    };
    let has_colon = j < toks.len() && (match toks[j] {
        Token::Colon => true,
        _ => false,
    });
    if !has_colon {
        return Result::Err("expected a colon after the test of a conditional".to_owned());
    }
    let (body_st, k) = match parse_stmt(s, sl, toks, j + 1, fuel - 1) {
        Result::Ok(p) => p,
        Result::Err(m) => {
            return Result::Err(m);
        },
    };
    let mut bv: Vec<Statement> = Vec::new();
    bv.push(body_st);
    proof {
        assert(bv@ =~= Seq::<Statement>::empty().push(bv@[0]));
        stmts_view_push(Seq::empty(), bv@[0]);
        assert(stmts_view(Seq::<Statement>::empty()) =~= Seq::<StmtV>::empty());
    }
    let is_elif = k < toks.len() && (match toks[k] {
        Token::KwElif => true,
        _ => false,
    });
    if is_elif {
        let (chain, m) = match parse_if(s, sl, toks, k + 1, fuel - 1) {
            Result::Ok(p) => p,
            Result::Err(msg) => {
                return Result::Err(msg);
            },
        };
        let mut ov: Vec<Statement> = Vec::new();
        ov.push(chain);
        proof {
            assert(ov@ =~= Seq::<Statement>::empty().push(ov@[0]));
            stmts_view_push(Seq::empty(), ov@[0]);
        }
        let st = Statement::If { test, body: bv, orelse: Option::Some(ov) };
        proof {
            assert(stmt_view(st) == StmtV::IfV {
                test: expr_view(st->If_test),
                body: stmts_view(st->If_body@),
                orelse: Option::Some(stmts_view(st->If_orelse->0@)),
            });
        }
        return Result::Ok((st, m));
    }
    let is_else = k < toks.len() && k + 1 < toks.len() && (match toks[k] {
        Token::KwElse => true,
        _ => false,
    }) && (match toks[k + 1] {
        Token::Colon => true,
        _ => false,
    });
    if is_else {
        let (els, m) = match parse_stmt(s, sl, toks, k + 2, fuel - 1) {
            Result::Ok(p) => p,
            Result::Err(msg) => {
                return Result::Err(msg);
            },
        };
        let mut ov: Vec<Statement> = Vec::new();
        ov.push(els);
        proof {
            assert(ov@ =~= Seq::<Statement>::empty().push(ov@[0]));
            stmts_view_push(Seq::empty(), ov@[0]);
        }
        let st = Statement::If { test, body: bv, orelse: Option::Some(ov) };
        proof {
            assert(stmt_view(st) == StmtV::IfV {
                test: expr_view(st->If_test),
                body: stmts_view(st->If_body@),
                orelse: Option::Some(stmts_view(st->If_orelse->0@)),
            });
        }
        return Result::Ok((st, m));
    }
    let st = Statement::If { test, body: bv, orelse: Option::None };
    proof {
        assert(stmt_view(st) == StmtV::IfV {
            test: expr_view(st->If_test),
            body: stmts_view(st->If_body@),
            orelse: Option::None,
        });
    }
    Result::Ok((st, k))
}

fn parse_stmts(s: &str, sl: usize, toks: &Vec<Token>, i: usize, fuel: usize, acc: Vec<
    Statement,
>) -> (r: Result<Vec<Statement>, String>)
    requires
        sl == s@.len(),
        toks_wf(s@, toks@),
    ensures
        match r {
            Result::Ok(sts) => spec_parse_stmts(s@, toks@, i as int, fuel as nat, stmts_view(acc@))
                == Option::Some(stmts_view(sts@)),
            Result::Err(_) => spec_parse_stmts(
                s@,
                toks@,
                i as int,
                fuel as nat,
                stmts_view(acc@),
            ) is None,
        },
    decreases fuel,
{
    if fuel == 0 {
        return Result::Err("program is too long to parse".to_owned());
    }
    if i >= toks.len() {
        return Result::Ok(acc);
    }
    match parse_stmt(s, sl, toks, i, fuel - 1) {
        Result::Ok((st, j)) => {
            let ghost accs = acc@;
            let mut acc2 = acc;
            acc2.push(st);
            proof {
                stmts_view_push(accs, acc2@[acc2@.len() - 1]);
            }
            parse_stmts(s, sl, toks, j, fuel - 1, acc2)
        },
        Result::Err(m) => Result::Err(m),
    }
}

/// Parses source text into a whole program: the statement sequence of the
/// result is exactly what `spec_parse_program` names, and parsing fails
/// exactly where that specification has no answer.
pub fn parse_program(source: &String) -> (r: Result<Program, String>)
    ensures
        match r {
            Result::Ok(p) => spec_parse_program(source@) == Option::Some(p@),
            Result::Err(_) => spec_parse_program(source@) is None,
        },
{
    let a = source.as_str();
    let sl = a.unicode_len();
    let toks = match lex_source(a) {
        Result::Ok(t) => t,
        Result::Err(m) => {
            return Result::Err(m);
        },
    };
    proof {
        spec_lex_wf(a@, 0);
    }
    if toks.len() > usize::MAX - 4 {
        return Result::Err("program has too many tokens".to_owned());
    }
    let fuel = toks.len() + 4;
    let acc: Vec<Statement> = Vec::new();
    proof {
        assert(stmts_view(acc@) =~= Seq::<StmtV>::empty());
    }
    match parse_stmts(a, sl, &toks, 0, fuel, acc) {
        Result::Ok(sts) => Result::Ok(Program { statements: sts }),
        Result::Err(m) => Result::Err(m),
    }
}

/// Parses source text that holds exactly one statement.
pub fn parse_statement(source: &String) -> (r: Result<Statement, String>)
    ensures
        match r {
            Result::Ok(st) => spec_parse_statement(source@) == Option::Some(st@),
            Result::Err(_) => spec_parse_statement(source@) is None,
        },
{
    let a = source.as_str();
    let sl = a.unicode_len();
    let toks = match lex_source(a) {
        Result::Ok(t) => t,
        Result::Err(m) => {
            return Result::Err(m);
        },
    };
    proof {
        spec_lex_wf(a@, 0);
    }
    if toks.len() > usize::MAX - 4 {
        return Result::Err("statement has too many tokens".to_owned());
    }
    let fuel = toks.len() + 4;
    match parse_stmt(a, sl, &toks, 0, fuel) {
        Result::Ok((st, j)) => if j == toks.len() {
            Result::Ok(st)
        } else {
            Result::Err("unexpected input after the statement".to_owned())
        },
        Result::Err(m) => Result::Err(m),
    }
}

/// Parses source text that holds exactly one expression, with an optional
/// trailing newline.
pub fn parse_expression(source: &String) -> (r: Result<Expression, String>)
    ensures
        match r {
            Result::Ok(e) => spec_parse_expression(source@) == Option::Some(e@),
            Result::Err(_) => spec_parse_expression(source@) is None,
        },
{
    let a = source.as_str();
    let sl = a.unicode_len();
    let toks = match lex_source(a) {
        Result::Ok(t) => t,
        Result::Err(m) => {
            return Result::Err(m);
        },
    };
    proof {
        spec_lex_wf(a@, 0);
    }
    if toks.len() > usize::MAX - 4 {
        return Result::Err("expression has too many tokens".to_owned());
    }
    let fuel = toks.len() + 4;
    match parse_expr(a, sl, &toks, 0, fuel) {
        Result::Ok((e, j)) => {
            let done = j == toks.len() || (j + 1 == toks.len() && (match toks[j] {
                Token::Newline => true,
                _ => false,
            }));
            if done {
                Result::Ok(e)
            } else {
                Result::Err("unexpected input after the expression".to_owned())
            }
        },
        Result::Err(m) => Result::Err(m),
    }
}

} // verus!
