use vstd::prelude::*;

use crate::ast::Ast;
use crate::ast::AstV;
use crate::ast::view_asts;
use crate::ast::view_members;
use crate::ast::ClassMemberV;
use crate::expression::Expression;
use crate::expression::ExpressionV;
use crate::expr_parser::find_close;
use crate::expr_parser::find_close_exec;
use crate::expr_parser::parse_elems;
use crate::expr_parser::parse_expr_span;
use crate::expr_parser::parse_params;
use crate::expr_parser::skip_trivia;
use crate::expr_parser::skip_trivia_exec;
use crate::expression::view_strs;
use crate::expr_parser::spec_params;
use crate::expr_parser::spec_parse_elems;
use crate::expr_parser::spec_parse_expr_span;
use crate::expr_parser::spec_fuel;
use crate::expr_parser::ElemMode;
use crate::expr_parser::ParseError;
use crate::lexer::lex;
use crate::lexer::LexError;
use crate::operator::Operator;
use crate::token::Token;

verus! {

/// What the previous significant token was, as far as the statement-level
/// expression scanner cares: only a class identifier, arrow or `#` lets a
/// following `{` belong to the expression.
#[derive(Debug, Clone, Copy, PartialEq, Eq)]
pub enum PrevK {
    Start,
    ClassIdent,
    Arrow,
    Hash,
    Other,
}

/// Where the expression statement that begins at `i` ends: at `;` outside
/// all nesting, at an unmatched closing delimiter, or at a `{` that cannot
/// continue the expression. Newlines pass through without ending it.
pub open spec fn expr_stop(ts: Seq<Token>, i: int, end: int, pd: int, cd: int, prev: PrevK) -> int
    decreases end - i,
{
    if i < 0 || i >= end || i >= ts.len() {
        i
    } else {
        match ts[i] {
            Token::NewLine => expr_stop(ts, i + 1, end, pd, cd, prev),
            Token::SemiColon => if pd == 0 && cd == 0 {
                i
            } else {
                expr_stop(ts, i + 1, end, pd, cd, PrevK::Other)
            },
            Token::LParan => expr_stop(ts, i + 1, end, pd + 1, cd, PrevK::Other),
            Token::RParan => if pd == 0 {
                i
            } else {
                expr_stop(ts, i + 1, end, pd - 1, cd, PrevK::Other)
            },
            Token::LCurly => match prev {
                PrevK::ClassIdent => expr_stop(ts, i + 1, end, pd, cd + 1, PrevK::Other),
                PrevK::Arrow => expr_stop(ts, i + 1, end, pd, cd + 1, PrevK::Other),
                PrevK::Hash => expr_stop(ts, i + 1, end, pd, cd + 1, PrevK::Other),
                _ => i,
            },
            Token::RCurly => if cd == 0 {
                i
            } else {
                expr_stop(ts, i + 1, end, pd, cd - 1, PrevK::Other)
            },
            Token::ClassIdentifier(_) => expr_stop(ts, i + 1, end, pd, cd, PrevK::ClassIdent),
            Token::Arrow => expr_stop(ts, i + 1, end, pd, cd, PrevK::Arrow),
            Token::Hash => expr_stop(ts, i + 1, end, pd, cd, PrevK::Hash),
            _ => expr_stop(ts, i + 1, end, pd, cd, PrevK::Other),
        }
    }
}

/// The first position in `i..end` holding neither trivia nor a semicolon,
/// clamped into `i..=end`.
pub open spec fn skip_seps(ts: Seq<Token>, i: int, end: int) -> int
    decreases end - i,
{
    if 0 <= i < end && i < ts.len() && (ts[i] is NewLine || ts[i] is Comment || ts[i] is SemiColon) {
        let r = skip_seps(ts, i + 1, end);
        if r < i + 1 {
            i + 1
        } else if r > end {
            end
        } else {
            r
        }
    } else {
        i
    }
}

/// The dotted path after `import`: consecutive identifier and dot tokens,
/// joined, with the position after them.
pub open spec fn spec_import_path(ts: Seq<Token>, i: int, end: int) -> (Seq<char>, int)
    decreases end - i,
{
    if 0 <= i < end && i < ts.len() {
        match ts[i] {
            Token::Identifier(s) => {
                let r = spec_import_path(ts, i + 1, end);
                (s@ + r.0, r.1)
            },
            Token::Dot => {
                let r = spec_import_path(ts, i + 1, end);
                ("."@ + r.0, r.1)
            },
            _ => (Seq::empty(), i),
        }
    } else {
        (Seq::empty(), i)
    }
}

/// A class body's statements as members: fields, methods, static methods and
/// operator overloads; any other statement shape refuses the class.
pub open spec fn spec_members_of(stmts: Seq<AstV>) -> Option<Seq<ClassMemberV>>
    decreases stmts.len(),
{
    if stmts.len() == 0 {
        Some(Seq::empty())
    } else {
        let m = match stmts[0] {
            AstV::VariableDefinition(a, b) => Some(ClassMemberV::Field(a, b)),
            AstV::FunctionDefinition(a, b, c) => Some(ClassMemberV::Function(a, b, c)),
            AstV::StaticFunctionDefinition(a, b, c) => Some(ClassMemberV::StaticFunction(a, b, c)),
            AstV::OperatorImplementation(a, b, c) => Some(ClassMemberV::Operator(a, b, c)),
            _ => None,
        };
        match m {
            None => None,
            Some(mm) => match spec_members_of(stmts.drop_first()) {
                None => None,
                Some(rest) => Some(seq![mm] + rest),
            },
        }
    }
}

/// The common tail of `fn` and `static fn`: name, parameter list in parens,
/// brace-delimited body; yields the position after the closing brace.
pub open spec fn spec_fn_tail(ts: Seq<Token>, i: int, end: int, fuel: nat) -> Option<
    (Seq<char>, Seq<Seq<char>>, Seq<AstV>, int),
>
    decreases fuel,
{
    if fuel == 0 {
        None
    } else {
        let q = skip_trivia(ts, i, end);
        if q >= end || q >= ts.len() {
            None
        } else {
            match ts[q] {
                Token::Identifier(name) => {
                    let lp = skip_trivia(ts, q + 1, end);
                    if lp >= end || lp >= ts.len() || !(ts[lp] is LParan) {
                        None
                    } else {
                        match find_close(ts, lp + 1, end, Token::RParan, 0) {
                            None => None,
                            Some(pc) => match spec_params(ts, lp + 1, pc) {
                                None => None,
                                Some(params) => {
                                    let br = skip_trivia(ts, pc + 1, end);
                                    if br >= end || br >= ts.len() || !(ts[br] is LCurly) {
                                        None
                                    } else {
                                        match find_close(ts, br + 1, end, Token::RCurly, 0) {
                                            None => None,
                                            Some(bc) => match spec_parse_stmts_span(
                                                ts,
                                                br + 1,
                                                bc,
                                                (fuel - 1) as nat,
                                            ) {
                                                None => None,
                                                Some((body, stop)) => if stop >= bc {
                                                    Some((name@, params, body, bc + 1))
                                                } else {
                                                    None
                                                },
                                            },
                                        }
                                    }
                                },
                            },
                        }
                    }
                },
                _ => None,
            }
        }
    }
}

/// A statement that begins with a call: the whole expression span is
/// parsed, so call chains and arithmetic around the call are statements
/// too; a single plain call keeps its dedicated statement node.
pub open spec fn spec_call_stmt(ts: Seq<Token>, p: int, end: int, fuel: nat) -> Option<
    (AstV, int),
>
    decreases fuel,
{
    if fuel == 0 {
        None
    } else {
        let q = expr_stop(ts, p, end, 0, 0, PrevK::Start);
        match spec_parse_expr_span(ts, p, q, (fuel - 1) as nat) {
        None => None,
        Some(ev) => match ev {
            ExpressionV::FunctionCall(callee, args) => match *callee {
                ExpressionV::Identifier(nm) => Some((AstV::FunctionCall(nm, args), q)),
                _ => Some((AstV::Expression(ev), q)),
            },
            _ => Some((AstV::Expression(ev), q)),
        },
        }
    }
}

/// One statement beginning at `p`, with the position after it.
pub open spec fn spec_parse_stmt(ts: Seq<Token>, p: int, end: int, fuel: nat) -> Option<
    (AstV, int),
>
    decreases fuel,
{
    if fuel == 0 || p < 0 || p >= end || p >= ts.len() {
        None
    } else {
        match ts[p] {
            Token::KwReturn => if p + 1 < end && p + 1 < ts.len() && ts[p + 1] is SemiColon {
                Some((AstV::ReturnStatement(ExpressionV::Null), p + 1))
            } else {
                let q = expr_stop(ts, p + 1, end, 0, 0, PrevK::Start);
                match spec_parse_expr_span(ts, p + 1, q, (fuel - 1) as nat) {
                    None => None,
                    Some(e) => Some((AstV::ReturnStatement(e), q)),
                }
            },
            Token::KwVar => {
                let q = skip_trivia(ts, p + 1, end);
                if q >= end || q >= ts.len() {
                    None
                } else {
                    match ts[q] {
                        Token::Identifier(name) => if q + 1 < end && q + 1 < ts.len() && ts[q
                            + 1] is SemiColon {
                            Some((AstV::VariableDefinition(name@, ExpressionV::Null), q + 1))
                        } else {
                            let r = skip_trivia(ts, q + 1, end);
                            if r >= end || r >= ts.len() || !(ts[r] is Equal) {
                                None
                            } else {
                                let q2 = expr_stop(ts, r + 1, end, 0, 0, PrevK::Start);
                                match spec_parse_expr_span(ts, r + 1, q2, (fuel - 1) as nat) {
                                    None => None,
                                    Some(e) => Some((AstV::VariableDefinition(name@, e), q2)),
                                }
                            }
                        },
                        _ => None,
                    }
                }
            },
            Token::KwIf => {
                let q = expr_stop(ts, p + 1, end, 0, 0, PrevK::Start);
                match spec_parse_expr_span(ts, p + 1, q, (fuel - 1) as nat) {
                    None => None,
                    Some(cond) => {
                        let r = skip_trivia(ts, q, end);
                        if r >= end || r >= ts.len() || !(ts[r] is LCurly) {
                            None
                        } else {
                            match find_close(ts, r + 1, end, Token::RCurly, 0) {
                                None => None,
                                Some(bc) => match spec_parse_stmts_span(
                                    ts,
                                    r + 1,
                                    bc,
                                    (fuel - 1) as nat,
                                ) {
                                    None => None,
                                    Some((body, stop)) => if stop >= bc {
                                        Some((AstV::IfStatement(cond, body), bc + 1))
                                    } else {
                                        None
                                    },
                                },
                            }
                        }
                    },
                }
            },
            Token::KwFn => {
                match spec_fn_tail(ts, p + 1, end, (fuel - 1) as nat) {
                    None => None,
                    Some((name, params, body, p2)) => Some(
                        (AstV::FunctionDefinition(name, params, body), p2),
                    ),
                }
            },
            Token::KwStatic => {
                let q = skip_trivia(ts, p + 1, end);
                if q >= end || q >= ts.len() || !(ts[q] is KwFn) {
                    None
                } else {
                    match spec_fn_tail(ts, q + 1, end, (fuel - 1) as nat) {
                        None => None,
                        Some((name, params, body, p2)) => Some(
                            (AstV::StaticFunctionDefinition(name, params, body), p2),
                        ),
                    }
                }
            },
            Token::KwOp => {
                let q = skip_trivia(ts, p + 1, end);
                if q >= end || q >= ts.len() {
                    None
                } else {
                    match ts[q] {
                        Token::Identifier(w) => {
                            let op = if w@ == "add"@ {
                                Some(Operator::Add)
                            } else if w@ == "dot"@ {
                                Some(Operator::Dot)
                            } else {
                                None
                            };
                            match op {
                                None => None,
                                Some(o) => {
                                    let lp = skip_trivia(ts, q + 1, end);
                                    if lp >= end || lp >= ts.len() || !(ts[lp] is LParan) {
                                        None
                                    } else {
                                        match find_close(ts, lp + 1, end, Token::RParan, 0) {
                                            None => None,
                                            Some(pc) => match spec_params(ts, lp + 1, pc) {
                                                None => None,
                                                Some(params) => {
                                                    let br = skip_trivia(ts, pc + 1, end);
                                                    if br >= end || br >= ts.len() || !(ts[br]
                                                        is LCurly) {
                                                        None
                                                    } else {
                                                        match find_close(
                                                            ts,
                                                            br + 1,
                                                            end,
                                                            Token::RCurly,
                                                            0,
                                                        ) {
                                                            None => None,
                                                            Some(bc) => match spec_parse_stmts_span(
                                                                ts,
                                                                br + 1,
                                                                bc,
                                                                (fuel - 1) as nat,
                                                            ) {
                                                                None => None,
                                                                Some((body, stop)) => if stop
                                                                    >= bc {
                                                                    Some(
                                                                        (
                                                                            AstV::OperatorImplementation(
                                                                                o,
                                                                                params,
                                                                                body,
                                                                            ),
                                                                            bc + 1,
                                                                        ),
                                                                    )
                                                                } else {
                                                                    None
                                                                },
                                                            },
                                                        }
                                                    }
                                                },
                                            },
                                        }
                                    }
                                },
                            }
                        },
                        _ => None,
                    }
                }
            },
            Token::KwClass => {
                let q = skip_trivia(ts, p + 1, end);
                if q >= end || q >= ts.len() {
                    None
                } else {
                    match ts[q] {
                        Token::ClassIdentifier(name) => {
                            let br = skip_trivia(ts, q + 1, end);
                            if br >= end || br >= ts.len() || !(ts[br] is LCurly) {
                                None
                            } else {
                                match find_close(ts, br + 1, end, Token::RCurly, 0) {
                                    None => None,
                                    Some(bc) => match spec_parse_stmts_span(
                                        ts,
                                        br + 1,
                                        bc,
                                        (fuel - 1) as nat,
                                    ) {
                                        None => None,
                                        Some((stmts, stop)) => if stop >= bc {
                                            match spec_members_of(stmts) {
                                                None => None,
                                                Some(members) => Some(
                                                    (AstV::ClassDefinition(name@, members), bc + 1),
                                                ),
                                            }
                                        } else {
                                            None
                                        },
                                    },
                                }
                            }
                        },
                        _ => None,
                    }
                }
            },
            Token::KwImport => {
                let r = spec_import_path(ts, p + 1, end);
                Some((AstV::ImportStatement(r.0), r.1))
            },
            Token::KwExport => {
                let q = skip_trivia(ts, p + 1, end);
                if q >= end || q >= ts.len() {
                    None
                } else {
                    match ts[q] {
                        Token::Identifier(s) => Some(
                            (
                                AstV::ExportStatement(
                                    Box::new(AstV::Expression(ExpressionV::Identifier(s@))),
                                ),
                                q + 1,
                            ),
                        ),
                        Token::ClassIdentifier(s) => Some(
                            (
                                AstV::ExportStatement(
                                    Box::new(AstV::Expression(ExpressionV::ClassIdentifier(s@))),
                                ),
                                q + 1,
                            ),
                        ),
                        _ => None,
                    }
                }
            },
            Token::ClassIdentifier(_) => {
                let q = expr_stop(ts, p, end, 0, 0, PrevK::Start);
                match spec_parse_expr_span(ts, p, q, (fuel - 1) as nat) {
                    None => None,
                    Some(e) => Some((AstV::Expression(e), q)),
                }
            },
            Token::Identifier(name) => if p + 1 >= end || p + 1 >= ts.len() {
                None
            } else {
                match ts[p + 1] {
                    Token::LParan => spec_call_stmt(ts, p, end, (fuel - 1) as nat),
                    Token::Equal => {
                        let q2 = expr_stop(ts, p + 2, end, 0, 0, PrevK::Start);
                        match spec_parse_expr_span(ts, p + 2, q2, (fuel - 1) as nat) {
                            None => None,
                            Some(e) => Some((AstV::VariableAssignment(name@, e), q2)),
                        }
                    },
                    Token::Dot => {
                        let q = expr_stop(ts, p, end, 0, 0, PrevK::Start);
                        match spec_parse_expr_span(ts, p, q, (fuel - 1) as nat) {
                            None => None,
                            Some(e) => Some((AstV::Expression(e), q)),
                        }
                    },
                    Token::DoubleColon => {
                        let q = expr_stop(ts, p, end, 0, 0, PrevK::Start);
                        match spec_parse_expr_span(ts, p, q, (fuel - 1) as nat) {
                            None => None,
                            Some(e) => Some((AstV::Expression(e), q)),
                        }
                    },
                    _ => None,
                }
            },
            _ => None,
        }
    }
}

/// The statements of `ts[pos..end)`, up to `end` or to the first unmatched
/// closing brace, whose position comes back with them.
pub open spec fn spec_parse_stmts_span(ts: Seq<Token>, pos: int, end: int, fuel: nat) -> Option<
    (Seq<AstV>, int),
>
    decreases fuel,
{
    if fuel == 0 {
        None
    } else {
        let p = skip_seps(ts, pos, end);
        if p >= end || p >= ts.len() {
            Some((Seq::empty(), p))
        } else if ts[p] is RCurly {
            Some((Seq::empty(), p))
        } else {
            match spec_parse_stmt(ts, p, end, (fuel - 1) as nat) {
                None => None,
                Some((stmt, p2)) => match spec_parse_stmts_span(ts, p2, end, (fuel - 1) as nat) {
                    None => None,
                    Some((rest, stop)) => Some((seq![stmt] + rest, stop)),
                },
            }
        }
    }
}

/// The statements written by the whole token list; refuses leftover tokens,
/// in particular an unmatched closing brace.
pub open spec fn spec_parse_program(ts: Seq<Token>) -> Option<Seq<AstV>> {
    match spec_parse_stmts_span(ts, 0, ts.len() as int, spec_fuel(ts.len())) {
        None => None,
        Some((stmts, stop)) => if stop >= ts.len() {
            Some(stmts)
        } else {
            None
        },
    }
}



fn sep_tok(t: &Token) -> (b: bool)
    ensures
        b == (*t is NewLine || *t is Comment || *t is SemiColon),
{
    match t {
        Token::NewLine => true,
        Token::Comment(_) => true,
        Token::SemiColon => true,
        _ => false,
    }
}

fn skip_seps_exec(ts: &Vec<Token>, i: usize, end: usize) -> (r: usize)
    requires
        i <= end,
        end <= ts.len(),
    ensures
        i <= r <= end,
        r as int == skip_seps(ts@, i as int, end as int),
{
    let mut j: usize = i;
    while j < end && sep_tok(&ts[j])
        invariant
            i <= j <= end <= ts.len(),
            skip_seps(ts@, i as int, end as int) == skip_seps(ts@, j as int, end as int),
        decreases end - j,
    {
        j = j + 1;
    }
    proof {
        assert(skip_seps(ts@, j as int, end as int) == j as int);
    }
    j
}

/// Where the expression statement that begins at `i` ends; see `expr_stop`.
fn expr_stop_exec(ts: &Vec<Token>, i: usize, end: usize) -> (r: usize)
    requires
        i <= end,
        end <= ts.len(),
    ensures
        i <= r <= end,
        r as int == expr_stop(ts@, i as int, end as int, 0, 0, PrevK::Start),
{
    let mut j: usize = i;
    let mut pd: usize = 0;
    let mut cd: usize = 0;
    let mut prev = PrevK::Start;
    loop
        invariant
            i <= j <= end <= ts.len(),
            expr_stop(ts@, i as int, end as int, 0, 0, PrevK::Start) == expr_stop(
                ts@,
                j as int,
                end as int,
                pd as int,
                cd as int,
                prev,
            ),
            pd <= j,
            cd <= j,
        decreases end - j,
    {
        if j >= end {
            return j;
        }
        match &ts[j] {
            Token::NewLine => {
            },
            Token::SemiColon => {
                if pd == 0 && cd == 0 {
                    return j;
                }
                prev = PrevK::Other;
            },
            Token::LParan => {
                pd = pd + 1;
                prev = PrevK::Other;
            },
            Token::RParan => {
                if pd == 0 {
                    return j;
                }
                pd = pd - 1;
                prev = PrevK::Other;
            },
            Token::LCurly => {
                let opens = match prev {
                    PrevK::ClassIdent => true,
                    PrevK::Arrow => true,
                    PrevK::Hash => true,
                    _ => false,
                };
                if !opens {
                    return j;
                }
                cd = cd + 1;
                prev = PrevK::Other;
            },
            Token::RCurly => {
                if cd == 0 {
                    return j;
                }
                cd = cd - 1;
                prev = PrevK::Other;
            },
            Token::ClassIdentifier(_) => {
                prev = PrevK::ClassIdent;
            },
            Token::Arrow => {
                prev = PrevK::Arrow;
            },
            Token::Hash => {
                prev = PrevK::Hash;
            },
            _ => {
                prev = PrevK::Other;
            },
        }
        j = j + 1;
    }
}

/// The dotted path after `import`, joined into one string.
fn import_path(ts: &Vec<Token>, i: usize, end: usize) -> (r: (String, usize))
    requires
        i <= end,
        end <= ts.len(),
    ensures
        i <= r.1 <= end,
        (r.0@, r.1 as int) == spec_import_path(ts@, i as int, end as int),
    decreases end - i,
{
    if i >= end {
        return (String::new(), i);
    }
    match &ts[i] {
        Token::Identifier(s) => {
            let rest = import_path(ts, i + 1, end);
            let mut out = s.clone();
            out.append(rest.0.as_str());
            (out, rest.1)
        },
        Token::Dot => {
            let rest = import_path(ts, i + 1, end);
            let mut out = String::from_str(".");
            out.append(rest.0.as_str());
            (out, rest.1)
        },
        _ => (String::new(), i),
    }
}

/// A class body's statements as members; any other statement refuses.
#[verifier::loop_isolation(false)]
fn members_of(stmts: Vec<Ast>) -> (r: Result<Vec<crate::ast::ClassMember>, ParseError>)
    ensures
        match r {
            Ok(ms) => spec_members_of(view_asts(stmts@)) == Some(view_members(ms@)),
            Err(_) => spec_members_of(view_asts(stmts@)) is None,
        },
{
    let mut ms: Vec<crate::ast::ClassMember> = Vec::new();
    let mut rest = stmts;
    let ghost orig = rest@;
    loop
        invariant
            spec_members_of(view_asts(orig)) == (match spec_members_of(view_asts(rest@)) {
                None => None::<Seq<ClassMemberV>>,
                Some(tail) => Some(view_members(ms@) + tail),
            }),
        decreases rest@.len(),
    {
        if rest.len() == 0 {
            proof {
                assert(view_asts(rest@) =~= Seq::<AstV>::empty());
                assert(view_members(ms@) + Seq::<ClassMemberV>::empty() =~= view_members(ms@));
            }
            return Ok(ms);
        }
        let ghost restv = rest@;
        let ghost msv = ms@;
        let first = rest.remove(0);
        let ghost firstv = first@;
        proof {
            assert(view_asts(restv).len() > 0);
            assert(view_asts(restv)[0] == firstv);
            assert(view_asts(restv).drop_first() =~= view_asts(rest@));
        }
        let m = match first {
            Ast::VariableDefinition(a, b) => crate::ast::ClassMember::Field(a, b),
            Ast::FunctionDefinition(a, b, c) => crate::ast::ClassMember::Function(a, b, c),
            Ast::StaticFunctionDefinition(a, b, c) => crate::ast::ClassMember::StaticFunction(
                a,
                b,
                c,
            ),
            Ast::OperatorImplementation(a, b, c) => crate::ast::ClassMember::Operator(a, b, c),
            _ => {
                return Err(ParseError { at: 0 });
            },
        };
        let ghost mv = m@;
        ms.push(m);
        proof {
            assert(view_members(ms@) =~= view_members(msv).push(mv));
            assert(spec_members_of(view_asts(restv)) == (match spec_members_of(
                view_asts(rest@),
            ) {
                None => None::<Seq<ClassMemberV>>,
                Some(tail) => Some(seq![mv] + tail),
            }));
            match spec_members_of(view_asts(rest@)) {
                None => {},
                Some(tail) => {
                    assert(view_members(msv) + (seq![mv] + tail) =~= view_members(msv).push(mv)
                        + tail);
                },
            }
        }
    }
}

/// The common tail of `fn` and `static fn` definitions.
fn fn_tail(ts: &Vec<Token>, i: usize, end: usize, fuel: u64) -> (r: Result<
    (String, Vec<String>, Vec<Ast>, usize),
    ParseError,
>)
    requires
        i <= end,
        end <= ts.len(),
    ensures
        match r {
            Ok(t) => i <= t.3 <= end && spec_fn_tail(ts@, i as int, end as int, fuel as nat)
                == Some((t.0@, view_strs(t.1@), view_asts(t.2@), t.3 as int)),
            Err(_) => spec_fn_tail(ts@, i as int, end as int, fuel as nat) is None,
        },
    decreases fuel,
{
    if fuel == 0 {
        return Err(ParseError { at: i });
    }
    let q = skip_trivia_exec(ts, i, end);
    if q >= end {
        return Err(ParseError { at: q });
    }
    match &ts[q] {
        Token::Identifier(name) => {
            let lp = skip_trivia_exec(ts, q + 1, end);
            let has_lp = lp < end && (match &ts[lp] {
                Token::LParan => true,
                _ => false,
            });
            if !has_lp {
                return Err(ParseError { at: lp });
            }
            let pc = match find_close_exec(ts, lp + 1, end, &Token::RParan) {
                None => {
                    return Err(ParseError { at: lp });
                },
                Some(c) => c,
            };
            let params = match parse_params(ts, lp + 1, pc) {
                Err(e) => {
                    return Err(e);
                },
                Ok(ps) => ps,
            };
            let br = skip_trivia_exec(ts, pc + 1, end);
            let has_br = br < end && (match &ts[br] {
                Token::LCurly => true,
                _ => false,
            });
            if !has_br {
                return Err(ParseError { at: br });
            }
            let bc = match find_close_exec(ts, br + 1, end, &Token::RCurly) {
                None => {
                    return Err(ParseError { at: br });
                },
                Some(c) => c,
            };
            match parse_stmts_span(ts, br + 1, bc, fuel - 1) {
                Err(e) => Err(e),
                Ok((body, stop)) => {
                    if stop < bc {
                        return Err(ParseError { at: stop });
                    }
                    Ok((name.clone(), params, body, bc + 1))
                },
            }
        },
        _ => Err(ParseError { at: q }),
    }
}

/// One statement beginning at `p`; see `spec_parse_stmt`.
#[verifier::rlimit(100)]
fn parse_stmt(ts: &Vec<Token>, p: usize, end: usize, fuel: u64) -> (r: Result<
    (Ast, usize),
    ParseError,
>)
    requires
        p <= end,
        end <= ts.len(),
    ensures
        match r {
            Ok(t) => p <= t.1 <= end && spec_parse_stmt(ts@, p as int, end as int, fuel as nat)
                == Some((t.0@, t.1 as int)),
            Err(_) => spec_parse_stmt(ts@, p as int, end as int, fuel as nat) is None,
        },
    decreases fuel,
{
    if fuel == 0 || p >= end {
        return Err(ParseError { at: p });
    }
    match &ts[p] {
        Token::KwReturn => {
            let semi = p + 1 < end && (match &ts[p + 1] {
                Token::SemiColon => true,
                _ => false,
            });
            if semi {
                let node = Ast::ReturnStatement(Expression::Null);
                proof {
                    assert(Expression::Null@ == ExpressionV::Null);
                    assert(node@ == AstV::ReturnStatement(ExpressionV::Null));
                }
                return Ok((node, p + 1));
            }
            let q = expr_stop_exec(ts, p + 1, end);
            match parse_expr_span(ts, p + 1, q, fuel - 1) {
                Err(e) => Err(e),
                Ok(e) => Ok((Ast::ReturnStatement(e), q)),
            }
        },
        Token::KwVar => {
            let q = skip_trivia_exec(ts, p + 1, end);
            if q >= end {
                return Err(ParseError { at: q });
            }
            match &ts[q] {
                Token::Identifier(name) => {
                    let semi = q + 1 < end && (match &ts[q + 1] {
                        Token::SemiColon => true,
                        _ => false,
                    });
                    if semi {
                        let node = Ast::VariableDefinition(name.clone(), Expression::Null);
                        proof {
                            assert(Expression::Null@ == ExpressionV::Null);
                            assert(node@ == AstV::VariableDefinition(name@, ExpressionV::Null));
                        }
                        return Ok((node, q + 1));
                    }
                    let r0 = skip_trivia_exec(ts, q + 1, end);
                    let eq = r0 < end && (match &ts[r0] {
                        Token::Equal => true,
                        _ => false,
                    });
                    if !eq {
                        return Err(ParseError { at: r0 });
                    }
                    let q2 = expr_stop_exec(ts, r0 + 1, end);
                    match parse_expr_span(ts, r0 + 1, q2, fuel - 1) {
                        Err(e) => Err(e),
                        Ok(e) => Ok((Ast::VariableDefinition(name.clone(), e), q2)),
                    }
                },
                _ => Err(ParseError { at: q }),
            }
        },
        Token::KwIf => {
            let q = expr_stop_exec(ts, p + 1, end);
            let cond = match parse_expr_span(ts, p + 1, q, fuel - 1) {
                Err(e) => {
                    return Err(e);
                },
                Ok(c) => c,
            };
            let r0 = skip_trivia_exec(ts, q, end);
            let lc = r0 < end && (match &ts[r0] {
                Token::LCurly => true,
                _ => false,
            });
            if !lc {
                return Err(ParseError { at: r0 });
            }
            let bc = match find_close_exec(ts, r0 + 1, end, &Token::RCurly) {
                None => {
                    return Err(ParseError { at: r0 });
                },
                Some(c) => c,
            };
            match parse_stmts_span(ts, r0 + 1, bc, fuel - 1) {
                Err(e) => Err(e),
                Ok((body, stop)) => {
                    if stop < bc {
                        return Err(ParseError { at: stop });
                    }
                    let ghost condv = cond@;
                    let ghost bodyv = body@;
                    let node = Ast::IfStatement(cond, body);
                    proof {
                        assert(node@ =~~= AstV::IfStatement(condv, view_asts(bodyv)));
                    }
                    Ok((node, bc + 1))
                },
            }
        },
        Token::KwFn => {
            match fn_tail(ts, p + 1, end, fuel - 1) {
                Err(e) => Err(e),
                Ok((name, params, body, p2)) => {
                    let ghost paramsv = params@;
                    let ghost bodyv = body@;
                    let node = Ast::FunctionDefinition(name, params, body);
                    proof {
                        assert(crate::expression::view_names(node->FunctionDefinition_1) =~= view_strs(
                            paramsv,
                        ));
                        assert(node@ =~~= AstV::FunctionDefinition(
                            node->FunctionDefinition_0@,
                            view_strs(paramsv),
                            view_asts(bodyv),
                        ));
                    }
                    Ok((node, p2))
                },
            }
        },
        Token::KwStatic => {
            let q = skip_trivia_exec(ts, p + 1, end);
            let isfn = q < end && (match &ts[q] {
                Token::KwFn => true,
                _ => false,
            });
            if !isfn {
                return Err(ParseError { at: q });
            }
            match fn_tail(ts, q + 1, end, fuel - 1) {
                Err(e) => Err(e),
                Ok((name, params, body, p2)) => {
                    let ghost paramsv = params@;
                    let ghost bodyv = body@;
                    let node = Ast::StaticFunctionDefinition(name, params, body);
                    proof {
                        assert(crate::expression::view_names(node->StaticFunctionDefinition_1)
                            =~= view_strs(paramsv));
                        assert(node@ =~~= AstV::StaticFunctionDefinition(
                            node->StaticFunctionDefinition_0@,
                            view_strs(paramsv),
                            view_asts(bodyv),
                        ));
                    }
                    Ok((node, p2))
                },
            }
        },
        Token::KwOp => {
            let q = skip_trivia_exec(ts, p + 1, end);
            if q >= end {
                return Err(ParseError { at: q });
            }
            match &ts[q] {
                Token::Identifier(w) => {
                    let op = if *w == String::from_str("add") {
                        Operator::Add
                    } else if *w == String::from_str("dot") {
                        Operator::Dot
                    } else {
                        return Err(ParseError { at: q });
                    };
                    let lp = skip_trivia_exec(ts, q + 1, end);
                    let has_lp = lp < end && (match &ts[lp] {
                        Token::LParan => true,
                        _ => false,
                    });
                    if !has_lp {
                        return Err(ParseError { at: lp });
                    }
                    let pc = match find_close_exec(ts, lp + 1, end, &Token::RParan) {
                        None => {
                            return Err(ParseError { at: lp });
                        },
                        Some(c) => c,
                    };
                    let params = match parse_params(ts, lp + 1, pc) {
                        Err(e) => {
                            return Err(e);
                        },
                        Ok(ps) => ps,
                    };
                    let br = skip_trivia_exec(ts, pc + 1, end);
                    let has_br = br < end && (match &ts[br] {
                        Token::LCurly => true,
                        _ => false,
                    });
                    if !has_br {
                        return Err(ParseError { at: br });
                    }
                    let bc = match find_close_exec(ts, br + 1, end, &Token::RCurly) {
                        None => {
                            return Err(ParseError { at: br });
                        },
                        Some(c) => c,
                    };
                    match parse_stmts_span(ts, br + 1, bc, fuel - 1) {
                        Err(e) => Err(e),
                        Ok((body, stop)) => {
                            if stop < bc {
                                return Err(ParseError { at: stop });
                            }
                            let ghost paramsv = params@;
                            let ghost bodyv = body@;
                            let node = Ast::OperatorImplementation(op, params, body);
                            proof {
                                assert(crate::expression::view_names(
                                    node->OperatorImplementation_1,
                                ) =~= view_strs(paramsv));
                                assert(node@ =~~= AstV::OperatorImplementation(
                                    op,
                                    view_strs(paramsv),
                                    view_asts(bodyv),
                                ));
                            }
                            Ok((node, bc + 1))
                        },
                    }
                },
                _ => Err(ParseError { at: q }),
            }
        },
        Token::KwClass => {
            let q = skip_trivia_exec(ts, p + 1, end);
            if q >= end {
                return Err(ParseError { at: q });
            }
            match &ts[q] {
                Token::ClassIdentifier(name) => {
                    let br = skip_trivia_exec(ts, q + 1, end);
                    let has_br = br < end && (match &ts[br] {
                        Token::LCurly => true,
                        _ => false,
                    });
                    if !has_br {
                        return Err(ParseError { at: br });
                    }
                    let bc = match find_close_exec(ts, br + 1, end, &Token::RCurly) {
                        None => {
                            return Err(ParseError { at: br });
                        },
                        Some(c) => c,
                    };
                    match parse_stmts_span(ts, br + 1, bc, fuel - 1) {
                        Err(e) => Err(e),
                        Ok((stmts, stop)) => {
                            if stop < bc {
                                return Err(ParseError { at: stop });
                            }
                            let ghost stmtsv = stmts@;
                            match members_of(stmts) {
                                Err(e) => Err(e),
                                Ok(members) => {
                                    let ghost membersv = members@;
                                    let node = Ast::ClassDefinition(name.clone(), members);
                                    proof {
                                        assert(node@ =~~= AstV::ClassDefinition(
                                            name@,
                                            view_members(membersv),
                                        ));
                                    }
                                    Ok((node, bc + 1))
                                },
                            }
                        },
                    }
                },
                _ => Err(ParseError { at: q }),
            }
        },
        Token::KwImport => {
            let r0 = import_path(ts, p + 1, end);
            Ok((Ast::ImportStatement(r0.0), r0.1))
        },
        Token::KwExport => {
            let q = skip_trivia_exec(ts, p + 1, end);
            if q >= end {
                return Err(ParseError { at: q });
            }
            match &ts[q] {
                Token::Identifier(s) => {
                    let inner_e = Expression::Identifier(s.clone());
                    proof {
                        assert(inner_e@ == ExpressionV::Identifier(s@));
                    }
                    let inner_a = Ast::Expression(inner_e);
                    proof {
                        assert(inner_a@ == AstV::Expression(ExpressionV::Identifier(s@)));
                    }
                    let node = Ast::ExportStatement(Box::new(inner_a));
                    proof {
                        assert((*node->ExportStatement_0)@ == AstV::Expression(
                            ExpressionV::Identifier(s@),
                        ));
                        assert(node@ =~~= AstV::ExportStatement(
                            Box::new(AstV::Expression(ExpressionV::Identifier(s@))),
                        ));
                    }
                    Ok((node, q + 1))
                },
                Token::ClassIdentifier(s) => {
                    let inner_e = Expression::ClassIdentifier(s.clone());
                    proof {
                        assert(inner_e@ == ExpressionV::ClassIdentifier(s@));
                    }
                    let inner_a = Ast::Expression(inner_e);
                    proof {
                        assert(inner_a@ == AstV::Expression(ExpressionV::ClassIdentifier(s@)));
                    }
                    let node = Ast::ExportStatement(Box::new(inner_a));
                    proof {
                        assert((*node->ExportStatement_0)@ == AstV::Expression(
                            ExpressionV::ClassIdentifier(s@),
                        ));
                        assert(node@ =~~= AstV::ExportStatement(
                            Box::new(AstV::Expression(ExpressionV::ClassIdentifier(s@))),
                        ));
                    }
                    Ok((node, q + 1))
                },
                _ => Err(ParseError { at: q }),
            }
        },
        Token::ClassIdentifier(_) => {
            let q = expr_stop_exec(ts, p, end);
            match parse_expr_span(ts, p, q, fuel - 1) {
                Err(e) => Err(e),
                Ok(e) => Ok((Ast::Expression(e), q)),
            }
        },
        Token::Identifier(name) => {
            if p + 1 >= end {
                return Err(ParseError { at: p });
            }
            match &ts[p + 1] {
                Token::LParan => parse_call_stmt(ts, p, end, fuel - 1),
                Token::Equal => {
                    let q2 = expr_stop_exec(ts, p + 2, end);
                    match parse_expr_span(ts, p + 2, q2, fuel - 1) {
                        Err(e) => Err(e),
                        Ok(e) => Ok((Ast::VariableAssignment(name.clone(), e), q2)),
                    }
                },
                Token::Dot => {
                    let q = expr_stop_exec(ts, p, end);
                    match parse_expr_span(ts, p, q, fuel - 1) {
                        Err(e) => Err(e),
                        Ok(e) => Ok((Ast::Expression(e), q)),
                    }
                },
                Token::DoubleColon => {
                    let q = expr_stop_exec(ts, p, end);
                    match parse_expr_span(ts, p, q, fuel - 1) {
                        Err(e) => Err(e),
                        Ok(e) => Ok((Ast::Expression(e), q)),
                    }
                },
                _ => Err(ParseError { at: p }),
            }
        },
        _ => Err(ParseError { at: p }),
    }
}

/// A statement that begins with a call; see `spec_call_stmt`.
fn parse_call_stmt(ts: &Vec<Token>, p: usize, end: usize, fuel: u64) -> (r: Result<
    (Ast, usize),
    ParseError,
>)
    requires
        p <= end,
        end <= ts.len(),
    ensures
        match r {
            Ok(t) => p <= t.1 <= end && spec_call_stmt(ts@, p as int, end as int, fuel as nat)
                == Some((t.0@, t.1 as int)),
            Err(_) => spec_call_stmt(ts@, p as int, end as int, fuel as nat) is None,
        },
    decreases fuel,
{
    if fuel == 0 {
        return Err(ParseError { at: p });
    }
    let q = expr_stop_exec(ts, p, end);
    match parse_expr_span(ts, p, q, fuel - 1) {
        Err(e) => Err(e),
        Ok(ex) => {
            let ghost exv = ex@;
            let node = match ex {
                Expression::FunctionCall(callee, args) => {
                    let ghost calleev = (*callee)@;
                    let ghost argsv = args@;
                    proof {
                        assert(exv == ExpressionV::FunctionCall(
                            Box::new(calleev),
                            crate::expression::view_exprs(argsv),
                        ));
                    }
                    match *callee {
                        Expression::Identifier(nm) => {
                            proof {
                                assert(calleev == ExpressionV::Identifier(nm@));
                            }
                            let inner = Ast::FunctionCall(nm, args);
                            proof {
                                assert(inner@ =~~= AstV::FunctionCall(
                                    inner->FunctionCall_0@,
                                    crate::expression::view_exprs(argsv),
                                ));
                            }
                            inner
                        },
                        other => {
                            let ghost otherv = other@;
                            proof {
                                assert(otherv == calleev);
                            }
                            let rebuilt = Expression::FunctionCall(Box::new(other), args);
                            proof {
                                assert((*rebuilt->FunctionCall_0)@ == otherv);
                                assert(rebuilt@ == ExpressionV::FunctionCall(
                                    Box::new(otherv),
                                    crate::expression::view_exprs(argsv),
                                ));
                                assert(rebuilt@ == exv);
                            }
                            Ast::Expression(rebuilt)
                        },
                    }
                },
                other2 => Ast::Expression(other2),
            };
            Ok((node, q))
        },
    }
}

/// The statements of `ts[pos..end)`, stopping at `end` or at the first
/// unmatched closing brace; see `spec_parse_stmts_span`.
pub(crate) fn parse_stmts_span(ts: &Vec<Token>, pos: usize, end: usize, fuel: u64) -> (r: Result<
    (Vec<Ast>, usize),
    ParseError,
>)
    requires
        pos <= end,
        end <= ts.len(),
    ensures
        match r {
            Ok(t) => pos <= t.1 <= end && spec_parse_stmts_span(
                ts@,
                pos as int,
                end as int,
                fuel as nat,
            ) == Some((view_asts(t.0@), t.1 as int)),
            Err(_) => spec_parse_stmts_span(ts@, pos as int, end as int, fuel as nat) is None,
        },
    decreases fuel,
{
    if fuel == 0 {
        return Err(ParseError { at: pos });
    }
    let p = skip_seps_exec(ts, pos, end);
    if p >= end {
        let v: Vec<Ast> = Vec::new();
        proof {
            assert(view_asts(v@) =~= Seq::<AstV>::empty());
        }
        return Ok((v, p));
    }
    let rc = match &ts[p] {
        Token::RCurly => true,
        _ => false,
    };
    if rc {
        let v: Vec<Ast> = Vec::new();
        proof {
            assert(view_asts(v@) =~= Seq::<AstV>::empty());
        }
        return Ok((v, p));
    }
    match parse_stmt(ts, p, end, fuel - 1) {
        Err(e) => Err(e),
        Ok((stmt, p2)) => {
            match parse_stmts_span(ts, p2, end, fuel - 1) {
                Err(e) => Err(e),
                Ok((mut rest, stop)) => {
                    let ghost stmtv = stmt@;
                    let ghost restv = rest@;
                    rest.insert(0, stmt);
                    proof {
                        assert(view_asts(rest@) =~= seq![stmtv] + view_asts(restv));
                    }
                    Ok((rest, stop))
                },
            }
        },
    }
}

/// A parsed program: the source path and its statements.
#[derive(Debug, PartialEq, Eq)]
pub struct Program {
    pub path: String,
    pub stmts: Vec<Ast>,
}

/// The statement parser: holds the lexed tokens of one source file and turns
/// them into statements.
pub struct Parser {
    pub path: String,
    pub tokens: Vec<Token>,
}

impl Parser {
    /// A parser with no source.
    pub fn new() -> (p: Parser)
        ensures
            p.path@ == Seq::<char>::empty(),
            p.tokens@ == Seq::<Token>::empty(),
    {
        Parser { path: String::new(), tokens: Vec::new() }
    }

    /// Lexes `source` and remembers its tokens under `path`; on a lex error
    /// the parser is left unchanged.
    pub fn set_source(&mut self, path: String, source: &str) -> (r: Result<(), LexError>)
        ensures
            match r {
                Ok(()) => crate::lexer::spec_lex_from(source@, 0) == Some(
                    crate::token::view_tokens(final(self).tokens@),
                ) && final(self).path == path,
                Err(_) => crate::lexer::spec_lex_from(source@, 0) is None && *final(self) == *old(
                    self,
                ),
            },
    {
        match lex(source) {
            Ok(ts) => {
                self.path = path;
                self.tokens = ts;
                Ok(())
            },
            Err(e) => Err(e),
        }
    }

    /// Parses the stored tokens as a whole program, exactly as
    /// `spec_parse_program` states; an `Err` comes exactly when the
    /// specification refuses them.
    pub fn parse(&self) -> (r: Result<Program, ParseError>)
        requires
            self.tokens.len() < 1000000000,
        ensures
            match r {
                Ok(prog) => spec_parse_program(self.tokens@) == Some(view_asts(prog.stmts@))
                    && prog.path == self.path,
                Err(_) => spec_parse_program(self.tokens@) is None,
            },
    {
        let n = self.tokens.len();
        let f: u64 = 8 * (n as u64) + 16;
        match parse_stmts_span(&self.tokens, 0, n, f) {
            Err(e) => Err(e),
            Ok((stmts, stop)) => {
                if stop < n {
                    return Err(ParseError { at: stop });
                }
                Ok(Program { path: self.path.clone(), stmts })
            },
        }
    }
}

} // verus!
