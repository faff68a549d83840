use vstd::prelude::*;

use crate::ast::AstV;
use crate::expression::Expression;
use crate::expression::ExpressionV;
use crate::expression::view_exprs;
use crate::expression::view_fields;
use crate::expression::view_names;
use crate::expression::view_strs;
use crate::parser::spec_parse_stmts_span;
use crate::token::Token;

verus! {

/// A token the parser did not expect, at this token position, or a span that
/// ended too soon.
#[derive(Debug, Clone, PartialEq, Eq)]
pub struct ParseError {
    pub at: usize,
}

/// Whether `t` opens a nested bracket, paren or brace.
pub open spec fn is_opener(t: Token) -> bool {
    t is LParan || t is LBracket || t is LCurly
}

/// Whether `t` closes a nested bracket, paren or brace.
pub open spec fn is_closer(t: Token) -> bool {
    t is RParan || t is RBracket || t is RCurly
}

/// Whether `t` is skipped inside expressions: newlines and comments.
pub open spec fn is_trivia(t: Token) -> bool {
    t is NewLine || t is Comment
}

/// The first position in `i..end` that holds a non-trivia token, clamped
/// into `i..=end`.
pub open spec fn skip_trivia(ts: Seq<Token>, i: int, end: int) -> int
    decreases end - i,
{
    if 0 <= i < end && i < ts.len() && is_trivia(ts[i]) {
        let r = skip_trivia(ts, i + 1, end);
        if r < i + 1 {
            i + 1
        } else if r > end {
            end
        } else {
            r
        }
    } else {
        i
    }
}

/// The binding powers of an infix operator token: the left power decides
/// whether the operator binds at this level, the right power is handed to
/// the right operand. Left-associative operators carry a right power one
/// above their left power.
pub open spec fn spec_query(t: Token) -> Option<(int, int)> {
    match t {
        Token::Symbol(s) => if s@ == "+"@ || s@ == "-"@ {
            Some((6, 7))
        } else if s@ == "*"@ || s@ == "/"@ {
            Some((8, 9))
        } else {
            None
        },
        Token::Dot => Some((20, 21)),
        Token::DoubleColon => Some((22, 23)),
        Token::Equal => Some((4, 5)),
        _ => None,
    }
}

/// The source text of an infix operator token.
pub open spec fn spec_op_text(t: Token) -> Seq<char> {
    match t {
        Token::Symbol(s) => s@,
        Token::Dot => "."@,
        Token::DoubleColon => "::"@,
        Token::Equal => "="@,
        _ => Seq::empty(),
    }
}

/// Element lists differ only in their stop tokens: array elements stop at
/// `]`, call arguments at `)`, object values also at line ends.
#[derive(Debug, Clone, Copy, PartialEq, Eq)]
pub enum ElemMode {
    Array,
    Call,
    Object,
}

/// Whether `t` ends the current element of `mode` at nesting depth zero.
pub open spec fn is_stop(mode: ElemMode, t: Token) -> bool {
    match mode {
        ElemMode::Array => t is Comma || t is RBracket,
        ElemMode::Call => t is Comma || t is RParan,
        ElemMode::Object => t is Comma || t is NewLine || t is RCurly,
    }
}

/// Whether `t` is the closing delimiter of `mode`.
pub open spec fn is_mode_closer(mode: ElemMode, t: Token) -> bool {
    match mode {
        ElemMode::Array => t is RBracket,
        ElemMode::Call => t is RParan,
        ElemMode::Object => t is RCurly,
    }
}

/// The position in `i..end` of the stop token that ends the element begun at
/// `i`, tracking bracket/paren/brace depth; `None` when delimiters do not
/// balance before `end`.
pub open spec fn find_stop(ts: Seq<Token>, i: int, end: int, mode: ElemMode, depth: int) -> Option<
    int,
>
    decreases end - i,
{
    if i < 0 || i >= end || i >= ts.len() {
        None
    } else if depth == 0 && is_stop(mode, ts[i]) {
        Some(i)
    } else if is_opener(ts[i]) {
        find_stop(ts, i + 1, end, mode, depth + 1)
    } else if is_closer(ts[i]) {
        if depth == 0 {
            None
        } else {
            find_stop(ts, i + 1, end, mode, depth - 1)
        }
    } else {
        find_stop(ts, i + 1, end, mode, depth)
    }
}

/// The position in `i..end` of the `close` token matching nesting depth zero.
pub open spec fn find_close(ts: Seq<Token>, i: int, end: int, close: Token, depth: int) -> Option<
    int,
>
    decreases end - i,
{
    if i < 0 || i >= end || i >= ts.len() {
        None
    } else if depth == 0 && ts[i]@ == close@ {
        Some(i)
    } else if is_opener(ts[i]) {
        find_close(ts, i + 1, end, close, depth + 1)
    } else if is_closer(ts[i]) {
        if depth == 0 {
            None
        } else {
            find_close(ts, i + 1, end, close, depth - 1)
        }
    } else {
        find_close(ts, i + 1, end, close, depth)
    }
}

/// The parameter names written between an arrow function's or definition's
/// parentheses: identifiers separated by commas; anything else refuses.
pub open spec fn spec_params(ts: Seq<Token>, i: int, end: int) -> Option<Seq<Seq<char>>>
    decreases end - i,
{
    let p = skip_trivia(ts, i, end);
    if p >= end || p >= ts.len() {
        Some(Seq::empty())
    } else {
        match ts[p] {
            Token::Identifier(s) => {
                let q = skip_trivia(ts, p + 1, end);
                if q >= end {
                    Some(seq![s@])
                } else if q < ts.len() && ts[q] is Comma {
                    match spec_params(ts, q + 1, end) {
                        None => None,
                        Some(rest) => Some(seq![s@] + rest),
                    }
                } else {
                    None
                }
            },
            _ => None,
        }
    }
}

/// An expression parsed from `ts[pos..end)` at minimal binding power
/// `min_bp`, with the position after it.
pub open spec fn spec_parse_bp(ts: Seq<Token>, pos: int, end: int, min_bp: int, fuel: nat) -> Option<
    (ExpressionV, int),
>
    decreases fuel,
{
    if fuel == 0 {
        None
    } else {
        let p = skip_trivia(ts, pos, end);
        match spec_primary(ts, p, end, (fuel - 1) as nat) {
            None => None,
            Some((lhs, p2)) => spec_infix_loop(ts, lhs, p2, end, min_bp, (fuel - 1) as nat),
        }
    }
}

/// Folds infix operators of binding power at least `min_bp` onto `lhs`.
/// Assignment is non-associative: a second `=` under the first refuses.
pub open spec fn spec_infix_loop(
    ts: Seq<Token>,
    lhs: ExpressionV,
    pos: int,
    end: int,
    min_bp: int,
    fuel: nat,
) -> Option<(ExpressionV, int)>
    decreases fuel,
{
    if fuel == 0 {
        None
    } else {
        let p = skip_trivia(ts, pos, end);
        if p >= end || p >= ts.len() {
            Some((lhs, p))
        } else {
            match spec_query(ts[p]) {
                None => Some((lhs, p)),
                Some((l, r)) => if l < min_bp {
                    Some((lhs, p))
                } else if ts[p] is Equal && (lhs matches ExpressionV::BinaryOp(_, op, _) && op
                    == "="@) {
                    None
                } else {
                    match spec_parse_bp(ts, p + 1, end, r, (fuel - 1) as nat) {
                        None => None,
                        Some((rhs, p2)) => spec_infix_loop(
                            ts,
                            ExpressionV::BinaryOp(Box::new(lhs), spec_op_text(ts[p]), Box::new(rhs)),
                            p2,
                            end,
                            min_bp,
                            (fuel - 1) as nat,
                        ),
                    }
                },
            }
        }
    }
}

/// A whole expression span: parses `ts[pos..end)` and insists nothing but
/// trivia remains.
pub open spec fn spec_parse_expr_span(ts: Seq<Token>, pos: int, end: int, fuel: nat) -> Option<
    ExpressionV,
>
    decreases fuel,
{
    if fuel == 0 {
        None
    } else {
        match spec_parse_bp(ts, pos, end, 0, (fuel - 1) as nat) {
            None => None,
            Some((e, p)) => if skip_trivia(ts, p, end) >= end {
                Some(e)
            } else {
                None
            },
        }
    }
}

/// A comma-separated element list, ending at the closing delimiter of
/// `mode`; the result carries the position after that delimiter.
pub open spec fn spec_parse_elems(
    ts: Seq<Token>,
    pos: int,
    end: int,
    mode: ElemMode,
    fuel: nat,
) -> Option<(Seq<ExpressionV>, int)>
    decreases fuel,
{
    if fuel == 0 {
        None
    } else {
        let p = skip_trivia(ts, pos, end);
        if p >= end || p >= ts.len() {
            None
        } else if is_mode_closer(mode, ts[p]) {
            Some((Seq::empty(), p + 1))
        } else {
            match find_stop(ts, p, end, mode, 0) {
                None => None,
                Some(q) => match spec_parse_expr_span(ts, p, q, (fuel - 1) as nat) {
                    None => None,
                    Some(e) => if is_mode_closer(mode, ts[q]) {
                        Some((seq![e], q + 1))
                    } else {
                        match spec_parse_elems(ts, q + 1, end, mode, (fuel - 1) as nat) {
                            None => None,
                            Some((rest, p2)) => Some((seq![e] + rest, p2)),
                        }
                    },
                },
            }
        }
    }
}

/// Whether `fields` binds the name `n`.
pub open spec fn fields_contain(fields: Seq<(Seq<char>, ExpressionV)>, n: Seq<char>) -> bool {
    exists|i: int| 0 <= i < fields.len() && fields[i].0 == n
}

/// The `name: value` pairs of an object literal or class instantiation,
/// separated by commas or line ends, up to the closing brace; the result
/// carries the position after the brace. The pairs are a mapping: a name
/// written twice keeps one entry, bound to the later occurrence's value.
pub open spec fn spec_parse_fields(ts: Seq<Token>, pos: int, end: int, fuel: nat) -> Option<
    (Seq<(Seq<char>, ExpressionV)>, int),
>
    decreases fuel,
{
    if fuel == 0 {
        None
    } else {
        let p = skip_trivia(ts, pos, end);
        if p >= end || p >= ts.len() {
            None
        } else if ts[p] is RCurly {
            Some((Seq::empty(), p + 1))
        } else {
            match ts[p] {
                Token::Identifier(name) => {
                    let q = skip_trivia(ts, p + 1, end);
                    if q >= end || q >= ts.len() || !(ts[q] is Colon) {
                        None
                    } else {
                        match find_stop(ts, q + 1, end, ElemMode::Object, 0) {
                            None => None,
                            Some(r) => match spec_parse_expr_span(ts, q + 1, r, (fuel - 1) as nat) {
                                None => None,
                                Some(e) => if ts[r] is RCurly {
                                    Some((seq![(name@, e)], r + 1))
                                } else {
                                    match spec_parse_fields(ts, r + 1, end, (fuel - 1) as nat) {
                                        None => None,
                                        Some((rest, p2)) => if fields_contain(rest, name@) {
                                            Some((rest, p2))
                                        } else {
                                            Some((seq![(name@, e)] + rest, p2))
                                        },
                                    }
                                },
                            },
                        }
                    }
                },
                _ => None,
            }
        }
    }
}

/// Whether the parsed field list already binds `n`.
fn has_field(v: &Vec<(String, Expression)>, n: &String) -> (b: bool)
    ensures
        b == fields_contain(view_fields(v@), n@),
{
    let mut i: usize = 0;
    while i < v.len()
        invariant
            i <= v.len(),
            forall|j: int| 0 <= j < i ==> view_fields(v@)[j].0 != n@,
        decreases v.len() - i,
    {
        proof {
            assert(view_fields(v@)[i as int].0 == v@[i as int].0@);
        }
        if v[i].0 == *n {
            return true;
        }
        i = i + 1;
    }
    false
}

/// Call suffixes folded left onto `callee`: each immediate `(` opens an
/// argument list, so `f()()` calls the result of `f()`.
pub open spec fn spec_call_chain(
    ts: Seq<Token>,
    callee: ExpressionV,
    pos: int,
    end: int,
    fuel: nat,
) -> Option<(ExpressionV, int)>
    decreases fuel,
{
    if fuel == 0 {
        None
    } else if 0 <= pos < end && pos < ts.len() && ts[pos] is LParan {
        match spec_parse_elems(ts, pos + 1, end, ElemMode::Call, (fuel - 1) as nat) {
            None => None,
            Some((args, p)) => spec_call_chain(
                ts,
                ExpressionV::FunctionCall(Box::new(callee), args),
                p,
                end,
                (fuel - 1) as nat,
            ),
        }
    } else {
        Some((callee, pos))
    }
}

/// A primary (nilfix) form starting at `pos`: a literal; `[` an array
/// literal; `#{` an object literal; a class identifier, instantiated when a
/// brace follows; an identifier with its call chain; `(` a grouped
/// expression, or an arrow function when `=>` follows the matching `)`.
pub open spec fn spec_primary(ts: Seq<Token>, pos: int, end: int, fuel: nat) -> Option<
    (ExpressionV, int),
>
    decreases fuel,
{
    if fuel == 0 || pos < 0 || pos >= end || pos >= ts.len() {
        None
    } else {
        match ts[pos] {
            Token::NumberLiteral(n) => Some((ExpressionV::NumberLiteral(n as int), pos + 1)),
            Token::StringLiteral(s) => Some((ExpressionV::StringLiteral(s@), pos + 1)),
            Token::BooleanLiteral(b) => Some((ExpressionV::BooleanLiteral(b), pos + 1)),
            Token::Null => Some((ExpressionV::Null, pos + 1)),
            Token::LBracket => {
                match spec_parse_elems(ts, pos + 1, end, ElemMode::Array, (fuel - 1) as nat) {
                    None => None,
                    Some((items, p)) => Some((ExpressionV::ArrayLiteral(items), p)),
                }
            },
            Token::Hash => {
                let q = skip_trivia(ts, pos + 1, end);
                if q < end && q < ts.len() && ts[q] is LCurly {
                    match spec_parse_fields(ts, q + 1, end, (fuel - 1) as nat) {
                        None => None,
                        Some((fields, p)) => Some((ExpressionV::ObjectLiteral(fields), p)),
                    }
                } else {
                    None
                }
            },
            Token::ClassIdentifier(name) => {
                let q = skip_trivia(ts, pos + 1, end);
                if q < end && q < ts.len() && ts[q] is LCurly {
                    match spec_parse_fields(ts, q + 1, end, (fuel - 1) as nat) {
                        None => None,
                        Some((fields, p)) => Some(
                            (ExpressionV::ClassInstantiation(name@, fields), p),
                        ),
                    }
                } else {
                    Some((ExpressionV::ClassIdentifier(name@), pos + 1))
                }
            },
            Token::Identifier(name) => spec_call_chain(
                ts,
                ExpressionV::Identifier(name@),
                pos + 1,
                end,
                (fuel - 1) as nat,
            ),
            Token::LParan => {
                match find_close(ts, pos + 1, end, Token::RParan, 0) {
                    None => None,
                    Some(close) => {
                        let after = close + 1;
                        if after < end && after < ts.len() && ts[after] is Arrow {
                            match spec_params(ts, pos + 1, close) {
                                None => None,
                                Some(params) => {
                                    let b = skip_trivia(ts, after + 1, end);
                                    if b < end && b < ts.len() && ts[b] is LCurly {
                                        match find_close(ts, b + 1, end, Token::RCurly, 0) {
                                            None => None,
                                            Some(bc) => match spec_parse_stmts_span(
                                                ts,
                                                b + 1,
                                                bc,
                                                (fuel - 1) as nat,
                                            ) {
                                                None => None,
                                                Some((body, stop)) => if stop >= bc {
                                                    Some(
                                                        (
                                                            ExpressionV::ArrowFunction(
                                                                params,
                                                                body,
                                                            ),
                                                            bc + 1,
                                                        ),
                                                    )
                                                } else {
                                                    None
                                                },
                                            },
                                        }
                                    } else {
                                        match spec_parse_expr_span(
                                            ts,
                                            after + 1,
                                            end,
                                            (fuel - 1) as nat,
                                        ) {
                                            None => None,
                                            Some(e) => Some(
                                                (
                                                    ExpressionV::ArrowFunction(
                                                        params,
                                                        seq![AstV::ReturnStatement(e)],
                                                    ),
                                                    end,
                                                ),
                                            ),
                                        }
                                    }
                                },
                            }
                        } else {
                            match spec_parse_expr_span(ts, pos + 1, close, (fuel - 1) as nat) {
                                None => None,
                                Some(e) => Some((e, close + 1)),
                            }
                        }
                    },
                }
            },
            _ => None,
        }
    }
}

/// The fuel that lets the recursive descent cross a span of `n` tokens: each
/// nesting level both consumes a delimiter and spends a constant amount, so
/// a linear budget is ample.
pub open spec fn spec_fuel(n: nat) -> nat {
    8 * n + 16
}

/// The expression written by the whole token list, as the operator
/// precedence parser reads it.
pub open spec fn spec_parse_expression(ts: Seq<Token>) -> Option<ExpressionV> {
    spec_parse_expr_span(ts, 0, ts.len() as int, spec_fuel(ts.len()))
}





fn trivia(t: &Token) -> (b: bool)
    ensures
        b == is_trivia(*t),
{
    match t {
        Token::NewLine => true,
        Token::Comment(_) => true,
        _ => false,
    }
}

fn opener(t: &Token) -> (b: bool)
    ensures
        b == is_opener(*t),
{
    match t {
        Token::LParan => true,
        Token::LBracket => true,
        Token::LCurly => true,
        _ => false,
    }
}

fn closer(t: &Token) -> (b: bool)
    ensures
        b == is_closer(*t),
{
    match t {
        Token::RParan => true,
        Token::RBracket => true,
        Token::RCurly => true,
        _ => false,
    }
}

fn stop_tok(mode: ElemMode, t: &Token) -> (b: bool)
    ensures
        b == is_stop(mode, *t),
{
    match mode {
        ElemMode::Array => match t {
            Token::Comma => true,
            Token::RBracket => true,
            _ => false,
        },
        ElemMode::Call => match t {
            Token::Comma => true,
            Token::RParan => true,
            _ => false,
        },
        ElemMode::Object => match t {
            Token::Comma => true,
            Token::NewLine => true,
            Token::RCurly => true,
            _ => false,
        },
    }
}

fn mode_closer(mode: ElemMode, t: &Token) -> (b: bool)
    ensures
        b == is_mode_closer(mode, *t),
{
    match mode {
        ElemMode::Array => match t {
            Token::RBracket => true,
            _ => false,
        },
        ElemMode::Call => match t {
            Token::RParan => true,
            _ => false,
        },
        ElemMode::Object => match t {
            Token::RCurly => true,
            _ => false,
        },
    }
}

pub(crate) fn skip_trivia_exec(ts: &Vec<Token>, i: usize, end: usize) -> (r: usize)
    requires
        i <= end,
        end <= ts.len(),
    ensures
        i <= r <= end,
        r as int == skip_trivia(ts@, i as int, end as int),
{
    let mut j: usize = i;
    while j < end && trivia(&ts[j])
        invariant
            i <= j <= end <= ts.len(),
            skip_trivia(ts@, i as int, end as int) == skip_trivia(ts@, j as int, end as int),
        decreases end - j,
    {
        j = j + 1;
    }
    proof {
        assert(skip_trivia(ts@, j as int, end as int) == j as int);
    }
    j
}

fn find_stop_exec(ts: &Vec<Token>, i: usize, end: usize, mode: ElemMode) -> (r: Option<usize>)
    requires
        i <= end,
        end <= ts.len(),
    ensures
        match r {
            Some(q) => i <= q < end && find_stop(ts@, i as int, end as int, mode, 0) == Some(
                q as int,
            ),
            None => find_stop(ts@, i as int, end as int, mode, 0) is None,
        },
{
    let mut j: usize = i;
    let mut depth: usize = 0;
    loop
        invariant
            i <= j <= end <= ts.len(),
            find_stop(ts@, i as int, end as int, mode, 0) == find_stop(
                ts@,
                j as int,
                end as int,
                mode,
                depth as int,
            ),
            depth <= j,
        decreases end - j,
    {
        if j >= end {
            return None;
        }
        if depth == 0 && stop_tok(mode, &ts[j]) {
            return Some(j);
        }
        if opener(&ts[j]) {
            depth = depth + 1;
        } else if closer(&ts[j]) {
            if depth == 0 {
                return None;
            }
            depth = depth - 1;
        }
        j = j + 1;
    }
}

pub(crate) fn find_close_exec(ts: &Vec<Token>, i: usize, end: usize, close: &Token) -> (r: Option<usize>)
    requires
        i <= end,
        end <= ts.len(),
        (*close is RParan) || (*close is RCurly),
    ensures
        match r {
            Some(q) => i <= q < end && find_close(ts@, i as int, end as int, *close, 0) == Some(
                q as int,
            ),
            None => find_close(ts@, i as int, end as int, *close, 0) is None,
        },
{
    let mut j: usize = i;
    let mut depth: usize = 0;
    loop
        invariant
            i <= j <= end <= ts.len(),
            (*close is RParan) || (*close is RCurly),
            find_close(ts@, i as int, end as int, *close, 0) == find_close(
                ts@,
                j as int,
                end as int,
                *close,
                depth as int,
            ),
            depth <= j,
        decreases end - j,
    {
        if j >= end {
            return None;
        }
        let here = match (&ts[j], close) {
            (Token::RParan, Token::RParan) => true,
            (Token::RCurly, Token::RCurly) => true,
            _ => false,
        };
        proof {
            assert(here == (ts@[j as int]@ == close@));
        }
        if depth == 0 && here {
            return Some(j);
        }
        if opener(&ts[j]) {
            depth = depth + 1;
        } else if closer(&ts[j]) {
            if depth == 0 {
                return None;
            }
            depth = depth - 1;
        }
        j = j + 1;
    }
}

/// The parameter names between an arrow function's or definition's parens.
pub(crate) fn parse_params(ts: &Vec<Token>, i: usize, end: usize) -> (r: Result<Vec<String>, ParseError>)
    requires
        i <= end,
        end <= ts.len(),
    ensures
        match r {
            Ok(ps) => spec_params(ts@, i as int, end as int) == Some(view_strs(ps@)),
            Err(_) => spec_params(ts@, i as int, end as int) is None,
        },
    decreases end - i,
{
    let p = skip_trivia_exec(ts, i, end);
    if p >= end {
        let v: Vec<String> = Vec::new();
        proof {
            assert(view_strs(v@) =~= Seq::<Seq<char>>::empty());
        }
        return Ok(v);
    }
    match &ts[p] {
        Token::Identifier(s) => {
            let q = skip_trivia_exec(ts, p + 1, end);
            if q >= end {
                let mut v: Vec<String> = Vec::new();
                v.push(s.clone());
                proof {
                    assert(view_strs(v@) =~= seq![s@]);
                }
                Ok(v)
            } else {
                let comma = match &ts[q] {
                    Token::Comma => true,
                    _ => false,
                };
                if comma {
                    match parse_params(ts, q + 1, end) {
                        Err(e) => Err(e),
                        Ok(mut rest) => {
                            let ghost restv = rest@;
                            rest.insert(0, s.clone());
                            proof {
                                assert(view_strs(rest@) =~= seq![s@] + view_strs(restv));
                            }
                            Ok(rest)
                        },
                    }
                } else {
                    Err(ParseError { at: q })
                }
            }
        },
        _ => Err(ParseError { at: p }),
    }
}

/// The binding powers of an infix operator token.
pub(crate) fn query(t: &Token) -> (r: Option<(u64, u64)>)
    ensures
        match r {
            Some(p) => spec_query(*t) == Some((p.0 as int, p.1 as int)),
            None => spec_query(*t) is None,
        },
{
    match t {
        Token::Symbol(s) => {
            if *s == String::from_str("+") || *s == String::from_str("-") {
                Some((6, 7))
            } else if *s == String::from_str("*") || *s == String::from_str("/") {
                Some((8, 9))
            } else {
                None
            }
        },
        Token::Dot => Some((20, 21)),
        Token::DoubleColon => Some((22, 23)),
        Token::Equal => Some((4, 5)),
        _ => None,
    }
}

/// The source text of an infix operator token.
fn op_text(t: &Token) -> (r: String)
    ensures
        r@ == spec_op_text(*t),
{
    match t {
        Token::Symbol(s) => s.clone(),
        Token::Dot => String::from_str("."),
        Token::DoubleColon => String::from_str("::"),
        Token::Equal => String::from_str("="),
        _ => String::new(),
    }
}

/// Builds the node for an infix application.
pub(crate) fn infix(lhs: Expression, t: &Token, rhs: Expression) -> (r: Expression)
    ensures
        r@ == ExpressionV::BinaryOp(Box::new(lhs@), spec_op_text(*t), Box::new(rhs@)),
{
    let r = Expression::BinaryOp(Box::new(lhs), op_text(t), Box::new(rhs));
    proof {
        assert(r@ =~~= ExpressionV::BinaryOp(Box::new(r->BinaryOp_0@), spec_op_text(*t), Box::new(r->BinaryOp_2@)));
    }
    r
}

pub(crate) fn parse_bp(ts: &Vec<Token>, pos: usize, end: usize, min_bp: u64, fuel: u64) -> (r:
    Result<(Expression, usize), ParseError>)
    requires
        pos <= end,
        end <= ts.len(),
    ensures
        match r {
            Ok(p) => pos <= p.1 <= end && spec_parse_bp(
                ts@,
                pos as int,
                end as int,
                min_bp as int,
                fuel as nat,
            ) == Some((p.0@, p.1 as int)),
            Err(_) => spec_parse_bp(ts@, pos as int, end as int, min_bp as int, fuel as nat)
                is None,
        },
    decreases fuel,
{
    if fuel == 0 {
        return Err(ParseError { at: pos });
    }
    let p = skip_trivia_exec(ts, pos, end);
    match primary(ts, p, end, fuel - 1) {
        Err(e) => Err(e),
        Ok((lhs, p2)) => infix_loop(ts, lhs, p2, end, min_bp, fuel - 1),
    }
}

fn infix_loop(
    ts: &Vec<Token>,
    lhs: Expression,
    pos: usize,
    end: usize,
    min_bp: u64,
    fuel: u64,
) -> (r: Result<(Expression, usize), ParseError>)
    requires
        pos <= end,
        end <= ts.len(),
    ensures
        match r {
            Ok(p) => pos <= p.1 <= end && spec_infix_loop(
                ts@,
                lhs@,
                pos as int,
                end as int,
                min_bp as int,
                fuel as nat,
            ) == Some((p.0@, p.1 as int)),
            Err(_) => spec_infix_loop(ts@, lhs@, pos as int, end as int, min_bp as int, fuel as nat)
                is None,
        },
    decreases fuel,
{
    if fuel == 0 {
        return Err(ParseError { at: pos });
    }
    let p = skip_trivia_exec(ts, pos, end);
    if p >= end {
        return Ok((lhs, p));
    }
    match query(&ts[p]) {
        None => Ok((lhs, p)),
        Some((l, r)) => {
            if l < min_bp {
                return Ok((lhs, p));
            }
            let is_eq_tok = match &ts[p] {
                Token::Equal => true,
                _ => false,
            };
            if is_eq_tok {
                let chained = match &lhs {
                    Expression::BinaryOp(_, op, _) => *op == String::from_str("="),
                    _ => false,
                };
                if chained {
                    return Err(ParseError { at: p });
                }
            }
            match parse_bp(ts, p + 1, end, r, fuel - 1) {
                Err(e) => Err(e),
                Ok((rhs, p2)) => {
                    let node = infix(lhs, &ts[p], rhs);
                    infix_loop(ts, node, p2, end, min_bp, fuel - 1)
                },
            }
        },
    }
}

pub(crate) fn parse_expr_span(ts: &Vec<Token>, pos: usize, end: usize, fuel: u64) -> (r: Result<
    Expression,
    ParseError,
>)
    requires
        pos <= end,
        end <= ts.len(),
    ensures
        match r {
            Ok(e) => spec_parse_expr_span(ts@, pos as int, end as int, fuel as nat) == Some(e@),
            Err(_) => spec_parse_expr_span(ts@, pos as int, end as int, fuel as nat) is None,
        },
    decreases fuel,
{
    if fuel == 0 {
        return Err(ParseError { at: pos });
    }
    match parse_bp(ts, pos, end, 0, fuel - 1) {
        Err(e) => Err(e),
        Ok((e, p)) => {
            let q = skip_trivia_exec(ts, p, end);
            if q >= end {
                Ok(e)
            } else {
                Err(ParseError { at: q })
            }
        },
    }
}

pub(crate) fn parse_elems(ts: &Vec<Token>, pos: usize, end: usize, mode: ElemMode, fuel: u64) -> (r:
    Result<(Vec<Expression>, usize), ParseError>)
    requires
        pos <= end,
        end <= ts.len(),
    ensures
        match r {
            Ok(p) => pos <= p.1 <= end && spec_parse_elems(
                ts@,
                pos as int,
                end as int,
                mode,
                fuel as nat,
            ) == Some((view_exprs(p.0@), p.1 as int)),
            Err(_) => spec_parse_elems(ts@, pos as int, end as int, mode, fuel as nat) is None,
        },
    decreases fuel,
{
    if fuel == 0 {
        return Err(ParseError { at: pos });
    }
    let p = skip_trivia_exec(ts, pos, end);
    if p >= end {
        return Err(ParseError { at: p });
    }
    if mode_closer(mode, &ts[p]) {
        let v: Vec<Expression> = Vec::new();
        proof {
            assert(view_exprs(v@) =~= Seq::<ExpressionV>::empty());
        }
        return Ok((v, p + 1));
    }
    let q = match find_stop_exec(ts, p, end, mode) {
        None => {
            return Err(ParseError { at: p });
        },
        Some(q) => q,
    };
    let e = match parse_expr_span(ts, p, q, fuel - 1) {
        Err(er) => {
            return Err(er);
        },
        Ok(e) => e,
    };
    if mode_closer(mode, &ts[q]) {
        let ghost ev = e@;
        let mut v: Vec<Expression> = Vec::new();
        v.push(e);
        proof {
            assert(view_exprs(v@) =~= seq![ev]);
        }
        Ok((v, q + 1))
    } else {
        match parse_elems(ts, q + 1, end, mode, fuel - 1) {
            Err(er) => Err(er),
            Ok((mut rest, p2)) => {
                let ghost ev = e@;
                let ghost restv = rest@;
                rest.insert(0, e);
                proof {
                    assert(view_exprs(rest@) =~= seq![ev] + view_exprs(restv));
                }
                Ok((rest, p2))
            },
        }
    }
}

/// The `name: value` pairs of an object literal, class instantiation body,
/// up to and past the closing brace.
pub(crate) fn parse_object_literal(ts: &Vec<Token>, pos: usize, end: usize, fuel: u64) -> (r:
    Result<(Vec<(String, Expression)>, usize), ParseError>)
    requires
        pos <= end,
        end <= ts.len(),
    ensures
        match r {
            Ok(p) => pos <= p.1 <= end && spec_parse_fields(
                ts@,
                pos as int,
                end as int,
                fuel as nat,
            ) == Some((view_fields(p.0@), p.1 as int)),
            Err(_) => spec_parse_fields(ts@, pos as int, end as int, fuel as nat) is None,
        },
    decreases fuel,
{
    if fuel == 0 {
        return Err(ParseError { at: pos });
    }
    let p = skip_trivia_exec(ts, pos, end);
    if p >= end {
        return Err(ParseError { at: p });
    }
    let rcurly = match &ts[p] {
        Token::RCurly => true,
        _ => false,
    };
    if rcurly {
        let v: Vec<(String, Expression)> = Vec::new();
        proof {
            assert(view_fields(v@) =~= Seq::<(Seq<char>, ExpressionV)>::empty());
        }
        return Ok((v, p + 1));
    }
    match &ts[p] {
        Token::Identifier(name) => {
            let q = skip_trivia_exec(ts, p + 1, end);
            let colon = q < end && (match &ts[q] {
                Token::Colon => true,
                _ => false,
            });
            if !colon {
                return Err(ParseError { at: q });
            }
            let stop = match find_stop_exec(ts, q + 1, end, ElemMode::Object) {
                None => {
                    return Err(ParseError { at: q });
                },
                Some(s0) => s0,
            };
            let e = match parse_expr_span(ts, q + 1, stop, fuel - 1) {
                Err(er) => {
                    return Err(er);
                },
                Ok(e) => e,
            };
            let done = match &ts[stop] {
                Token::RCurly => true,
                _ => false,
            };
            if done {
                let ghost ev = e@;
                let mut v: Vec<(String, Expression)> = Vec::new();
                v.push((name.clone(), e));
                proof {
                    assert(view_fields(v@) =~= seq![(name@, ev)]);
                }
                Ok((v, stop + 1))
            } else {
                match parse_object_literal(ts, stop + 1, end, fuel - 1) {
                    Err(er) => Err(er),
                    Ok((mut rest, p2)) => {
                        if has_field(&rest, name) {
                            return Ok((rest, p2));
                        }
                        let ghost ev = e@;
                        let ghost restv = rest@;
                        rest.insert(0, (name.clone(), e));
                        proof {
                            assert(view_fields(rest@) =~= seq![(name@, ev)] + view_fields(restv));
                        }
                        Ok((rest, p2))
                    },
                }
            }
        },
        _ => Err(ParseError { at: p }),
    }
}



fn call_chain(ts: &Vec<Token>, callee: Expression, pos: usize, end: usize, fuel: u64) -> (r: Result<
    (Expression, usize),
    ParseError,
>)
    requires
        pos <= end,
        end <= ts.len(),
    ensures
        match r {
            Ok(p) => pos <= p.1 <= end && spec_call_chain(
                ts@,
                callee@,
                pos as int,
                end as int,
                fuel as nat,
            ) == Some((p.0@, p.1 as int)),
            Err(_) => spec_call_chain(ts@, callee@, pos as int, end as int, fuel as nat) is None,
        },
    decreases fuel,
{
    if fuel == 0 {
        return Err(ParseError { at: pos });
    }
    let lp = pos < end && (match &ts[pos] {
        Token::LParan => true,
        _ => false,
    });
    if !lp {
        return Ok((callee, pos));
    }
    match parse_elems(ts, pos + 1, end, ElemMode::Call, fuel - 1) {
        Err(e) => Err(e),
        Ok((args, p)) => {
            let ghost calleev = callee@;
            let ghost argsv = args@;
            let node = Expression::FunctionCall(Box::new(callee), args);
            proof {
                assert((*node->FunctionCall_0)@ == calleev);
                assert(node@ == ExpressionV::FunctionCall(Box::new(calleev), view_exprs(argsv)));
            }
            call_chain(ts, node, p, end, fuel - 1)
        },
    }
}

/// A primary (nilfix) form starting at `pos`; see `spec_primary`.
#[verifier::rlimit(100)]
pub(crate) fn primary(ts: &Vec<Token>, pos: usize, end: usize, fuel: u64) -> (r: Result<
    (Expression, usize),
    ParseError,
>)
    requires
        pos <= end,
        end <= ts.len(),
    ensures
        match r {
            Ok(p) => pos <= p.1 <= end && spec_primary(ts@, pos as int, end as int, fuel as nat)
                == Some((p.0@, p.1 as int)),
            Err(_) => spec_primary(ts@, pos as int, end as int, fuel as nat) is None,
        },
    decreases fuel,
{
    if fuel == 0 || pos >= end {
        return Err(ParseError { at: pos });
    }
    match &ts[pos] {
        Token::NumberLiteral(n) => Ok((Expression::NumberLiteral(*n), pos + 1)),
        Token::StringLiteral(s) => Ok((Expression::StringLiteral(s.clone()), pos + 1)),
        Token::BooleanLiteral(b) => Ok((Expression::BooleanLiteral(*b), pos + 1)),
        Token::Null => Ok((Expression::Null, pos + 1)),
        Token::LBracket => {
            match parse_elems(ts, pos + 1, end, ElemMode::Array, fuel - 1) {
                Err(e) => Err(e),
                Ok((items, p)) => {
                    let ghost itemsv = items@;
                    let node = Expression::ArrayLiteral(items);
                    proof {
                        assert(node@ == ExpressionV::ArrayLiteral(view_exprs(itemsv)));
                    }
                    Ok((node, p))
                },
            }
        },
        Token::Hash => {
            let q = skip_trivia_exec(ts, pos + 1, end);
            let lc = q < end && (match &ts[q] {
                Token::LCurly => true,
                _ => false,
            });
            if !lc {
                return Err(ParseError { at: q });
            }
            match parse_object_literal(ts, q + 1, end, fuel - 1) {
                Err(e) => Err(e),
                Ok((fields, p)) => {
                    let ghost fieldsv = fields@;
                    let node = Expression::ObjectLiteral(fields);
                    proof {
                        assert(node@ == ExpressionV::ObjectLiteral(view_fields(fieldsv)));
                    }
                    Ok((node, p))
                },
            }
        },
        Token::ClassIdentifier(name) => {
            let q = skip_trivia_exec(ts, pos + 1, end);
            let lc = q < end && (match &ts[q] {
                Token::LCurly => true,
                _ => false,
            });
            if lc {
                match parse_object_literal(ts, q + 1, end, fuel - 1) {
                    Err(e) => Err(e),
                    Ok((fields, p)) => {
                        let ghost fieldsv = fields@;
                        let node = Expression::ClassInstantiation(name.clone(), fields);
                        proof {
                            assert(node@ == ExpressionV::ClassInstantiation(
                                name@,
                                view_fields(fieldsv),
                            ));
                        }
                        Ok((node, p))
                    },
                }
            } else {
                Ok((Expression::ClassIdentifier(name.clone()), pos + 1))
            }
        },
        Token::Identifier(name) => call_chain(
            ts,
            Expression::Identifier(name.clone()),
            pos + 1,
            end,
            fuel - 1,
        ),
        Token::LParan => {
            let close = match find_close_exec(ts, pos + 1, end, &Token::RParan) {
                None => {
                    return Err(ParseError { at: pos });
                },
                Some(c) => c,
            };
            let after = close + 1;
            let arrow = after < end && (match &ts[after] {
                Token::Arrow => true,
                _ => false,
            });
            if arrow {
                let params = match parse_params(ts, pos + 1, close) {
                    Err(e) => {
                        return Err(e);
                    },
                    Ok(ps) => ps,
                };
                let b = skip_trivia_exec(ts, after + 1, end);
                let block = b < end && (match &ts[b] {
                    Token::LCurly => true,
                    _ => false,
                });
                if block {
                    let bc = match find_close_exec(ts, b + 1, end, &Token::RCurly) {
                        None => {
                            return Err(ParseError { at: b });
                        },
                        Some(c) => c,
                    };
                    match crate::parser::parse_stmts_span(ts, b + 1, bc, fuel - 1) {
                        Err(e) => Err(e),
                        Ok((body, stop)) => {
                            if stop < bc {
                                return Err(ParseError { at: stop });
                            }
                            let ghost paramsv = params@;
                            let ghost bodyv = body@;
                            let node = Expression::ArrowFunction(params, body);
                            proof {
                                assert(node@ == ExpressionV::ArrowFunction(
                                    view_strs(paramsv),
                                    crate::ast::view_asts(bodyv),
                                ));
                            }
                            Ok((node, bc + 1))
                        },
                    }
                } else {
                    match parse_expr_span(ts, after + 1, end, fuel - 1) {
                        Err(e) => Err(e),
                        Ok(e) => {
                            let ghost paramsv = params@;
                            let ghost ev = e@;
                            let mut body: Vec<crate::ast::Ast> = Vec::new();
                            body.push(crate::ast::Ast::ReturnStatement(e));
                            let node = Expression::ArrowFunction(params, body);
                            proof {
                                assert(crate::ast::view_asts(node->ArrowFunction_1@) =~= seq![
                                    AstV::ReturnStatement(ev),
                                ]);
                                assert(node@ == ExpressionV::ArrowFunction(
                                    view_strs(paramsv),
                                    crate::ast::view_asts(node->ArrowFunction_1@),
                                ));
                            }
                            Ok((node, end))
                        },
                    }
                }
            } else {
                match parse_expr_span(ts, pos + 1, close, fuel - 1) {
                    Err(e) => Err(e),
                    Ok(e) => Ok((e, close + 1)),
                }
            }
        },
        _ => Err(ParseError { at: pos }),
    }
}

/// The operator-precedence expression parser.
pub struct ExprParser;

impl ExprParser {
    /// Parses the whole token list as one expression, exactly as
    /// `spec_parse_expression` states; an `Err` comes exactly when the
    /// specification refuses the list.
    pub fn parse(&self, tokens: &Vec<Token>) -> (r: Result<Expression, ParseError>)
        requires
            tokens.len() < 1000000000,
        ensures
            match r {
                Ok(e) => spec_parse_expression(tokens@) == Some(e@),
                Err(_) => spec_parse_expression(tokens@) is None,
            },
    {
        let n = tokens.len();
        let f: u64 = 8 * (n as u64) + 16;
        parse_expr_span(tokens, 0, n, f)
    }
}

} // verus!
