use vstd::prelude::*;

use crate::expression::Expression;
use crate::expression::ExpressionV;
use crate::strutil::chars_to_string;
use crate::strutil::str_chars;

verus! {

broadcast use vstd::std_specs::vec::axiom_vec_index_decreases, vstd::std_specs::vec::axiom_vec_decreases_to_view, vstd::seq::axiom_seq_index_decreases;

pub open spec fn digit_char(d: int) -> char {
    if d == 0 {
        '0'
    } else if d == 1 {
        '1'
    } else if d == 2 {
        '2'
    } else if d == 3 {
        '3'
    } else if d == 4 {
        '4'
    } else if d == 5 {
        '5'
    } else if d == 6 {
        '6'
    } else if d == 7 {
        '7'
    } else if d == 8 {
        '8'
    } else {
        '9'
    }
}

/// The decimal digits of a nonnegative number, most significant first.
pub open spec fn spec_digits(n: int) -> Seq<char>
    decreases n,
{
    if n < 10 {
        seq![digit_char(n)]
    } else {
        spec_digits(n / 10).push(digit_char(n % 10))
    }
}

/// A number as source text: digits, with a leading minus when negative.
pub open spec fn spec_number_text(n: int) -> Seq<char> {
    if n >= 0 {
        spec_digits(n)
    } else {
        seq!['-'] + spec_digits(-n)
    }
}

/// An expression as source text, parseable back into the same tree: binary
/// nodes are parenthesized; literals, identifiers, arrays, objects,
/// instantiations and calls render in surface syntax. An arrow function
/// renders its parameter list and an empty body — statement bodies are not
/// serialized.
pub open spec fn spec_expr_text(ev: ExpressionV) -> Seq<char>
    decreases ev,
{
    match ev {
        ExpressionV::NumberLiteral(n) => spec_number_text(n),
        ExpressionV::StringLiteral(s) => seq!['"'] + s + seq!['"'],
        ExpressionV::BooleanLiteral(b) => if b {
            "true"@
        } else {
            "false"@
        },
        ExpressionV::Null => "null"@,
        ExpressionV::Identifier(s) => s,
        ExpressionV::ClassIdentifier(s) => s,
        ExpressionV::ArrayLiteral(items) => seq!['['] + spec_exprs_text(items, 0) + seq![']'],
        ExpressionV::ObjectLiteral(fields) => if fields.len() == 0 {
            "#{}"@
        } else {
            "#{ "@ + spec_fields_text(fields, 0) + " }"@
        },
        ExpressionV::ClassInstantiation(name, fields) => if fields.len() == 0 {
            name + "{}"@
        } else {
            name + "{ "@ + spec_fields_text(fields, 0) + " }"@
        },
        ExpressionV::FunctionCall(callee, args) => spec_expr_text(*callee) + seq!['(']
            + spec_exprs_text(args, 0) + seq![')'],
        ExpressionV::BinaryOp(lhs, op, rhs) => seq!['('] + spec_expr_text(*lhs) + seq![' '] + op
            + seq![' '] + spec_expr_text(*rhs) + seq![')'],
        ExpressionV::ArrowFunction(params, _) => seq!['('] + spec_names_text(params, 0)
            + ") => {}"@,
    }
}

/// The elements from position `i` on, separated by `, `.
pub open spec fn spec_exprs_text(items: Seq<ExpressionV>, i: int) -> Seq<char>
    decreases items, items.len() - i,
{
    if 0 <= i < items.len() {
        (if i > 0 {
            ", "@
        } else {
            Seq::empty()
        }) + spec_expr_text(items[i]) + spec_exprs_text(items, i + 1)
    } else {
        Seq::empty()
    }
}

/// The `name: value` pairs from position `i` on, separated by `, `.
pub open spec fn spec_fields_text(fields: Seq<(Seq<char>, ExpressionV)>, i: int) -> Seq<char>
    decreases fields, fields.len() - i,
{
    if 0 <= i < fields.len() {
        (if i > 0 {
            ", "@
        } else {
            Seq::empty()
        }) + fields[i].0 + ": "@ + spec_expr_text(fields[i].1) + spec_fields_text(fields, i + 1)
    } else {
        Seq::empty()
    }
}

/// The names from position `i` on, separated by `, `.
pub open spec fn spec_names_text(names: Seq<Seq<char>>, i: int) -> Seq<char>
    decreases names.len() - i,
{
    if 0 <= i < names.len() {
        (if i > 0 {
            ", "@
        } else {
            Seq::empty()
        }) + names[i] + spec_names_text(names, i + 1)
    } else {
        Seq::empty()
    }
}

/// Appends the digits of `n`.
fn push_digits(n: u64, out: &mut Vec<char>)
    ensures
        final(out)@ == old(out)@ + spec_digits(n as int),
    decreases n,
{
    if n < 10 {
        let c: char = match n {
            0 => '0',
            1 => '1',
            2 => '2',
            3 => '3',
            4 => '4',
            5 => '5',
            6 => '6',
            7 => '7',
            8 => '8',
            _ => '9',
        };
        out.push(c);
        proof {
            assert(final(out)@ =~= old(out)@ + spec_digits(n as int));
        }
    } else {
        push_digits(n / 10, out);
        let d = n % 10;
        let c: char = match d {
            0 => '0',
            1 => '1',
            2 => '2',
            3 => '3',
            4 => '4',
            5 => '5',
            6 => '6',
            7 => '7',
            8 => '8',
            _ => '9',
        };
        out.push(c);
        proof {
            assert(final(out)@ =~= old(out)@ + spec_digits(n as int));
        }
    }
}

/// Appends a number, minus sign included when negative.
pub(crate) fn push_number(n: i64, out: &mut Vec<char>)
    ensures
        final(out)@ == old(out)@ + spec_number_text(n as int),
{
    if n >= 0 {
        push_digits(n as u64, out);
    } else {
        out.push('-');
        let m: u64 = ((-(n + 1)) as u64) + 1;
        proof {
            assert(m as int == -(n as int));
        }
        push_digits(m, out);
        proof {
            assert(final(out)@ =~= old(out)@ + (seq!['-'] + spec_digits(-(n as int))));
        }
    }
}

/// Appends the characters of `s`.
fn push_chars(s: &str, out: &mut Vec<char>)
    ensures
        final(out)@ == old(out)@ + s@,
{
    let mut cs = str_chars(s);
    out.append(&mut cs);
}

/// Appends the source text of `e`; see `spec_expr_text`.
#[verifier::rlimit(100)]
#[verifier::spinoff_prover]
fn expr_text_into(e: &Expression, out: &mut Vec<char>)
    ensures
        final(out)@ == old(out)@ + spec_expr_text(e@),
    decreases *e,
{
    let ghost base = out@;
    match e {
        Expression::NumberLiteral(n) => {
            push_number(*n, out);
            proof {
                assert(out@ =~= base + spec_number_text(*n as int));
            }
        },
        Expression::StringLiteral(s) => {
            out.push('"');
            push_chars(s.as_str(), out);
            out.push('"');
            proof {
                assert(out@ =~= base + (seq!['"'] + s@ + seq!['"']));
            }
        },
        Expression::BooleanLiteral(b) => {
            if *b {
                push_chars("true", out);
            } else {
                push_chars("false", out);
            }
            proof {
                assert(out@ =~= base + spec_expr_text(e@));
            }
        },
        Expression::Null => {
            push_chars("null", out);
        },
        Expression::Identifier(s) => {
            push_chars(s.as_str(), out);
        },
        Expression::ClassIdentifier(s) => {
            push_chars(s.as_str(), out);
        },
        Expression::ArrayLiteral(items) => {
            out.push('[');
            exprs_text_into(items, out);
            out.push(']');
            proof {
                assert(out@ =~= base + (seq!['['] + spec_exprs_text(
                    crate::expression::view_exprs(items@),
                    0,
                ) + seq![']']));
            }
        },
        Expression::ObjectLiteral(fields) => {
            if fields.len() == 0 {
                push_chars("#{}", out);
            } else {
                push_chars("#{ ", out);
                fields_text_into(fields, out);
                push_chars(" }", out);
                proof {
                    assert(out@ =~= base + ("#{ "@ + spec_fields_text(
                        crate::expression::view_fields(fields@),
                        0,
                    ) + " }"@));
                }
            }
        },
        Expression::ClassInstantiation(name, fields) => {
            push_chars(name.as_str(), out);
            if fields.len() == 0 {
                push_chars("{}", out);
                proof {
                    assert(out@ =~= base + (name@ + "{}"@));
                }
            } else {
                push_chars("{ ", out);
                fields_text_into(fields, out);
                push_chars(" }", out);
                proof {
                    assert(out@ =~= base + (name@ + "{ "@ + spec_fields_text(
                        crate::expression::view_fields(fields@),
                        0,
                    ) + " }"@));
                }
            }
        },
        Expression::FunctionCall(callee, args) => {
            expr_text_into(callee, out);
            out.push('(');
            exprs_text_into(args, out);
            out.push(')');
            proof {
                assert(out@ =~= base + (spec_expr_text((**callee)@) + seq!['('] + spec_exprs_text(
                    crate::expression::view_exprs(args@),
                    0,
                ) + seq![')']));
            }
        },
        Expression::BinaryOp(lhs, op, rhs) => {
            out.push('(');
            expr_text_into(lhs, out);
            out.push(' ');
            push_chars(op.as_str(), out);
            out.push(' ');
            expr_text_into(rhs, out);
            out.push(')');
            proof {
                assert(out@ =~= base + (seq!['('] + spec_expr_text((**lhs)@) + seq![' '] + op@
                    + seq![' '] + spec_expr_text((**rhs)@) + seq![')']));
            }
        },
        Expression::ArrowFunction(params, _) => {
            out.push('(');
            names_text_into(params, out);
            push_chars(") => {}", out);
            proof {
                assert(out@ =~= base + (seq!['('] + spec_names_text(
                    crate::expression::view_names(*params),
                    0,
                ) + ") => {}"@));
            }
        },
    }
}

/// Appends an element list, `, `-separated.
fn exprs_text_into(items: &Vec<Expression>, out: &mut Vec<char>)
    ensures
        final(out)@ == old(out)@ + spec_exprs_text(crate::expression::view_exprs(items@), 0),
    decreases *items,
{
    let ghost itemsv = crate::expression::view_exprs(items@);
    let mut j: usize = 0;
    while j < items.len()
        invariant
            j <= items.len(),
            itemsv == crate::expression::view_exprs(items@),
            out@ + spec_exprs_text(itemsv, j as int) == old(out)@ + spec_exprs_text(itemsv, 0),
        decreases items.len() - j,
    {
        let ghost pre = out@;
        if j > 0 {
            push_chars(", ", out);
        }
        expr_text_into(&items[j], out);
        proof {
            assert(itemsv[j as int] == items@[j as int]@);
            assert(out@ =~= pre + ((if j > 0 {
                ", "@
            } else {
                Seq::<char>::empty()
            }) + spec_expr_text(itemsv[j as int])));
            assert(out@ + spec_exprs_text(itemsv, j + 1) =~= pre + spec_exprs_text(
                itemsv,
                j as int,
            ));
        }
        j = j + 1;
    }
    proof {
        assert(out@ =~= old(out)@ + spec_exprs_text(itemsv, 0));
    }
}

/// Appends a field list, `, `-separated.
fn fields_text_into(fields: &Vec<(String, Expression)>, out: &mut Vec<char>)
    ensures
        final(out)@ == old(out)@ + spec_fields_text(crate::expression::view_fields(fields@), 0),
    decreases *fields,
{
    let ghost fieldsv = crate::expression::view_fields(fields@);
    let mut j: usize = 0;
    while j < fields.len()
        invariant
            j <= fields.len(),
            fieldsv == crate::expression::view_fields(fields@),
            out@ + spec_fields_text(fieldsv, j as int) == old(out)@ + spec_fields_text(fieldsv, 0),
        decreases fields.len() - j,
    {
        let ghost pre = out@;
        if j > 0 {
            push_chars(", ", out);
        }
        push_chars(fields[j].0.as_str(), out);
        push_chars(": ", out);
        expr_text_into(&fields[j].1, out);
        proof {
            assert(fieldsv[j as int] == (fields@[j as int].0@, fields@[j as int].1@));
            assert(out@ =~= pre + ((if j > 0 {
                ", "@
            } else {
                Seq::<char>::empty()
            }) + fieldsv[j as int].0 + ": "@ + spec_expr_text(fieldsv[j as int].1)));
            assert(out@ + spec_fields_text(fieldsv, j + 1) =~= pre + spec_fields_text(
                fieldsv,
                j as int,
            ));
        }
        j = j + 1;
    }
    proof {
        assert(out@ =~= old(out)@ + spec_fields_text(fieldsv, 0));
    }
}

/// Appends a name list, `, `-separated.
fn names_text_into(names: &Vec<String>, out: &mut Vec<char>)
    ensures
        final(out)@ == old(out)@ + spec_names_text(crate::expression::view_names(*names), 0),
{
    let ghost namesv = crate::expression::view_names(*names);
    let mut j: usize = 0;
    while j < names.len()
        invariant
            j <= names.len(),
            namesv == crate::expression::view_names(*names),
            out@ + spec_names_text(namesv, j as int) == old(out)@ + spec_names_text(namesv, 0),
        decreases names.len() - j,
    {
        let ghost pre = out@;
        if j > 0 {
            push_chars(", ", out);
        }
        push_chars(names[j].as_str(), out);
        proof {
            assert(namesv[j as int] == names@[j as int]@);
            assert(out@ =~= pre + ((if j > 0 {
                ", "@
            } else {
                Seq::<char>::empty()
            }) + namesv[j as int]));
            assert(out@ + spec_names_text(namesv, j + 1) =~= pre + spec_names_text(
                namesv,
                j as int,
            ));
        }
        j = j + 1;
    }
    proof {
        assert(out@ =~= old(out)@ + spec_names_text(namesv, 0));
    }
}

/// The text a scalar value takes when `+` glues it onto a string: numbers
/// as decimal digits, booleans and null as their keywords, a string as
/// itself; containers and callables have none.
pub open spec fn spec_scalar_text(d: crate::dynamic::DynamicV) -> Option<Seq<char>> {
    match d {
        crate::dynamic::DynamicV::Number(n) => Some(spec_number_text(n)),
        crate::dynamic::DynamicV::Str(s) => Some(s),
        crate::dynamic::DynamicV::Boolean(b) => Some(
            if b {
                "true"@
            } else {
                "false"@
            },
        ),
        crate::dynamic::DynamicV::Null => Some("null"@),
        _ => None,
    }
}

/// The characters of a scalar's text; see `spec_scalar_text`.
pub(crate) fn scalar_text(d: &crate::dynamic::Dynamic) -> (r: Option<Vec<char>>)
    ensures
        match r {
            Some(v) => spec_scalar_text(d@) == Some(v@),
            None => spec_scalar_text(d@) is None,
        },
{
    match d {
        crate::dynamic::Dynamic::Number(n) => {
            let mut v: Vec<char> = Vec::new();
            push_number(*n, &mut v);
            Some(v)
        },
        crate::dynamic::Dynamic::Str(s) => Some(str_chars(s.as_str())),
        crate::dynamic::Dynamic::Boolean(b) => {
            if *b {
                Some(str_chars("true"))
            } else {
                Some(str_chars("false"))
            }
        },
        crate::dynamic::Dynamic::Null => Some(str_chars("null")),
        _ => None,
    }
}

/// The source text of `e`, exactly as `spec_expr_text` states; parsing it
/// back yields the same tree for the forms the surface syntax covers.
pub fn expression_to_source(e: &Expression) -> (s: String)
    ensures
        s@ == spec_expr_text(e@),
{
    let mut out: Vec<char> = Vec::new();
    expr_text_into(e, &mut out);
    chars_to_string(&out)
}

} // verus!
