use vstd::prelude::*;

use crate::strutil::chars_to_string;
use crate::strutil::str_chars;
use crate::token::view_tokens;
use crate::token::Token;
use crate::token::TokenV;

verus! {

/// A character the lexer cannot start a token with, at this position.
#[derive(Debug, Clone, PartialEq, Eq)]
pub struct LexError {
    pub pos: usize,
}

pub open spec fn is_digit(c: char) -> bool {
    48 <= c as u32 <= 57
}

pub open spec fn is_upper(c: char) -> bool {
    65 <= c as u32 <= 90
}

pub open spec fn is_lower(c: char) -> bool {
    97 <= c as u32 <= 122
}

pub open spec fn is_ident_start(c: char) -> bool {
    is_upper(c) || is_lower(c) || c == '_'
}

pub open spec fn is_ident_char(c: char) -> bool {
    is_ident_start(c) || is_digit(c)
}

/// Where the identifier that runs from `i` ends: the first position at or
/// after `i` that holds no identifier character. Clamped into `i..=s.len()`.
pub open spec fn ident_end(s: Seq<char>, i: int) -> int
    decreases s.len() - i,
{
    if 0 <= i < s.len() && is_ident_char(s[i]) {
        let r = ident_end(s, i + 1);
        if r < i + 1 {
            i + 1
        } else if r > s.len() {
            s.len() as int
        } else {
            r
        }
    } else {
        i
    }
}

/// Where the digit run from `i` ends.
pub open spec fn digits_end(s: Seq<char>, i: int) -> int
    decreases s.len() - i,
{
    if 0 <= i < s.len() && is_digit(s[i]) {
        let r = digits_end(s, i + 1);
        if r < i + 1 {
            i + 1
        } else if r > s.len() {
            s.len() as int
        } else {
            r
        }
    } else {
        i
    }
}

/// The first position at or after `i` holding a double quote, or `s.len()`.
pub open spec fn str_end(s: Seq<char>, i: int) -> int
    decreases s.len() - i,
{
    if 0 <= i < s.len() && s[i] != '"' {
        let r = str_end(s, i + 1);
        if r < i + 1 {
            i + 1
        } else if r > s.len() {
            s.len() as int
        } else {
            r
        }
    } else {
        i
    }
}

/// The first position at or after `i` holding a newline, or `s.len()`.
pub open spec fn line_end(s: Seq<char>, i: int) -> int
    decreases s.len() - i,
{
    if 0 <= i < s.len() && s[i] != '\n' {
        let r = line_end(s, i + 1);
        if r < i + 1 {
            i + 1
        } else if r > s.len() {
            s.len() as int
        } else {
            r
        }
    } else {
        i
    }
}

/// The number written by the digits `s[i..j)`, read left to right.
pub open spec fn digits_val(s: Seq<char>, i: int, j: int) -> int
    decreases j - i,
{
    if i >= j {
        0
    } else {
        digits_val(s, i, j - 1) * 10 + (s[j - 1] as u32 - 48)
    }
}

pub open spec fn pow10(n: nat) -> int
    decreases n,
{
    if n == 0 {
        1
    } else {
        10 * pow10((n - 1) as nat)
    }
}

/// A run of `n` digits writes a number below `pow10(n)`.
proof fn lemma_digits_val_bound(s: Seq<char>, i: int, j: int)
    requires
        i <= j,
        forall|k: int| i <= k < j ==> is_digit(#[trigger] s[k]),
    ensures
        0 <= digits_val(s, i, j) < pow10((j - i) as nat),
    decreases j - i,
{
    if i < j {
        lemma_digits_val_bound(s, i, j - 1);
        assert(s[j - 1] as u32 - 48 <= 9);
        assert(pow10((j - i) as nat) == 10 * pow10((j - i - 1) as nat));
    }
}

proof fn lemma_pow10_mono(a: nat, b: nat)
    requires
        a <= b,
    ensures
        pow10(a) <= pow10(b),
    decreases b,
{
    if a < b {
        lemma_pow10_mono(a, (b - 1) as nat);
        assert(pow10(b) == 10 * pow10((b - 1) as nat));
        assert(pow10(a) >= 1) by {
            lemma_pow10_pos(a);
        }
    }
}

proof fn lemma_pow10_pos(a: nat)
    ensures
        pow10(a) >= 1,
    decreases a,
{
    if a > 0 {
        lemma_pow10_pos((a - 1) as nat);
    }
}

/// The word `w` as a token: a keyword, a literal, a class identifier when
/// capitalized, an identifier otherwise.
pub open spec fn word_token(w: Seq<char>) -> TokenV {
    if w == "var"@ {
        TokenV::KwVar
    } else if w == "fn"@ {
        TokenV::KwFn
    } else if w == "static"@ {
        TokenV::KwStatic
    } else if w == "class"@ {
        TokenV::KwClass
    } else if w == "op"@ {
        TokenV::KwOp
    } else if w == "if"@ {
        TokenV::KwIf
    } else if w == "return"@ {
        TokenV::KwReturn
    } else if w == "import"@ {
        TokenV::KwImport
    } else if w == "export"@ {
        TokenV::KwExport
    } else if w == "true"@ {
        TokenV::BooleanLiteral(true)
    } else if w == "false"@ {
        TokenV::BooleanLiteral(false)
    } else if w == "null"@ {
        TokenV::Null
    } else if w.len() > 0 && is_upper(w[0]) {
        TokenV::ClassIdentifier(w)
    } else {
        TokenV::Identifier(w)
    }
}

/// `t` put in front of the tokens of `rest`, when `rest` lexed at all.
pub open spec fn cons_token(t: TokenV, rest: Option<Seq<TokenV>>) -> Option<Seq<TokenV>> {
    match rest {
        None => None,
        Some(ts) => Some(seq![t] + ts),
    }
}

/// The tokens of `s` from position `i` on: spaces, tabs and carriage returns
/// are dropped; newlines are tokens; `::` and `=>` pair up; `//` opens a
/// comment to the line's end; a number holds at most 18 digits; a string runs
/// to the next double quote; a word becomes a keyword, literal or identifier.
/// `None` on an unrecognized or unterminated start of a token.
pub open spec fn spec_lex_from(s: Seq<char>, i: int) -> Option<Seq<TokenV>>
    decreases s.len() - i,
{
    if i < 0 {
        None
    } else if i >= s.len() {
        Some(Seq::empty())
    } else {
        let c = s[i];
        if c == ' ' || c == '\t' || c == '\r' {
            spec_lex_from(s, i + 1)
        } else if c == '\n' {
            cons_token(TokenV::NewLine, spec_lex_from(s, i + 1))
        } else if c == '(' {
            cons_token(TokenV::LParan, spec_lex_from(s, i + 1))
        } else if c == ')' {
            cons_token(TokenV::RParan, spec_lex_from(s, i + 1))
        } else if c == '{' {
            cons_token(TokenV::LCurly, spec_lex_from(s, i + 1))
        } else if c == '}' {
            cons_token(TokenV::RCurly, spec_lex_from(s, i + 1))
        } else if c == '[' {
            cons_token(TokenV::LBracket, spec_lex_from(s, i + 1))
        } else if c == ']' {
            cons_token(TokenV::RBracket, spec_lex_from(s, i + 1))
        } else if c == ',' {
            cons_token(TokenV::Comma, spec_lex_from(s, i + 1))
        } else if c == ';' {
            cons_token(TokenV::SemiColon, spec_lex_from(s, i + 1))
        } else if c == '#' {
            cons_token(TokenV::Hash, spec_lex_from(s, i + 1))
        } else if c == '.' {
            cons_token(TokenV::Dot, spec_lex_from(s, i + 1))
        } else if c == ':' {
            if i + 1 < s.len() && s[i + 1] == ':' {
                cons_token(TokenV::DoubleColon, spec_lex_from(s, i + 2))
            } else {
                cons_token(TokenV::Colon, spec_lex_from(s, i + 1))
            }
        } else if c == '=' {
            if i + 1 < s.len() && s[i + 1] == '>' {
                cons_token(TokenV::Arrow, spec_lex_from(s, i + 2))
            } else {
                cons_token(TokenV::Equal, spec_lex_from(s, i + 1))
            }
        } else if c == '+' || c == '-' || c == '*' {
            cons_token(TokenV::Symbol(s.subrange(i, i + 1)), spec_lex_from(s, i + 1))
        } else if c == '/' {
            if i + 1 < s.len() && s[i + 1] == '/' {
                let j = line_end(s, i);
                cons_token(TokenV::Comment(s.subrange(i, j)), spec_lex_from(s, j))
            } else {
                cons_token(TokenV::Symbol(s.subrange(i, i + 1)), spec_lex_from(s, i + 1))
            }
        } else if c == '"' {
            let j = str_end(s, i + 1);
            if j < s.len() {
                cons_token(TokenV::StringLiteral(s.subrange(i + 1, j)), spec_lex_from(s, j + 1))
            } else {
                None
            }
        } else if is_digit(c) {
            let j = digits_end(s, i);
            if j - i <= 18 {
                cons_token(TokenV::NumberLiteral(digits_val(s, i, j)), spec_lex_from(s, j))
            } else {
                None
            }
        } else if is_ident_start(c) {
            let j = ident_end(s, i);
            cons_token(word_token(s.subrange(i, j)), spec_lex_from(s, j))
        } else {
            None
        }
    }
}

/// Whether `c` is a decimal digit.
fn digit_char(c: char) -> (b: bool)
    ensures
        b == is_digit(c),
{
    let d = c as u32;
    48 <= d && d <= 57
}

/// Whether `c` may continue an identifier.
fn ident_char(c: char) -> (b: bool)
    ensures
        b == is_ident_char(c),
{
    let d = c as u32;
    (48 <= d && d <= 57) || (65 <= d && d <= 90) || (97 <= d && d <= 122) || c == '_'
}


/// The end of the identifier starting at `i`.
fn scan_ident(s: &Vec<char>, i: usize) -> (j: usize)
    requires
        i <= s.len(),
    ensures
        i <= j <= s.len(),
        j == ident_end(s@, i as int),
{
    let mut j: usize = i;
    while j < s.len() && ident_char(s[j])
        invariant
            i <= j <= s.len(),
            ident_end(s@, i as int) == ident_end(s@, j as int),
        decreases s.len() - j,
    {
        j = j + 1;
    }
    proof {
        assert(ident_end(s@, j as int) == j as int);
    }
    j
}

/// The end of the string literal's body starting at `i`.
fn scan_str(s: &Vec<char>, i: usize) -> (j: usize)
    requires
        i <= s.len(),
    ensures
        i <= j <= s.len(),
        j == str_end(s@, i as int),
{
    let mut j: usize = i;
    while j < s.len() && s[j] != '"'
        invariant
            i <= j <= s.len(),
            str_end(s@, i as int) == str_end(s@, j as int),
        decreases s.len() - j,
    {
        j = j + 1;
    }
    proof {
        assert(str_end(s@, j as int) == j as int);
    }
    j
}

/// The end of the comment starting at `i`.
fn scan_line(s: &Vec<char>, i: usize) -> (j: usize)
    requires
        i <= s.len(),
    ensures
        i <= j <= s.len(),
        j == line_end(s@, i as int),
{
    let mut j: usize = i;
    while j < s.len() && s[j] != '\n'
        invariant
            i <= j <= s.len(),
            line_end(s@, i as int) == line_end(s@, j as int),
        decreases s.len() - j,
    {
        j = j + 1;
    }
    proof {
        assert(line_end(s@, j as int) == j as int);
    }
    j
}

/// The number starting at `i` and its end, or `Err` when it runs past 18
/// digits.
fn scan_number(s: &Vec<char>, i: usize) -> (r: Result<(i64, usize), ()>)
    requires
        i <= s.len(),
    ensures
        match r {
            Ok((val, j)) => i <= j <= s.len() && j == digits_end(s@, i as int) && j - i <= 18
                && val == digits_val(s@, i as int, j as int) && 0 <= val,
            Err(()) => digits_end(s@, i as int) - i > 18,
        },
{
    let mut j: usize = i;
    let mut val: i64 = 0;
    while j < s.len() && digit_char(s[j])
        invariant
            i <= j <= s.len(),
            j - i <= 18,
            digits_end(s@, i as int) == digits_end(s@, j as int),
            val == digits_val(s@, i as int, j as int),
            0 <= val,
            forall|k: int| i <= k < j ==> is_digit(#[trigger] s@[k]),
        decreases s.len() - j,
    {
        if j - i >= 18 {
            proof {
                assert(digits_end(s@, j as int) >= j + 1);
            }
            return Err(());
        }
        proof {
            lemma_digits_val_bound(s@, i as int, j as int);
            lemma_pow10_mono((j - i) as nat, 17nat);
            reveal_with_fuel(pow10, 19);
            assert(pow10(17) == 100000000000000000);
            assert(val < 100000000000000000);
        }
        let d = (s[j] as u32 - 48) as i64;
        val = val * 10 + d;
        j = j + 1;
    }
    proof {
        assert(digits_end(s@, j as int) == j as int);
    }
    Ok((val, j))
}

/// The string holding `s[from..to)`.
fn carve(s: &Vec<char>, from: usize, to: usize) -> (r: String)
    requires
        from <= to <= s.len(),
    ensures
        r@ == s@.subrange(from as int, to as int),
{
    let mut v: Vec<char> = Vec::new();
    let mut k: usize = from;
    while k < to
        invariant
            from <= k <= to <= s.len(),
            v@ == s@.subrange(from as int, k as int),
        decreases to - k,
    {
        v.push(s[k]);
        proof {
            assert(v@ =~= s@.subrange(from as int, k + 1 as int));
        }
        k = k + 1;
    }
    chars_to_string(&v)
}

/// Lexes the characters `s`, exactly as `spec_lex_from(s@, 0)` states; an
/// `Err` carries the position of the offending character and comes exactly
/// when the specification says the text does not lex.
#[verifier::rlimit(100)]
#[verifier::loop_isolation(false)]
pub fn lex_chars(s: &Vec<char>) -> (r: Result<Vec<Token>, LexError>)
    ensures
        match r {
            Ok(ts) => spec_lex_from(s@, 0) == Some(view_tokens(ts@)),
            Err(_) => spec_lex_from(s@, 0) is None,
        },
{
    let mut out: Vec<Token> = Vec::new();
    let mut i: usize = 0;
    loop
        invariant
            i <= s.len(),
            spec_lex_from(s@, 0) == (match spec_lex_from(s@, i as int) {
                None => None::<Seq<TokenV>>,
                Some(rest) => Some(view_tokens(out@) + rest),
            }),
        decreases s.len() - i,
    {
        if i >= s.len() {
            proof {
                assert(view_tokens(out@) + Seq::<TokenV>::empty() =~= view_tokens(out@));
            }
            return Ok(out);
        }
        let ghost i0 = i as int;
        let ghost vpre = view_tokens(out@);
        let c = s[i];
        let u = c as u32;
        if c == ' ' || c == '\t' || c == '\r' {
            i = i + 1;
        } else if c == '\n' {
            out.push(Token::NewLine);
            i = i + 1;
            proof {
                lemma_push_step(s@, i0, (Token::NewLine)@, i as int, vpre, out@);
            }
        } else if c == '(' {
            out.push(Token::LParan);
            i = i + 1;
            proof {
                lemma_push_step(s@, i0, (Token::LParan)@, i as int, vpre, out@);
            }
        } else if c == ')' {
            out.push(Token::RParan);
            i = i + 1;
            proof {
                lemma_push_step(s@, i0, (Token::RParan)@, i as int, vpre, out@);
            }
        } else if c == '{' {
            out.push(Token::LCurly);
            i = i + 1;
            proof {
                lemma_push_step(s@, i0, (Token::LCurly)@, i as int, vpre, out@);
            }
        } else if c == '}' {
            out.push(Token::RCurly);
            i = i + 1;
            proof {
                lemma_push_step(s@, i0, (Token::RCurly)@, i as int, vpre, out@);
            }
        } else if c == '[' {
            out.push(Token::LBracket);
            i = i + 1;
            proof {
                lemma_push_step(s@, i0, (Token::LBracket)@, i as int, vpre, out@);
            }
        } else if c == ']' {
            out.push(Token::RBracket);
            i = i + 1;
            proof {
                lemma_push_step(s@, i0, (Token::RBracket)@, i as int, vpre, out@);
            }
        } else if c == ',' {
            out.push(Token::Comma);
            i = i + 1;
            proof {
                lemma_push_step(s@, i0, (Token::Comma)@, i as int, vpre, out@);
            }
        } else if c == ';' {
            out.push(Token::SemiColon);
            i = i + 1;
            proof {
                lemma_push_step(s@, i0, (Token::SemiColon)@, i as int, vpre, out@);
            }
        } else if c == '#' {
            out.push(Token::Hash);
            i = i + 1;
            proof {
                lemma_push_step(s@, i0, (Token::Hash)@, i as int, vpre, out@);
            }
        } else if c == '.' {
            out.push(Token::Dot);
            i = i + 1;
            proof {
                lemma_push_step(s@, i0, (Token::Dot)@, i as int, vpre, out@);
            }
        } else if c == ':' {
            if i + 1 < s.len() && s[i + 1] == ':' {
                out.push(Token::DoubleColon);
                i = i + 2;
                proof {
                    lemma_push_step(s@, i0, (Token::DoubleColon)@, i as int, vpre, out@);
                }
            } else {
                out.push(Token::Colon);
                i = i + 1;
                proof {
                    lemma_push_step(s@, i0, (Token::Colon)@, i as int, vpre, out@);
                }
            }
        } else if c == '=' {
            if i + 1 < s.len() && s[i + 1] == '>' {
                out.push(Token::Arrow);
                i = i + 2;
                proof {
                    lemma_push_step(s@, i0, (Token::Arrow)@, i as int, vpre, out@);
                }
            } else {
                out.push(Token::Equal);
                i = i + 1;
                proof {
                    lemma_push_step(s@, i0, (Token::Equal)@, i as int, vpre, out@);
                }
            }
        } else if c == '+' || c == '-' || (c == '*' || c == '/') {
            if c == '/' && i + 1 < s.len() && s[i + 1] == '/' {
                let j = scan_line(s, i);
                let text = carve(s, i, j);
                let tok = Token::Comment(text);
                out.push(tok);
                i = j;
                proof {
                    assert(spec_lex_from(s@, i0) == cons_token(
                        TokenV::Comment(text@),
                        spec_lex_from(s@, i as int),
                    ));
                    lemma_push_step(s@, i0, (Token::Comment(text))@, i as int, vpre, out@);
                }
            } else {
                let text = carve(s, i, i + 1);
                let tok = Token::Symbol(text);
                out.push(tok);
                i = i + 1;
                proof {
                    lemma_push_step(s@, i0, (Token::Symbol(text))@, i as int, vpre, out@);
                }
            }
        } else if c == '"' {
            let j = scan_str(s, i + 1);
            if j >= s.len() {
                proof {
                    assert(spec_lex_from(s@, i0) is None);
                }
                return Err(LexError { pos: i });
            }
            let text = carve(s, i + 1, j);
            let tok = Token::StringLiteral(text);
            out.push(tok);
            i = j + 1;
            proof {
                assert(spec_lex_from(s@, i0) == cons_token(
                    TokenV::StringLiteral(text@),
                    spec_lex_from(s@, i as int),
                ));
                lemma_push_step(s@, i0, (Token::StringLiteral(text))@, i as int, vpre, out@);
            }
        } else if 48 <= u && u <= 57 {
            let (val, j) = match scan_number(s, i) {
                Ok(p) => p,
                Err(()) => {
                    proof {
                        assert(spec_lex_from(s@, i0) is None);
                    }
                    return Err(LexError { pos: i });
                },
            };
            let tok = Token::NumberLiteral(val);
            out.push(tok);
            i = j;
            proof {
                assert(spec_lex_from(s@, i0) == cons_token(
                    TokenV::NumberLiteral(val as int),
                    spec_lex_from(s@, i as int),
                ));
                lemma_push_step(s@, i0, (Token::NumberLiteral(val))@, i as int, vpre, out@);
            }
        } else if (65 <= u && u <= 90) || (97 <= u && u <= 122) || c == '_' {
            let j = scan_ident(s, i);
            let text = carve(s, i, j);
            proof {
                assert(s@.subrange(i as int, j as int)[0] == s@[i as int]);
            }
            let tok = keyword_or_ident(text, c);
            let ghost tv = tok@;
            out.push(tok);
            i = j;
            proof {
                assert(spec_lex_from(s@, i0) == cons_token(tv, spec_lex_from(s@, i as int)));
                lemma_push_step(s@, i0, tv, i as int, vpre, out@);
            }
        } else {
            return Err(LexError { pos: i });
        }
    }
}

/// The token for the word `text`, whose first character is `first`.
fn keyword_or_ident(text: String, first: char) -> (tok: Token)
    requires
        text@.len() > 0,
        text@[0] == first,
    ensures
        tok@ == word_token(text@),
        tok@ matches TokenV::Identifier(s) ==> s == text@,
{
    if text == String::from_str("var") {
        Token::KwVar
    } else if text == String::from_str("fn") {
        Token::KwFn
    } else if text == String::from_str("static") {
        Token::KwStatic
    } else if text == String::from_str("class") {
        Token::KwClass
    } else if text == String::from_str("op") {
        Token::KwOp
    } else if text == String::from_str("if") {
        Token::KwIf
    } else if text == String::from_str("return") {
        Token::KwReturn
    } else if text == String::from_str("import") {
        Token::KwImport
    } else if text == String::from_str("export") {
        Token::KwExport
    } else if text == String::from_str("true") {
        Token::BooleanLiteral(true)
    } else if text == String::from_str("false") {
        Token::BooleanLiteral(false)
    } else if text == String::from_str("null") {
        Token::Null
    } else {
        let u = first as u32;
        if 65 <= u && u <= 90 {
            Token::ClassIdentifier(text)
        } else {
            Token::Identifier(text)
        }
    }
}

/// The invariant step of `lex_chars`: after pushing the token for the span
/// `i0..j`, the tokens lexed so far plus what remains still make up the whole.
proof fn lemma_push_step(s: Seq<char>, i0: int, tv: TokenV, j: int, vpre: Seq<TokenV>, outv: Seq<
    Token,
>)
    requires
        spec_lex_from(s, i0) == cons_token(tv, spec_lex_from(s, j)),
        view_tokens(outv) =~= vpre.push(tv),
    ensures
        (match spec_lex_from(s, i0) {
            None => None::<Seq<TokenV>>,
            Some(rest) => Some(vpre + rest),
        }) == (match spec_lex_from(s, j) {
            None => None::<Seq<TokenV>>,
            Some(rest) => Some(view_tokens(outv) + rest),
        }),
{
    match spec_lex_from(s, j) {
        None => {},
        Some(rest) => {
            assert(vpre + (seq![tv] + rest) =~= vpre.push(tv) + rest);
        },
    }
}

/// Lexes source text; see `spec_lex_from`.
pub fn lex(source: &str) -> (r: Result<Vec<Token>, LexError>)
    ensures
        match r {
            Ok(ts) => spec_lex_from(source@, 0) == Some(view_tokens(ts@)),
            Err(_) => spec_lex_from(source@, 0) is None,
        },
{
    let chars = str_chars(source);
    lex_chars(&chars)
}

} // verus!
