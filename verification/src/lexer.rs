//! Lexer for the source language: turns source text into a flat token
//! sequence. Name and string-literal tokens carry index ranges into the
//! source, so a token is plain data and can stand in specifications as it is.

use vstd::prelude::*;

verus! {

/// One lexical token. `Name` and `Text` carry the character range of their
/// payload in the source (for `Text`, the quotes are excluded).
#[derive(Debug, PartialEq, Eq, Structural, Clone, Copy)]
pub enum Token {
    Name { start: usize, end: usize },
    Number { value: i64 },
    Text { start: usize, end: usize },
    KwIf,
    KwElif,
    KwElse,
    LPar,
    RPar,
    Comma,
    Colon,
    Newline,
}

/// The largest number of digits an integer literal may have; any value of
/// that many digits fits in an `i64`.
pub const MAX_NUMBER_DIGITS: usize = 18;

pub open spec fn is_digit(c: char) -> bool {
    48 <= c as u32 && c as u32 <= 57
}

pub open spec fn is_name_start(c: char) -> bool {
    (97 <= c as u32 && c as u32 <= 122) || (65 <= c as u32 && c as u32 <= 90) || c as u32 == 95
}

pub open spec fn is_name_char(c: char) -> bool {
    is_name_start(c) || is_digit(c)
}

/// First index at or after `i` that does not hold a name character.
pub open spec fn name_end(s: Seq<char>, i: int) -> int
    decreases s.len() - i,
{
    if 0 <= i && i < s.len() && is_name_char(s[i]) {
        name_end(s, i + 1)
    } else {
        i
    }
}

/// First index at or after `i` that does not hold a digit.
pub open spec fn num_end(s: Seq<char>, i: int) -> int
    decreases s.len() - i,
{
    if 0 <= i && i < s.len() && is_digit(s[i]) {
        num_end(s, i + 1)
    } else {
        i
    }
}

/// First index at or after `i` holding a closing quote; `s.len()` if none.
pub open spec fn quote_end(s: Seq<char>, i: int) -> int
    decreases s.len() - i,
{
    if 0 <= i && i < s.len() {
        if s[i] == '\'' {
            i
        } else {
            quote_end(s, i + 1)
        }
    } else {
        if i < 0 {
            i
        } else {
            s.len() as int
        }
    }
}

/// Value of the digit run `s[i..end]` read as a decimal number.
pub open spec fn num_val(s: Seq<char>, i: int, end: int) -> int
    decreases end - i,
{
    if i < end {
        num_val(s, i, end - 1) * 10 + (s[end - 1] as u32 - 48)
    } else {
        0
    }
}

pub proof fn name_end_bounds(s: Seq<char>, i: int)
    requires
        0 <= i <= s.len(),
    ensures
        i <= name_end(s, i) <= s.len(),
    decreases s.len() - i,
{
    if i < s.len() && is_name_char(s[i]) {
        name_end_bounds(s, i + 1);
    }
}

pub proof fn num_end_bounds(s: Seq<char>, i: int)
    requires
        0 <= i <= s.len(),
    ensures
        i <= num_end(s, i) <= s.len(),
    decreases s.len() - i,
{
    if i < s.len() && is_digit(s[i]) {
        num_end_bounds(s, i + 1);
    }
}

pub proof fn quote_end_bounds(s: Seq<char>, i: int)
    requires
        0 <= i <= s.len(),
    ensures
        i <= quote_end(s, i) <= s.len(),
    decreases s.len() - i,
{
    if i < s.len() && s[i] != '\'' {
        quote_end_bounds(s, i + 1);
    }
}

/// The token a completed name run stands for: a keyword where the run spells
/// one, a plain name otherwise.
pub open spec fn classify_name(s: Seq<char>, i: int, end: int) -> Token {
    if end - i == 2 && s[i] == 'i' && s[i + 1] == 'f' {
        Token::KwIf
    } else if end - i == 4 && s[i] == 'e' && s[i + 1] == 'l' && s[i + 2] == 'i' && s[i + 3] == 'f' {
        Token::KwElif
    } else if end - i == 4 && s[i] == 'e' && s[i + 1] == 'l' && s[i + 2] == 's' && s[i + 3] == 'e' {
        Token::KwElse
    } else {
        Token::Name { start: i as usize, end: end as usize }
    }
}

pub open spec fn cons_tok(t: Token, rest: Option<Seq<Token>>) -> Option<Seq<Token>> {
    match rest {
        Option::Some(r) => Option::Some(r.insert(0, t)),
        Option::None => Option::None,
    }
}

/// The token sequence of the source from index `i` on; `None` where the
/// source does not lex (a stray character, an unterminated string literal,
/// or an over-long integer literal).
pub open spec fn spec_lex(s: Seq<char>, i: int) -> Option<Seq<Token>>
    decreases s.len() - i,
    when 0 <= i <= s.len()
    via spec_lex_dec
{
    if i >= s.len() {
        Option::Some(Seq::empty())
    } else {
        let c = s[i];
        if c == ' ' {
            spec_lex(s, i + 1)
        } else if c == '\n' {
            cons_tok(Token::Newline, spec_lex(s, i + 1))
        } else if c == '(' {
            cons_tok(Token::LPar, spec_lex(s, i + 1))
        } else if c == ')' {
            cons_tok(Token::RPar, spec_lex(s, i + 1))
        } else if c == ',' {
            cons_tok(Token::Comma, spec_lex(s, i + 1))
        } else if c == ':' {
            cons_tok(Token::Colon, spec_lex(s, i + 1))
        } else if is_digit(c) {
            let e = num_end(s, i);
            if e - i <= MAX_NUMBER_DIGITS {
                cons_tok(Token::Number { value: num_val(s, i, e) as i64 }, spec_lex(s, e))
            } else {
                Option::None
            }
        } else if is_name_start(c) {
            let e = name_end(s, i);
            cons_tok(classify_name(s, i, e), spec_lex(s, e))
        } else if c == '\'' {
            let e = quote_end(s, i + 1);
            if e < s.len() {
                cons_tok(
                    Token::Text { start: (i + 1) as usize, end: e as usize },
                    spec_lex(s, e + 1),
                )
            } else {
                Option::None
            }
        } else {
            Option::None
        }
    }
}

#[via_fn]
proof fn spec_lex_dec(s: Seq<char>, i: int) {
    if 0 <= i && i < s.len() {
        if is_digit(s[i]) {
            num_end_bounds(s, i + 1);
            assert(num_end(s, i) == num_end(s, i + 1));
        }
        if is_name_start(s[i]) {
            name_end_bounds(s, i + 1);
            assert(name_end(s, i) == name_end(s, i + 1));
        }
        if s[i] == '\'' {
            quote_end_bounds(s, i + 1);
        }
    }
}

pub open spec fn pow10(n: nat) -> int
    decreases n,
{
    if n == 0 {
        1
    } else {
        10 * pow10((n - 1) as nat)
    }
}

proof fn pow10_pos(n: nat)
    ensures
        pow10(n) >= 1,
    decreases n,
{
    if n > 0 {
        pow10_pos((n - 1) as nat);
    }
}

proof fn pow10_mono(a: nat, b: nat)
    requires
        a <= b,
    ensures
        pow10(a) <= pow10(b),
    decreases b,
{
    if a < b {
        pow10_mono(a, (b - 1) as nat);
        pow10_pos((b - 1) as nat);
    }
}

proof fn num_val_bounds(s: Seq<char>, i: int, end: int)
    requires
        i <= end,
        forall|k: int| i <= k < end ==> is_digit(s[k]),
    ensures
        0 <= num_val(s, i, end) < pow10((end - i) as nat),
    decreases end - i,
{
    if i < end {
        num_val_bounds(s, i, end - 1);
        assert(pow10((end - i) as nat) == 10 * pow10((end - 1 - i) as nat));
    }
}

proof fn num_end_digits(s: Seq<char>, i: int)
    requires
        0 <= i <= s.len(),
    ensures
        forall|k: int| i <= k < num_end(s, i) ==> is_digit(s[k]),
    decreases s.len() - i,
{
    if i < s.len() && is_digit(s[i]) {
        num_end_digits(s, i + 1);
        num_end_bounds(s, i + 1);
    }
}

fn is_digit_x(c: char) -> (r: bool)
    ensures
        r == is_digit(c),
{
    let u = c as u32;
    48 <= u && u <= 57
}

fn is_name_start_x(c: char) -> (r: bool)
    ensures
        r == is_name_start(c),
{
    let u = c as u32;
    (97 <= u && u <= 122) || (65 <= u && u <= 90) || u == 95
}

fn is_name_char_x(c: char) -> (r: bool)
    ensures
        r == is_name_char(c),
{
    is_name_start_x(c) || is_digit_x(c)
}

fn scan_name_end(s: &str, len: usize, i: usize) -> (r: usize)
    requires
        len == s@.len(),
        i <= len,
    ensures
        r == name_end(s@, i as int),
        i <= r <= len,
    decreases len - i,
{
    if i < len && is_name_char_x(s.get_char(i)) {
        scan_name_end(s, len, i + 1)
    } else {
        i
    }
}

fn scan_num_end(s: &str, len: usize, i: usize) -> (r: usize)
    requires
        len == s@.len(),
        i <= len,
    ensures
        r == num_end(s@, i as int),
        i <= r <= len,
    decreases len - i,
{
    if i < len && is_digit_x(s.get_char(i)) {
        scan_num_end(s, len, i + 1)
    } else {
        i
    }
}

fn scan_quote_end(s: &str, len: usize, i: usize) -> (r: usize)
    requires
        len == s@.len(),
        i <= len,
    ensures
        r == quote_end(s@, i as int),
        i <= r <= len,
    decreases len - i,
{
    if i < len {
        if s.get_char(i) == '\'' {
            i
        } else {
            scan_quote_end(s, len, i + 1)
        }
    } else {
        i
    }
}

fn scan_num_value(s: &str, len: usize, i: usize, e: usize) -> (r: i64)
    requires
        len == s@.len(),
        i <= e <= len,
        e - i <= MAX_NUMBER_DIGITS,
        forall|k: int| i <= k < e ==> is_digit(s@[k]),
    ensures
        r == num_val(s@, i as int, e as int),
{
    let mut acc: i64 = 0;
    let mut j: usize = i;
    while j < e
        invariant
            len == s@.len(),
            i <= j <= e <= len,
            e - i <= MAX_NUMBER_DIGITS,
            forall|k: int| i <= k < e ==> is_digit(s@[k]),
            acc == num_val(s@, i as int, j as int),
        decreases e - j,
    {
        proof {
            num_val_bounds(s@, i as int, j as int);
            pow10_mono((j - i) as nat, 17);
            assert(pow10(17) == 100_000_000_000_000_000) by {
                reveal_with_fuel(pow10, 18);
            }
        }
        let d = s.get_char(j) as u32 - 48;
        acc = acc * 10 + (d as i64);
        j = j + 1;
    }
    acc
}

fn classify_name_x(s: &str, len: usize, i: usize, e: usize) -> (r: Token)
    requires
        len == s@.len(),
        i < e <= len,
    ensures
        r == classify_name(s@, i as int, e as int),
{
    if e - i == 2 && s.get_char(i) == 'i' && s.get_char(i + 1) == 'f' {
        Token::KwIf
    } else if e - i == 4 && s.get_char(i) == 'e' && s.get_char(i + 1) == 'l' && s.get_char(i + 2)
        == 'i' && s.get_char(i + 3) == 'f' {
        Token::KwElif
    } else if e - i == 4 && s.get_char(i) == 'e' && s.get_char(i + 1) == 'l' && s.get_char(i + 2)
        == 's' && s.get_char(i + 3) == 'e' {
        Token::KwElse
    } else {
        Token::Name { start: i, end: e }
    }
}

/// Lexes the whole source; the token sequence is exactly what `spec_lex`
/// says, and lexing fails exactly where `spec_lex` has no answer.
pub fn lex_source(s: &str) -> (r: Result<Vec<Token>, String>)
    ensures
        match r {
            Result::Ok(toks) => spec_lex(s@, 0) == Option::Some(toks@),
            Result::Err(_) => spec_lex(s@, 0) is None,
        },
{
    let len = s.unicode_len();
    lex_from(s, len, 0)
}

fn lex_from(s: &str, len: usize, i: usize) -> (r: Result<Vec<Token>, String>)
    requires
        len == s@.len(),
        i <= len,
    ensures
        match r {
            Result::Ok(toks) => spec_lex(s@, i as int) == Option::Some(toks@),
            Result::Err(_) => spec_lex(s@, i as int) is None,
        },
    decreases len - i,
{
    if i >= len {
        return Result::Ok(Vec::new());
    }
    let c = s.get_char(i);
    if c == ' ' {
        lex_from(s, len, i + 1)
    } else if c == '\n' {
        let mut rest = lex_from(s, len, i + 1)?;
        rest.insert(0, Token::Newline);
        Result::Ok(rest)
    } else if c == '(' {
        let mut rest = lex_from(s, len, i + 1)?;
        rest.insert(0, Token::LPar);
        Result::Ok(rest)
    } else if c == ')' {
        let mut rest = lex_from(s, len, i + 1)?;
        rest.insert(0, Token::RPar);
        Result::Ok(rest)
    } else if c == ',' {
        let mut rest = lex_from(s, len, i + 1)?;
        rest.insert(0, Token::Comma);
        Result::Ok(rest)
    } else if c == ':' {
        let mut rest = lex_from(s, len, i + 1)?;
        rest.insert(0, Token::Colon);
        Result::Ok(rest)
    } else if is_digit_x(c) {
        let e = scan_num_end(s, len, i);
        proof {
            num_end_bounds(s@, i as int + 1);
            num_end_digits(s@, i as int);
        }
        if e - i <= MAX_NUMBER_DIGITS {
            let v = scan_num_value(s, len, i, e);
            let mut rest = lex_from(s, len, e)?;
            rest.insert(0, Token::Number { value: v });
            Result::Ok(rest)
        } else {
            Result::Err("integer literal is too long".to_owned())
        }
    } else if is_name_start_x(c) {
        let e = scan_name_end(s, len, i);
        proof {
            name_end_bounds(s@, i as int + 1);
        }
        let t = classify_name_x(s, len, i, e);
        let mut rest = lex_from(s, len, e)?;
        rest.insert(0, t);
        Result::Ok(rest)
    } else if c == '\'' {
        let e = scan_quote_end(s, len, i + 1);
        if e < len {
            let mut rest = lex_from(s, len, e + 1)?;
            rest.insert(0, Token::Text { start: i + 1, end: e });
            Result::Ok(rest)
        } else {
            Result::Err("unterminated string literal".to_owned())
        }
    } else {
        Result::Err("unexpected character in source".to_owned())
    }
}

} // verus!
