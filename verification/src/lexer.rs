//! The lexer: source text to tokens.
//!
//! Whitespace separates tokens and is otherwise insignificant.
//! Identifiers are letters, digits and underscores, not starting with a
//! digit; the reserved words are their own tokens.  Integer literals are
//! decimal and must fit in 64 signed bits, else lexing fails.  String
//! literals run between two double quotes, which cannot appear inside.

use vstd::prelude::*;

use crate::text::str_chars;
use crate::text::str_eq;
use crate::text::u64_dec_string;

verus! {

/// One token of the language.
#[derive(Debug)]
pub enum Token {
    Int(i64),
    Ident(String),
    StrLit(String),
    True,
    False,
    Let,
    Return,
    If,
    Else,
    Fn,
    Plus,
    Minus,
    Star,
    Slash,
    Bang,
    Eq,
    NotEq,
    Lt,
    Gt,
    Assign,
    LParen,
    RParen,
    LBrace,
    RBrace,
    LBracket,
    RBracket,
    Comma,
    Semicolon,
    Colon,
}

/// Model of a token.
pub enum TokenV {
    Int(i64),
    Ident(Seq<char>),
    StrLit(Seq<char>),
    True,
    False,
    Let,
    Return,
    If,
    Else,
    Fn,
    Plus,
    Minus,
    Star,
    Slash,
    Bang,
    Eq,
    NotEq,
    Lt,
    Gt,
    Assign,
    LParen,
    RParen,
    LBrace,
    RBrace,
    LBracket,
    RBracket,
    Comma,
    Semicolon,
    Colon,
}

/// Model of a token value.
pub open spec fn token_view(t: Token) -> TokenV {
    match t {
        Token::Int(n) => TokenV::Int(n),
        Token::Ident(s) => TokenV::Ident(s@),
        Token::StrLit(s) => TokenV::StrLit(s@),
        Token::True => TokenV::True,
        Token::False => TokenV::False,
        Token::Let => TokenV::Let,
        Token::Return => TokenV::Return,
        Token::If => TokenV::If,
        Token::Else => TokenV::Else,
        Token::Fn => TokenV::Fn,
        Token::Plus => TokenV::Plus,
        Token::Minus => TokenV::Minus,
        Token::Star => TokenV::Star,
        Token::Slash => TokenV::Slash,
        Token::Bang => TokenV::Bang,
        Token::Eq => TokenV::Eq,
        Token::NotEq => TokenV::NotEq,
        Token::Lt => TokenV::Lt,
        Token::Gt => TokenV::Gt,
        Token::Assign => TokenV::Assign,
        Token::LParen => TokenV::LParen,
        Token::RParen => TokenV::RParen,
        Token::LBrace => TokenV::LBrace,
        Token::RBrace => TokenV::RBrace,
        Token::LBracket => TokenV::LBracket,
        Token::RBracket => TokenV::RBracket,
        Token::Comma => TokenV::Comma,
        Token::Semicolon => TokenV::Semicolon,
        Token::Colon => TokenV::Colon,
    }
}

impl View for Token {
    type V = TokenV;

    open spec fn view(&self) -> TokenV {
        token_view(*self)
    }
}

/// Models of the tokens from index `i` on.
pub open spec fn tokens_view(ts: Seq<Token>, i: int) -> Seq<TokenV>
    decreases ts.len() - i,
{
    if i < 0 || i >= ts.len() {
        Seq::empty()
    } else {
        seq![token_view(ts[i])] + tokens_view(ts, i + 1)
    }
}

/// Length and elements of `tokens_view`.
pub broadcast proof fn lemma_tokens_view(ts: Seq<Token>, i: int)
    ensures
        0 <= i <= ts.len() ==> #[trigger] tokens_view(ts, i).len() == ts.len() - i,
        forall|k: int|
            0 <= i && 0 <= k < ts.len() - i ==> #[trigger] tokens_view(ts, i)[k] == token_view(
                ts[i + k],
            ),
    decreases ts.len() - i,
{
    if 0 <= i < ts.len() {
        lemma_tokens_view(ts, i + 1);
        assert forall|k: int| 0 <= i && 0 <= k < ts.len() - i implies #[trigger] tokens_view(ts, i)[k]
            == token_view(ts[i + k]) by {
            if k > 0 {
                assert(tokens_view(ts, i + 1)[k - 1] == token_view(ts[(i + 1) + (k - 1)]));
            }
        }
    }
}

/// Whitespace: space, tab, carriage return, line feed.
pub open spec fn is_ws(c: char) -> bool {
    c == ' ' || c == '\t' || c == '\r' || c == '\n'
}

/// A decimal digit.
pub open spec fn is_digit(c: char) -> bool {
    '0' <= c && c <= '9'
}

/// A character that may start an identifier.
pub open spec fn is_ident_start(c: char) -> bool {
    ('a' <= c && c <= 'z') || ('A' <= c && c <= 'Z') || c == '_'
}

/// A character that may continue an identifier.
pub open spec fn is_ident_char(c: char) -> bool {
    is_ident_start(c) || is_digit(c)
}

/// The first index at or after `i` holding something other than
/// whitespace.
pub open spec fn skip_ws(s: Seq<char>, i: int) -> int
    decreases s.len() - i,
{
    if i < 0 || i >= s.len() || !is_ws(s[i]) {
        i
    } else {
        skip_ws(s, i + 1)
    }
}

/// The first index at or after `i` that cannot continue an identifier.
pub open spec fn ident_end(s: Seq<char>, i: int) -> int
    decreases s.len() - i,
{
    if i < 0 || i >= s.len() || !is_ident_char(s[i]) {
        i
    } else {
        ident_end(s, i + 1)
    }
}

/// The first index at or after `i` holding a non-digit.
pub open spec fn digits_end(s: Seq<char>, i: int) -> int
    decreases s.len() - i,
{
    if i < 0 || i >= s.len() || !is_digit(s[i]) {
        i
    } else {
        digits_end(s, i + 1)
    }
}

/// The first index at or after `i` holding a double quote, or the length.
pub open spec fn quote_end(s: Seq<char>, i: int) -> int
    decreases s.len() - i,
{
    if i < 0 || i >= s.len() {
        s.len() as int
    } else if s[i] == '"' {
        i
    } else {
        quote_end(s, i + 1)
    }
}

/// Bounds of the scanning functions.
pub proof fn lemma_scan_bounds(s: Seq<char>, i: int)
    ensures
        0 <= i <= s.len() ==> i <= skip_ws(s, i) <= s.len(),
        0 <= i <= s.len() ==> i <= ident_end(s, i) <= s.len(),
        0 <= i <= s.len() ==> i <= digits_end(s, i) <= s.len(),
        0 <= i <= s.len() ==> i <= quote_end(s, i) <= s.len(),
    decreases s.len() - i,
{
    if 0 <= i < s.len() {
        lemma_scan_bounds(s, i + 1);
    }
}

/// Everything before the end of a digit run is a digit.
pub proof fn lemma_digits_range(s: Seq<char>, i: int)
    ensures
        forall|j: int| i <= j < digits_end(s, i) ==> is_digit(#[trigger] s[j]),
    decreases s.len() - i,
{
    if 0 <= i < s.len() && is_digit(s[i]) {
        lemma_digits_range(s, i + 1);
    }
}

/// Numeric value of a digit character.
pub open spec fn digit_of(c: char) -> int {
    (c as u32) as int - ('0' as u32) as int
}

/// Value of the digits between `i` and `end`, appended to `acc`; once the
/// value passes the largest 64-bit signed integer it stays pinned just
/// above it, which marks the literal as overflowing.
pub open spec fn digits_val(s: Seq<char>, i: int, end: int, acc: int) -> int
    decreases end - i,
{
    if i < 0 || i >= end {
        acc
    } else {
        let a2 = acc * 10 + digit_of(s[i]);
        let a3 = if a2 > i64::MAX {
            i64::MAX + 1
        } else {
            a2
        };
        digits_val(s, i + 1, end, a3)
    }
}

/// The keyword token for a reserved word, or an identifier token.
pub open spec fn keyword_or_ident(w: Seq<char>) -> TokenV {
    if w == "let"@ {
        TokenV::Let
    } else if w == "return"@ {
        TokenV::Return
    } else if w == "if"@ {
        TokenV::If
    } else if w == "else"@ {
        TokenV::Else
    } else if w == "fn"@ {
        TokenV::Fn
    } else if w == "true"@ {
        TokenV::True
    } else if w == "false"@ {
        TokenV::False
    } else {
        TokenV::Ident(w)
    }
}

/// The token starting at index `j`, which holds no whitespace, and the
/// index just past it; nothing if the text there is not a token.
pub open spec fn scan_token(s: Seq<char>, j: int) -> Option<(TokenV, int)> {
    let c = s[j];
    if is_ident_start(c) {
        let e = ident_end(s, j);
        Some((keyword_or_ident(s.subrange(j, e)), e))
    } else if is_digit(c) {
        let e = digits_end(s, j);
        let v = digits_val(s, j, e, 0);
        if v > i64::MAX {
            None
        } else {
            Some((TokenV::Int(v as i64), e))
        }
    } else if c == '"' {
        let e = quote_end(s, j + 1);
        if e >= s.len() {
            None
        } else {
            Some((TokenV::StrLit(s.subrange(j + 1, e)), e + 1))
        }
    } else if c == '=' {
        if j + 1 < s.len() && s[j + 1] == '=' {
            Some((TokenV::Eq, j + 2))
        } else {
            Some((TokenV::Assign, j + 1))
        }
    } else if c == '!' {
        if j + 1 < s.len() && s[j + 1] == '=' {
            Some((TokenV::NotEq, j + 2))
        } else {
            Some((TokenV::Bang, j + 1))
        }
    } else if c == '+' {
        Some((TokenV::Plus, j + 1))
    } else if c == '-' {
        Some((TokenV::Minus, j + 1))
    } else if c == '*' {
        Some((TokenV::Star, j + 1))
    } else if c == '/' {
        Some((TokenV::Slash, j + 1))
    } else if c == '<' {
        Some((TokenV::Lt, j + 1))
    } else if c == '>' {
        Some((TokenV::Gt, j + 1))
    } else if c == '(' {
        Some((TokenV::LParen, j + 1))
    } else if c == ')' {
        Some((TokenV::RParen, j + 1))
    } else if c == '{' {
        Some((TokenV::LBrace, j + 1))
    } else if c == '}' {
        Some((TokenV::RBrace, j + 1))
    } else if c == '[' {
        Some((TokenV::LBracket, j + 1))
    } else if c == ']' {
        Some((TokenV::RBracket, j + 1))
    } else if c == ',' {
        Some((TokenV::Comma, j + 1))
    } else if c == ';' {
        Some((TokenV::Semicolon, j + 1))
    } else if c == ':' {
        Some((TokenV::Colon, j + 1))
    } else {
        None
    }
}

/// The tokens of the text from index `i` on; nothing if the text cannot
/// be tokenized.
pub open spec fn lex_from(s: Seq<char>, i: int) -> Option<Seq<TokenV>>
    decreases s.len() - i,
{
    if i < 0 {
        None
    } else {
        let j = skip_ws(s, i);
        if j >= s.len() {
            Some(Seq::empty())
        } else {
            match scan_token(s, j) {
                None => None,
                Some((t, e)) => if i <= j && j < e && e <= s.len() {
                    match lex_from(s, e) {
                        None => None,
                        Some(rest) => Some(seq![t] + rest),
                    }
                } else {
                    None
                },
            }
        }
    }
}

/// The tokens of a whole source text, if it lexes.
pub open spec fn spec_tokenize(s: Seq<char>) -> Option<Seq<TokenV>> {
    lex_from(s, 0)
}

/// The first index at or after `i` holding something other than
/// whitespace.
fn skip_ws_exec(chars: &Vec<char>, i: usize) -> (r: usize)
    requires
        i <= chars.len(),
    ensures
        r == skip_ws(chars@, i as int),
        i <= r <= chars.len(),
{
    let mut k = i;
    while k < chars.len() && (chars[k] == ' ' || chars[k] == '\t' || chars[k] == '\r' || chars[k]
        == '\n')
        invariant
            i <= k <= chars.len(),
            skip_ws(chars@, i as int) == skip_ws(chars@, k as int),
        decreases chars.len() - k,
    {
        k = k + 1;
    }
    k
}

/// Whether a character may continue an identifier.
fn is_ident_char_exec(c: char) -> (r: bool)
    ensures
        r == is_ident_char(c),
{
    ('a' <= c && c <= 'z') || ('A' <= c && c <= 'Z') || c == '_' || ('0' <= c && c <= '9')
}

/// The first index at or after `i` that cannot continue an identifier.
fn ident_end_exec(chars: &Vec<char>, i: usize) -> (r: usize)
    requires
        i <= chars.len(),
    ensures
        r == ident_end(chars@, i as int),
        i <= r <= chars.len(),
{
    let mut k = i;
    while k < chars.len() && is_ident_char_exec(chars[k])
        invariant
            i <= k <= chars.len(),
            ident_end(chars@, i as int) == ident_end(chars@, k as int),
        decreases chars.len() - k,
    {
        k = k + 1;
    }
    k
}

/// The first index at or after `i` holding a non-digit.
fn digits_end_exec(chars: &Vec<char>, i: usize) -> (r: usize)
    requires
        i <= chars.len(),
    ensures
        r == digits_end(chars@, i as int),
        i <= r <= chars.len(),
{
    let mut k = i;
    while k < chars.len() && '0' <= chars[k] && chars[k] <= '9'
        invariant
            i <= k <= chars.len(),
            digits_end(chars@, i as int) == digits_end(chars@, k as int),
        decreases chars.len() - k,
    {
        k = k + 1;
    }
    k
}

/// The first index at or after `i` holding a double quote, or the length.
fn quote_end_exec(chars: &Vec<char>, i: usize) -> (r: usize)
    requires
        i <= chars.len(),
    ensures
        r == quote_end(chars@, i as int),
        i <= r <= chars.len(),
{
    let mut k = i;
    while k < chars.len() && chars[k] != '"'
        invariant
            i <= k <= chars.len(),
            quote_end(chars@, i as int) == quote_end(chars@, k as int),
        decreases chars.len() - k,
    {
        k = k + 1;
    }
    k
}

/// Value of the digits between `i` and `end`, pinned just above the
/// largest 64-bit signed integer on overflow.
fn digits_val_exec(chars: &Vec<char>, i: usize, end: usize) -> (r: u128)
    requires
        i <= end <= chars.len(),
        digits_end(chars@, i as int) >= end,
    ensures
        r as int == digits_val(chars@, i as int, end as int, 0),
{
    proof {
        lemma_digits_range(chars@, i as int);
    }
    let cap: u128 = 9223372036854775807;
    let mut acc: u128 = 0;
    let mut k = i;
    while k < end
        invariant
            i <= k <= end <= chars.len(),
            cap == 9223372036854775807,
            acc <= cap + 1,
            forall|j: int| i <= j < end ==> is_digit(#[trigger] chars@[j]),
            digits_val(chars@, k as int, end as int, acc as int) == digits_val(
                chars@,
                i as int,
                end as int,
                0,
            ),
        decreases end - k,
    {
        proof {
            assert(is_digit(chars@[k as int]));
        }
        let d: u32 = (chars[k] as u32) - ('0' as u32);
        let a2: u128 = acc * 10 + (d as u128);
        acc = if a2 > cap {
            cap + 1
        } else {
            a2
        };
        k = k + 1;
    }
    acc
}

/// The keyword token for a reserved word, or an identifier token.
fn keyword_or_ident_exec(w: String) -> (r: Token)
    ensures
        r@ == keyword_or_ident(w@),
{
    if str_eq(w.as_str(), "let") {
        Token::Let
    } else if str_eq(w.as_str(), "return") {
        Token::Return
    } else if str_eq(w.as_str(), "if") {
        Token::If
    } else if str_eq(w.as_str(), "else") {
        Token::Else
    } else if str_eq(w.as_str(), "fn") {
        Token::Fn
    } else if str_eq(w.as_str(), "true") {
        Token::True
    } else if str_eq(w.as_str(), "false") {
        Token::False
    } else {
        Token::Ident(w)
    }
}

/// A lexing error naming the position of the offending character.
fn lex_error_at(what: &str, pos: usize) -> (r: String)
{
    let mut m = what.to_owned();
    m.append(" at position ");
    let p = u64_dec_string(pos as u64);
    m.append(p.as_str());
    m
}

/// Whether the composed lexing of `s` from the start agrees with the
/// tokens `done` followed by lexing from `i` on.
pub open spec fn lex_composes(s: Seq<char>, i: int, done: Seq<TokenV>) -> bool {
    match lex_from(s, i) {
        Some(rest) => lex_from(s, 0) == Some(done + rest),
        None => lex_from(s, 0) is None,
    }
}

/// The tokens of a whole source text; an error if some of it is not a
/// token, a string literal is unterminated, or an integer literal
/// overflows.
pub fn tokenize(input: &str) -> (r: Result<Vec<Token>, String>)
    ensures
        match (r, spec_tokenize(input@)) {
            (Ok(ts), Some(tsv)) => tokens_view(ts@, 0) == tsv,
            (Err(_), None) => true,
            _ => false,
        },
{
    let chars = str_chars(input);
    let ghost s = input@;
    let mut acc: Vec<Token> = Vec::new();
    let mut i: usize = 0;
    proof {
        lemma_tokens_view(acc@, 0);
        assert(lex_composes(s, i as int, tokens_view(acc@, 0)));
    }
    loop
        invariant
            s == input@,
            chars@ == s,
            i <= chars.len(),
            lex_composes(s, i as int, tokens_view(acc@, 0)),
        decreases chars.len() - i,
    {
        let j = skip_ws_exec(&chars, i);
        if j >= chars.len() {
            proof {
                lemma_tokens_view(acc@, 0);
                assert(lex_from(s, i as int) == Some(Seq::<TokenV>::empty()));
                assert(tokens_view(acc@, 0) + Seq::<TokenV>::empty() =~= tokens_view(acc@, 0));
            }
            return Ok(acc);
        }
        let c = chars[j];
        let tok: Token;
        let e: usize;
        if is_ident_char_exec(c) && !('0' <= c && c <= '9') {
            let w_end = ident_end_exec(&chars, j);
            let w = input.substring_char(j, w_end).to_owned();
            tok = keyword_or_ident_exec(w);
            e = w_end;
        } else if '0' <= c && c <= '9' {
            let d_end = digits_end_exec(&chars, j);
            let v = digits_val_exec(&chars, j, d_end);
            if v > 9223372036854775807 {
                return Err(lex_error_at("integer literal out of range", j));
            }
            tok = Token::Int(v as i64);
            e = d_end;
        } else if c == '"' {
            let q = quote_end_exec(&chars, j + 1);
            if q >= chars.len() {
                return Err(lex_error_at("unterminated string literal", j));
            }
            let w = input.substring_char(j + 1, q).to_owned();
            tok = Token::StrLit(w);
            e = q + 1;
        } else if c == '=' {
            if j + 1 < chars.len() && chars[j + 1] == '=' {
                tok = Token::Eq;
                e = j + 2;
            } else {
                tok = Token::Assign;
                e = j + 1;
            }
        } else if c == '!' {
            if j + 1 < chars.len() && chars[j + 1] == '=' {
                tok = Token::NotEq;
                e = j + 2;
            } else {
                tok = Token::Bang;
                e = j + 1;
            }
        } else if c == '+' {
            tok = Token::Plus;
            e = j + 1;
        } else if c == '-' {
            tok = Token::Minus;
            e = j + 1;
        } else if c == '*' {
            tok = Token::Star;
            e = j + 1;
        } else if c == '/' {
            tok = Token::Slash;
            e = j + 1;
        } else if c == '<' {
            tok = Token::Lt;
            e = j + 1;
        } else if c == '>' {
            tok = Token::Gt;
            e = j + 1;
        } else if c == '(' {
            tok = Token::LParen;
            e = j + 1;
        } else if c == ')' {
            tok = Token::RParen;
            e = j + 1;
        } else if c == '{' {
            tok = Token::LBrace;
            e = j + 1;
        } else if c == '}' {
            tok = Token::RBrace;
            e = j + 1;
        } else if c == '[' {
            tok = Token::LBracket;
            e = j + 1;
        } else if c == ']' {
            tok = Token::RBracket;
            e = j + 1;
        } else if c == ',' {
            tok = Token::Comma;
            e = j + 1;
        } else if c == ';' {
            tok = Token::Semicolon;
            e = j + 1;
        } else if c == ':' {
            tok = Token::Colon;
            e = j + 1;
        } else {
            return Err(lex_error_at("unexpected character", j));
        }
        proof {
            lemma_scan_bounds(s, j as int);
            lemma_scan_bounds(s, j as int + 1);
            assert(scan_token(s, j as int) == Some((tok@, e as int)));
            assert(lex_from(s, i as int) == match lex_from(s, e as int) {
                None => None::<Seq<TokenV>>,
                Some(rest) => Some(seq![tok@] + rest),
            });
        }
        let ghost acc_before = acc@;
        acc.push(tok);
        proof {
            lemma_tokens_view(acc@, 0);
            lemma_tokens_view(acc_before, 0);
            assert(tokens_view(acc@, 0) =~= tokens_view(acc_before, 0).push(tok@));
            if lex_from(s, e as int) is Some {
                let rest = lex_from(s, e as int)->Some_0;
                assert(tokens_view(acc_before, 0) + (seq![tok@] + rest) =~= tokens_view(acc@, 0)
                    + rest);
            }
        }
        i = e;
    }
}

} // verus!
