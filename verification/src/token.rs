//! The tokens of the shell's line syntax, and the lexer that finds them in
//! a text.

use vstd::prelude::*;
use vstd::string::StringSliceAdditionalSpecFns;
use vstd::utf8::{
    decode_utf8, encode_utf8, encode_utf8_decode_utf8, encode_utf8_valid_utf8,
    is_char_boundary_iff_not_is_continuation_byte, valid_utf8_split,
};
use crate::text::{chars_of, push_char, str_eq};

verus! {

/// A token.
#[derive(Debug, PartialEq)]
pub enum Token {
    Let,
    Print,
    List,
    Types,
    Type,
    Ident(String),
    Number(i64),
    StringLit(String),
    Eq,
    Plus,
    Minus,
    Star,
    Slash,
    LParen,
    RParen,
    Semi,
    Newline,
}

/// A token between the byte offsets of its first byte and of the byte
/// behind its last.
pub type Spanned = (usize, Token, usize);

/// The model of a token.
pub enum TokenModel {
    Let,
    Print,
    List,
    Types,
    Type,
    Ident(Seq<char>),
    Number(i64),
    StringLit(Seq<char>),
    Eq,
    Plus,
    Minus,
    Star,
    Slash,
    LParen,
    RParen,
    Semi,
    Newline,
}

/// The model of a token with its place.
pub type SpannedModel = (int, TokenModel, int);

impl Token {
    pub open spec fn view(&self) -> TokenModel {
        match self {
            Token::Let => TokenModel::Let,
            Token::Print => TokenModel::Print,
            Token::List => TokenModel::List,
            Token::Types => TokenModel::Types,
            Token::Type => TokenModel::Type,
            Token::Ident(s) => TokenModel::Ident(s@),
            Token::Number(n) => TokenModel::Number(*n),
            Token::StringLit(s) => TokenModel::StringLit(s@),
            Token::Eq => TokenModel::Eq,
            Token::Plus => TokenModel::Plus,
            Token::Minus => TokenModel::Minus,
            Token::Star => TokenModel::Star,
            Token::Slash => TokenModel::Slash,
            Token::LParen => TokenModel::LParen,
            Token::RParen => TokenModel::RParen,
            Token::Semi => TokenModel::Semi,
            Token::Newline => TokenModel::Newline,
        }
    }
}

impl Clone for Token {
    fn clone(&self) -> (r: Self)
        ensures
            r.view() == self.view(),
    {
        match self {
            Token::Let => Token::Let,
            Token::Print => Token::Print,
            Token::List => Token::List,
            Token::Types => Token::Types,
            Token::Type => Token::Type,
            Token::Ident(s) => Token::Ident(s.clone()),
            Token::Number(n) => Token::Number(*n),
            Token::StringLit(s) => Token::StringLit(s.clone()),
            Token::Eq => Token::Eq,
            Token::Plus => Token::Plus,
            Token::Minus => Token::Minus,
            Token::Star => Token::Star,
            Token::Slash => Token::Slash,
            Token::LParen => Token::LParen,
            Token::RParen => Token::RParen,
            Token::Semi => Token::Semi,
            Token::Newline => Token::Newline,
        }
    }
}

/// The model of a sequence of tokens with their places.
pub open spec fn tokens_view(s: Seq<Spanned>) -> Seq<SpannedModel> {
    Seq::new(s.len(), |i: int| (s[i].0 as int, s[i].1.view(), s[i].2 as int))
}

/// The classes of bytes of which a token may hold a run.
#[derive(Clone, Copy, PartialEq, Eq)]
pub enum ByteClass {
    /// Blank, tab, carriage return, form feed.
    Space,
    /// Letters, digits, underscore.
    Word,
    /// Digits.
    Digit,
    /// All but the line feed.
    Line,
}

/// Whether the byte is a decimal digit.
pub open spec fn is_digit(b: u8) -> bool {
    48 <= b <= 57
}

/// Whether the byte is a letter or an underscore.
pub open spec fn is_word_start(b: u8) -> bool {
    (97 <= b <= 122) || (65 <= b <= 90) || b == 95
}

/// Whether the byte belongs to the class.
pub open spec fn in_class(k: ByteClass, b: u8) -> bool {
    match k {
        ByteClass::Space => b == 32 || b == 9 || b == 13 || b == 12,
        ByteClass::Word => is_word_start(b) || is_digit(b),
        ByteClass::Digit => is_digit(b),
        ByteClass::Line => b != 10,
    }
}

/// The end of the longest run of bytes of the class that starts at `i`.
pub open spec fn run_end(b: Seq<u8>, i: int, k: ByteClass) -> int
    decreases b.len() - i,
{
    if 0 <= i < b.len() && in_class(k, b[i]) {
        run_end(b, i + 1, k)
    } else {
        i
    }
}

/// Where a string literal ends whose inside is scanned from `j` on: behind
/// the first quote that no backslash stands before. A backslash takes the
/// next character with it, which may not be a line feed. Nothing where the
/// literal does not end.
pub open spec fn string_end(b: Seq<u8>, j: int) -> Option<int>
    decreases b.len() - j,
{
    if j < 0 || j >= b.len() {
        None
    } else if b[j] == 34 {
        Some(j + 1)
    } else if b[j] == 92 {
        if j + 1 < b.len() && b[j + 1] != 10 {
            string_end(b, j + 2)
        } else {
            None
        }
    } else {
        string_end(b, j + 1)
    }
}

/// The text between the quotes of a string literal with the escapes
/// replaced: `\n`, `\t`, `\r`, `\"` and `\\` by the character they stand
/// for; any other backslash stays, with what follows it.
pub open spec fn unescaped(s: Seq<char>) -> Seq<char>
    decreases s.len(),
{
    if s.len() == 0 {
        Seq::empty()
    } else if s[0] == '\\' {
        if s.len() == 1 {
            seq!['\\']
        } else {
            let rest = unescaped(s.skip(2));
            if s[1] == 'n' {
                seq!['\n'] + rest
            } else if s[1] == 't' {
                seq!['\t'] + rest
            } else if s[1] == 'r' {
                seq!['\r'] + rest
            } else if s[1] == '"' {
                seq!['"'] + rest
            } else if s[1] == '\\' {
                seq!['\\'] + rest
            } else {
                seq!['\\', s[1]] + rest
            }
        }
    } else {
        seq![s[0]] + unescaped(s.skip(1))
    }
}

/// The characters of bytes that are all ASCII.
pub open spec fn ascii_text(b: Seq<u8>) -> Seq<char> {
    Seq::new(b.len(), |i: int| b[i] as char)
}

/// The token of a word: a keyword where the word is one, an identifier otherwise.
pub open spec fn word_token(text: Seq<char>) -> TokenModel {
    if text == "let"@ {
        TokenModel::Let
    } else if text == "print"@ {
        TokenModel::Print
    } else if text == "list"@ {
        TokenModel::List
    } else if text == "types"@ {
        TokenModel::Types
    } else if text == "type"@ {
        TokenModel::Type
    } else {
        TokenModel::Ident(text)
    }
}

/// The number that decimal digits stand for.
pub open spec fn digits_value(d: Seq<u8>) -> nat
    decreases d.len(),
{
    if d.len() == 0 {
        0
    } else {
        digits_value(d.drop_last()) * 10 + (d.last() - 48) as nat
    }
}

/// The 64-bit number that decimal digits stand for, with a minus sign
/// before them or without; nothing where it does not fit.
pub open spec fn number_value(d: Seq<u8>, negative: bool) -> Option<i64> {
    let v = digits_value(d);
    if negative {
        if v <= 0x8000_0000_0000_0000 {
            Some((-v) as i64)
        } else {
            None
        }
    } else {
        if v <= 0x7fff_ffff_ffff_ffff {
            Some(v as i64)
        } else {
            None
        }
    }
}

/// What stands at a place of the text.
pub enum Lexeme {
    /// Blanks or a comment, up to the given end.
    Skip(int),
    /// A token, up to the given end.
    Token(TokenModel, int),
    /// Nothing that the syntax knows.
    Bad,
}

/// The token of a number, or nothing where the number does not fit in 64 bits.
pub open spec fn number_lexeme(d: Seq<u8>, negative: bool, end: int) -> Lexeme {
    match number_value(d, negative) {
        Some(v) => Lexeme::Token(TokenModel::Number(v), end),
        None => Lexeme::Bad,
    }
}

/// The characters between the quotes of the string literal from `i` to `end`.
pub open spec fn string_content(b: Seq<u8>, i: int, end: int) -> Seq<char> {
    decode_utf8(b.subrange(i, end - 1)).drop_first()
}

/// What stands at place `i`: the longest thing that the syntax knows, a
/// keyword rather than an identifier of the same length.
pub open spec fn lexeme_at(b: Seq<u8>, i: int) -> Lexeme
    recommends
        0 <= i < b.len(),
{
    let c = b[i];
    if in_class(ByteClass::Space, c) {
        Lexeme::Skip(run_end(b, i + 1, ByteClass::Space))
    } else if c == 47 && i + 1 < b.len() && b[i + 1] == 47 {
        Lexeme::Skip(run_end(b, i + 2, ByteClass::Line))
    } else if c == 10 {
        Lexeme::Token(TokenModel::Newline, i + 1)
    } else if is_word_start(c) {
        let end = run_end(b, i + 1, ByteClass::Word);
        Lexeme::Token(word_token(ascii_text(b.subrange(i, end))), end)
    } else if is_digit(c) {
        let end = run_end(b, i + 1, ByteClass::Digit);
        number_lexeme(b.subrange(i, end), false, end)
    } else if c == 45 && i + 1 < b.len() && is_digit(b[i + 1]) {
        let end = run_end(b, i + 2, ByteClass::Digit);
        number_lexeme(b.subrange(i + 1, end), true, end)
    } else if c == 34 {
        match string_end(b, i + 1) {
            Some(end) => Lexeme::Token(
                TokenModel::StringLit(unescaped(string_content(b, i, end))),
                end,
            ),
            None => Lexeme::Bad,
        }
    } else if c == 61 {
        Lexeme::Token(TokenModel::Eq, i + 1)
    } else if c == 43 {
        Lexeme::Token(TokenModel::Plus, i + 1)
    } else if c == 45 {
        Lexeme::Token(TokenModel::Minus, i + 1)
    } else if c == 42 {
        Lexeme::Token(TokenModel::Star, i + 1)
    } else if c == 47 {
        Lexeme::Token(TokenModel::Slash, i + 1)
    } else if c == 40 {
        Lexeme::Token(TokenModel::LParen, i + 1)
    } else if c == 41 {
        Lexeme::Token(TokenModel::RParen, i + 1)
    } else if c == 59 {
        Lexeme::Token(TokenModel::Semi, i + 1)
    } else {
        Lexeme::Bad
    }
}

/// A run ends at or behind its start, within the text.
pub proof fn lemma_run_end(b: Seq<u8>, i: int, k: ByteClass)
    requires
        0 <= i <= b.len(),
    ensures
        i <= run_end(b, i, k) <= b.len(),
        forall|j: int| i <= j < run_end(b, i, k) ==> in_class(k, #[trigger] b[j]),
        run_end(b, i, k) < b.len() ==> !in_class(k, b[run_end(b, i, k)]),
    decreases b.len() - i,
{
    if i < b.len() && in_class(k, b[i]) {
        lemma_run_end(b, i + 1, k);
    }
}

/// A string literal ends behind the place from which its inside is
/// scanned, within the text, at a quote.
pub proof fn lemma_string_end(b: Seq<u8>, j: int)
    requires
        0 <= j,
    ensures
        string_end(b, j) is Some ==> j < string_end(b, j)->0 <= b.len() && b[string_end(b, j)->0
            - 1] == 34,
    decreases b.len() - j,
{
    if j < b.len() && b[j] != 34 {
        if b[j] == 92 {
            if j + 1 < b.len() && b[j + 1] != 10 {
                lemma_string_end(b, j + 2);
            }
        } else {
            lemma_string_end(b, j + 1);
        }
    }
}

/// What stands at a place ends behind the place, within the text.
pub proof fn lemma_lexeme_advances(b: Seq<u8>, i: int)
    requires
        0 <= i < b.len(),
    ensures
        match lexeme_at(b, i) {
            Lexeme::Skip(end) => i < end <= b.len(),
            Lexeme::Token(_, end) => i < end <= b.len(),
            Lexeme::Bad => true,
        },
{
    lemma_run_end(b, i + 1, ByteClass::Space);
    lemma_run_end(b, i + 1, ByteClass::Word);
    lemma_run_end(b, i + 1, ByteClass::Digit);
    if i + 1 < b.len() {
        lemma_run_end(b, i + 2, ByteClass::Line);
        lemma_run_end(b, i + 2, ByteClass::Digit);
    }
    lemma_string_end(b, i + 1);
}

/// The tokens from place `i` on, after `acc`; the place of the first thing
/// that the syntax does not know, where there is one.
pub open spec fn lex_from(b: Seq<u8>, i: int, acc: Seq<SpannedModel>) -> Result<
    Seq<SpannedModel>,
    int,
>
    decreases b.len() - i,
{
    if i < 0 || i >= b.len() {
        Ok(acc)
    } else {
        proof {
            lemma_lexeme_advances(b, i);
        }
        match lexeme_at(b, i) {
            Lexeme::Skip(end) => lex_from(b, end, acc),
            Lexeme::Token(t, end) => lex_from(b, end, acc.push((i, t, end))),
            Lexeme::Bad => Err(i),
        }
    }
}

/// Whether tokens stand in the order of the text, none over another, each
/// with at least one byte, and all before `end`.
pub open spec fn in_order(tokens: Seq<SpannedModel>, end: int) -> bool {
    &&& forall|j: int| 0 <= j < tokens.len() ==> 0 <= (#[trigger] tokens[j]).0 < tokens[j].2 <= end
    &&& forall|j: int, k: int|
        0 <= j < k < tokens.len() ==> (#[trigger] tokens[j]).2 <= (#[trigger] tokens[k]).0
}

/// The tokens that the lexer finds from place `i` on stand in the order of
/// the text behind those found before, within the text.
pub proof fn lemma_lex_from_in_order(b: Seq<u8>, i: int, acc: Seq<SpannedModel>)
    requires
        0 <= i <= b.len(),
        in_order(acc, i),
    ensures
        lex_from(b, i, acc) is Ok ==> in_order(lex_from(b, i, acc)->Ok_0, b.len() as int),
    decreases b.len() - i,
{
    if i < b.len() {
        lemma_lexeme_advances(b, i);
        match lexeme_at(b, i) {
            Lexeme::Skip(end) => {
                lemma_lex_from_in_order(b, end, acc);
            },
            Lexeme::Token(t, end) => {
                let next = acc.push((i, t, end));
                assert forall|j: int, k: int| 0 <= j < k < next.len() implies (
                #[trigger] next[j]).2 <= (#[trigger] next[k]).0 by {
                    if k == acc.len() {
                        assert(next[j] == acc[j]);
                    } else {
                        assert(next[j] == acc[j] && next[k] == acc[k]);
                    }
                }
                assert forall|j: int| 0 <= j < next.len() implies 0 <= (#[trigger] next[j]).0
                    < next[j].2 <= end by {
                    if j < acc.len() {
                        assert(next[j] == acc[j]);
                    }
                }
                lemma_lex_from_in_order(b, end, next);
            },
            Lexeme::Bad => {},
        }
    }
}

/// The tokens of a text stand in the order of the text, none over another,
/// each within the text.
pub proof fn law_lex_in_order(b: Seq<u8>)
    ensures
        lex_model(b) is Ok ==> in_order(lex_model(b)->Ok_0, b.len() as int),
{
    lemma_lex_from_in_order(b, 0, Seq::empty());
}

/// The tokens of a text given by its bytes.
pub open spec fn lex_model(b: Seq<u8>) -> Result<Seq<SpannedModel>, int> {
    lex_from(b, 0, Seq::empty())
}

/// The model of what the lexer hands back.
pub open spec fn lex_result_view(r: Result<Vec<Spanned>, usize>) -> Result<Seq<SpannedModel>, int> {
    match r {
        Ok(v) => Ok(tokens_view(v@)),
        Err(at) => Err(at as int),
    }
}

fn class_has(k: ByteClass, b: u8) -> (r: bool)
    ensures
        r == in_class(k, b),
{
    match k {
        ByteClass::Space => b == 32 || b == 9 || b == 13 || b == 12,
        ByteClass::Word => (97 <= b && b <= 122) || (65 <= b && b <= 90) || b == 95 || (48 <= b
            && b <= 57),
        ByteClass::Digit => 48 <= b && b <= 57,
        ByteClass::Line => b != 10,
    }
}

/// The end of the longest run of bytes of the class that starts at `i`.
fn scan(bytes: &[u8], i: usize, k: ByteClass) -> (end: usize)
    requires
        i <= bytes@.len(),
    ensures
        end == run_end(bytes@, i as int, k),
        i <= end <= bytes@.len(),
{
    let mut j: usize = i;
    while j < bytes.len() && class_has(k, bytes[j])
        invariant
            i <= j <= bytes@.len(),
            run_end(bytes@, i as int, k) == run_end(bytes@, j as int, k),
        decreases bytes@.len() - j,
    {
        j += 1;
    }
    j
}

/// Where the string literal ends whose inside starts at `from`.
fn scan_string(bytes: &[u8], from: usize) -> (r: Option<usize>)
    requires
        from <= bytes@.len(),
    ensures
        match r {
            Some(end) => string_end(bytes@, from as int) == Some(end as int),
            None => string_end(bytes@, from as int).is_none(),
        },
{
    let mut j: usize = from;
    while j < bytes.len()
        invariant
            from <= j <= bytes@.len(),
            string_end(bytes@, from as int) == string_end(bytes@, j as int),
        decreases bytes@.len() - j,
    {
        let c = bytes[j];
        if c == 34 {
            return Some(j + 1);
        } else if c == 92 {
            if j + 1 < bytes.len() && bytes[j + 1] != 10 {
                j += 2;
            } else {
                return None;
            }
        } else {
            j += 1;
        }
    }
    None
}

/// The bytes from `from` to `to`, which are ASCII, as a string.
fn ascii_string(bytes: &[u8], from: usize, to: usize) -> (r: String)
    requires
        from <= to <= bytes@.len(),
        forall|j: int| from <= j < to ==> #[trigger] bytes@[j] < 128,
    ensures
        r@ == ascii_text(bytes@.subrange(from as int, to as int)),
{
    let mut out = String::new();
    let mut j: usize = from;
    while j < to
        invariant
            from <= j <= to <= bytes@.len(),
            out@ =~= ascii_text(bytes@.subrange(from as int, j as int)),
        decreases to - j,
    {
        push_char(&mut out, bytes[j] as char);
        j += 1;
    }
    out
}

/// The token of a word.
fn word(text: String) -> (r: Token)
    ensures
        r.view() == word_token(text@),
{
    if str_eq(text.as_str(), "let") {
        Token::Let
    } else if str_eq(text.as_str(), "print") {
        Token::Print
    } else if str_eq(text.as_str(), "list") {
        Token::List
    } else if str_eq(text.as_str(), "types") {
        Token::Types
    } else if str_eq(text.as_str(), "type") {
        Token::Type
    } else {
        Token::Ident(text)
    }
}

/// Digits stand for no less than any of their beginnings.
pub proof fn lemma_digits_grow(d: Seq<u8>, k: int)
    requires
        0 <= k <= d.len(),
        forall|j: int| 0 <= j < d.len() ==> is_digit(#[trigger] d[j]),
    ensures
        digits_value(d.take(k)) <= digits_value(d),
    decreases d.len() - k,
{
    if k < d.len() {
        lemma_digits_grow(d, k + 1);
        assert(d.take(k + 1).drop_last() =~= d.take(k));
    } else {
        assert(d.take(k) =~= d);
    }
}

/// The 64-bit number that the digits from `from` to `to` stand for.
fn number(bytes: &[u8], from: usize, to: usize, negative: bool) -> (r: Option<i64>)
    requires
        from <= to <= bytes@.len(),
        forall|j: int| from <= j < to ==> is_digit(#[trigger] bytes@[j]),
    ensures
        r == number_value(bytes@.subrange(from as int, to as int), negative),
{
    let ghost d = bytes@.subrange(from as int, to as int);
    let mut acc: u64 = 0;
    let mut j: usize = from;
    assert(d.take(0) =~= Seq::<u8>::empty());
    while j < to
        invariant
            from <= j <= to <= bytes@.len(),
            d == bytes@.subrange(from as int, to as int),
            forall|k: int| 0 <= k < d.len() ==> is_digit(#[trigger] d[k]),
            acc == digits_value(d.take(j - from)),
            acc <= 0x8000_0000_0000_0000,
        decreases to - j,
    {
        assert(d[j - from] == bytes@[j as int]);
        let digit: u64 = (bytes[j] - 48) as u64;
        proof {
            assert(d.take(j - from + 1).drop_last() =~= d.take(j - from));
            assert(d.take(j - from + 1).last() == bytes@[j as int]);
            lemma_digits_grow(d, j - from + 1);
        }
        if acc > (0x8000_0000_0000_0000u64 - digit) / 10 {
            assert(acc * 10 + digit > 0x8000_0000_0000_0000);
            return None;
        }
        acc = acc * 10 + digit;
        j += 1;
    }
    assert(d.take(to - from) =~= d);
    if negative {
        if acc == 0x8000_0000_0000_0000 {
            Some(i64::MIN)
        } else {
            Some(-(acc as i64))
        }
    } else {
        if acc <= 0x7fff_ffff_ffff_ffff {
            Some(acc as i64)
        } else {
            None
        }
    }
}

/// The characters from `from` on with the escapes replaced.
fn unescape_chars(chars: &Vec<char>, from: usize) -> (r: String)
    requires
        from <= chars.len(),
    ensures
        r@ == unescaped(chars@.skip(from as int)),
{
    let mut out = String::new();
    let mut i: usize = from;
    let ghost whole = unescaped(chars@.skip(from as int));
    assert(out@ + whole =~= whole);
    while i < chars.len()
        invariant
            from <= i <= chars.len(),
            whole == out@ + unescaped(chars@.skip(i as int)),
        decreases chars.len() - i,
    {
        let ghost rest = chars@.skip(i as int);
        let ghost before = out@;
        let c = chars[i];
        if c == '\\' {
            if i + 1 < chars.len() {
                let n = chars[i + 1];
                assert(rest.skip(2) =~= chars@.skip(i + 2));
                if n == 'n' {
                    push_char(&mut out, '\n');
                } else if n == 't' {
                    push_char(&mut out, '\t');
                } else if n == 'r' {
                    push_char(&mut out, '\r');
                } else if n == '"' {
                    push_char(&mut out, '"');
                } else if n == '\\' {
                    push_char(&mut out, '\\');
                } else {
                    push_char(&mut out, '\\');
                    push_char(&mut out, n);
                }
                assert(out@ + unescaped(chars@.skip(i + 2)) =~= before + unescaped(rest));
                i += 2;
            } else {
                push_char(&mut out, '\\');
                assert(rest.skip(1) =~= chars@.skip(i + 1));
                assert(out@ + unescaped(chars@.skip(i + 1)) =~= before + unescaped(rest));
                i += 1;
            }
        } else {
            push_char(&mut out, c);
            assert(rest.skip(1) =~= chars@.skip(i + 1));
            assert(out@ + unescaped(chars@.skip(i + 1)) =~= before + unescaped(rest));
            i += 1;
        }
    }
    assert(out@ + Seq::<char>::empty() =~= out@);
    out
}

/// The text with the escapes replaced: `\n`, `\t`, `\r`, `\"` and `\\` by the
/// character they stand for.
pub fn unescape(s: &str) -> (r: String)
    ensures
        r@ == unescaped(s@),
{
    let chars = chars_of(s);
    assert(chars@.skip(0) =~= chars@);
    unescape_chars(&chars, 0)
}

/// The text of the string literal that stands from `i` to `end`.
fn literal(input: &str, i: usize, end: usize) -> (r: String)
    requires
        i + 1 < end <= input.spec_bytes().len(),
        input.spec_bytes()[i as int] == 34,
        input.spec_bytes()[end - 1] == 34,
    ensures
        r@ == unescaped(string_content(input.spec_bytes(), i as int, end as int)),
{
    let ghost b = input.spec_bytes();
    proof {
        encode_utf8_valid_utf8(input@);
        is_char_boundary_iff_not_is_continuation_byte(b, end - 1);
    }
    let (head, _) = input.split_at(end - 1);
    proof {
        valid_utf8_split(b, end - 1);
        assert(head.spec_bytes() == b.subrange(0, end - 1));
        is_char_boundary_iff_not_is_continuation_byte(head.spec_bytes(), i as int);
    }
    let (_, quoted) = head.split_at(i);
    proof {
        assert(quoted.spec_bytes() =~= b.subrange(i as int, end - 1));
        encode_utf8_decode_utf8(quoted@);
    }
    let chars = chars_of(quoted);
    proof {
        if chars@.len() == 0 {
            assert(encode_utf8(chars@).len() == 0);
        }
    }
    unescape_chars(&chars, 1)
}

/// The tokens of a text, each with the byte offsets of its start and end.
/// Blanks and comments from `//` to the end of the line stand between
/// tokens. The failure is the byte offset of the first thing that is no
/// token: a byte that starts none, a string literal that does not end, a
/// number that does not fit in 64 bits.
pub fn lex(input: &str) -> (r: Result<Vec<Spanned>, usize>)
    ensures
        lex_result_view(r) == lex_model(input.spec_bytes()),
{
    let bytes = input.as_bytes();
    let ghost b = input.spec_bytes();
    let mut out: Vec<Spanned> = Vec::new();
    let mut i: usize = 0;
    assert(tokens_view(out@) =~= Seq::<SpannedModel>::empty());
    while i < bytes.len()
        invariant
            bytes@ == b,
            b == input.spec_bytes(),
            i <= b.len(),
            lex_model(b) == lex_from(b, i as int, tokens_view(out@)),
        decreases b.len() - i,
    {
        let c = bytes[i];
        let ghost before = tokens_view(out@);
        proof {
            lemma_lexeme_advances(b, i as int);
        }
        let start = i;
        let mut found: Option<Token> = None;
        if class_has(ByteClass::Space, c) {
            i = scan(bytes, i + 1, ByteClass::Space);
        } else if c == 47 && i + 1 < bytes.len() && bytes[i + 1] == 47 {
            i = scan(bytes, i + 2, ByteClass::Line);
        } else if c == 10 {
            found = Some(Token::Newline);
            i = i + 1;
        } else if (97 <= c && c <= 122) || (65 <= c && c <= 90) || c == 95 {
            let end = scan(bytes, i + 1, ByteClass::Word);
            proof {
                lemma_run_end(b, i + 1, ByteClass::Word);
            }
            found = Some(word(ascii_string(bytes, i, end)));
            i = end;
        } else if 48 <= c && c <= 57 {
            let end = scan(bytes, i + 1, ByteClass::Digit);
            proof {
                lemma_run_end(b, i + 1, ByteClass::Digit);
            }
            match number(bytes, i, end, false) {
                Some(v) => {
                    found = Some(Token::Number(v));
                },
                None => {
                    return Err(start);
                },
            }
            i = end;
        } else if c == 45 && i + 1 < bytes.len() && 48 <= bytes[i + 1] && bytes[i + 1] <= 57 {
            let end = scan(bytes, i + 2, ByteClass::Digit);
            proof {
                lemma_run_end(b, i + 2, ByteClass::Digit);
            }
            match number(bytes, i + 1, end, true) {
                Some(v) => {
                    found = Some(Token::Number(v));
                },
                None => {
                    return Err(start);
                },
            }
            i = end;
        } else if c == 34 {
            match scan_string(bytes, i + 1) {
                Some(end) => {
                    proof {
                        lemma_string_end(b, i + 1);
                    }
                    found = Some(Token::StringLit(literal(input, i, end)));
                    i = end;
                },
                None => {
                    return Err(start);
                },
            }
        } else if c == 61 {
            found = Some(Token::Eq);
            i = i + 1;
        } else if c == 43 {
            found = Some(Token::Plus);
            i = i + 1;
        } else if c == 45 {
            found = Some(Token::Minus);
            i = i + 1;
        } else if c == 42 {
            found = Some(Token::Star);
            i = i + 1;
        } else if c == 47 {
            found = Some(Token::Slash);
            i = i + 1;
        } else if c == 40 {
            found = Some(Token::LParen);
            i = i + 1;
        } else if c == 41 {
            found = Some(Token::RParen);
            i = i + 1;
        } else if c == 59 {
            found = Some(Token::Semi);
            i = i + 1;
        } else {
            return Err(start);
        }
        match found {
            Some(t) => {
                out.push((start, t, i));
                assert(tokens_view(out@) =~= before.push((start as int, t.view(), i as int)));
            },
            None => {},
        }
    }
    Ok(out)
}

} // verus!
