//! The assembler's lexer: it splits the source at spaces, commas and line
//! breaks, and reads each word as a register name, a bracketed address, a
//! decimal number, or an identifier.

use crate::digits::{parse_dec_u32, spec_all_digits, spec_dec_value};
use crate::registers::{spec_register_from_chars, Register};
use vstd::prelude::*;

verus! {

/// A bracketed address operand, as written in assembly text.
#[derive(Clone, Copy, Debug, PartialEq, Eq, Structural)]
pub struct Address(pub u32);

/// A sized numeric literal: the smallest width that holds its value.
#[derive(Clone, Copy, Debug, PartialEq, Eq, Structural)]
pub enum Number {
    U8(u8),
    U16(u16),
    U32(u32),
}

/// The number a digit run denotes, in the smallest width that holds it.
pub open spec fn spec_number_of(v: int) -> Number {
    if v <= u8::MAX {
        Number::U8(v as u8)
    } else if v <= u16::MAX {
        Number::U16(v as u16)
    } else {
        Number::U32(v as u32)
    }
}

/// One word or separator of assembly text.
#[derive(Clone, Debug, PartialEq, Eq)]
pub enum Token {
    Register(Register),
    Number(Number),
    Address(Address),
    Identifier(String),
    Comma,
    Space,
}

/// The mathematical shape of a token: as [`Token`], with identifier text
/// as a character sequence.
pub enum TokenShape {
    Register(Register),
    Number(Number),
    Address(Address),
    Identifier(Seq<char>),
    Comma,
    Space,
}

impl View for Token {
    type V = TokenShape;

    open spec fn view(&self) -> TokenShape {
        match self {
            Token::Register(r) => TokenShape::Register(*r),
            Token::Number(n) => TokenShape::Number(*n),
            Token::Address(a) => TokenShape::Address(*a),
            Token::Identifier(t) => TokenShape::Identifier(t@),
            Token::Comma => TokenShape::Comma,
            Token::Space => TokenShape::Space,
        }
    }
}

/// Scanning a word for its first `]`: the index of that bracket (or the
/// length if there is none), and the index of the last `[` before it, if
/// any, continuing from an already-seen `[` at `open`.
pub open spec fn spec_scan_brackets(s: Seq<char>, i: int, open: Option<int>) -> (int, Option<int>)
    decreases s.len() - i
        when 0 <= i <= s.len()
{
    if i >= s.len() {
        (s.len() as int, open)
    } else if s[i] == ']' {
        (i, open)
    } else if s[i] == '[' {
        spec_scan_brackets(s, i + 1, Some(i))
    } else {
        spec_scan_brackets(s, i + 1, open)
    }
}

/// What a bracketed word denotes: the digits between the last `[` before
/// the first `]`, as an address.  Anything malformed reads as an
/// identifier.
pub open spec fn spec_bracket_token(w: Seq<char>) -> TokenShape {
    let (j, open) = spec_scan_brackets(w, 0, None);
    if j < w.len() {
        match open {
            Some(k) => {
                let inner = w.subrange(k + 1, j);
                if inner.len() > 0 && spec_all_digits(inner) && spec_dec_value(inner) <= u32::MAX {
                    TokenShape::Address(Address(spec_dec_value(inner) as u32))
                } else {
                    TokenShape::Identifier(w)
                }
            },
            None => TokenShape::Identifier(w),
        }
    } else {
        TokenShape::Identifier(w)
    }
}

/// The token a single word denotes: a bracketed address if the word holds
/// a `]`, else a register name, else a decimal number in its smallest
/// width, else an identifier.
pub open spec fn spec_lex_word(w: Seq<char>) -> TokenShape {
    let (j, _) = spec_scan_brackets(w, 0, None);
    if j < w.len() {
        spec_bracket_token(w)
    } else if spec_register_from_chars(w) is Some {
        TokenShape::Register(spec_register_from_chars(w)->Some_0)
    } else if w.len() > 0 && spec_all_digits(w) && spec_dec_value(w) <= u32::MAX {
        TokenShape::Number(spec_number_of(spec_dec_value(w)))
    } else {
        TokenShape::Identifier(w)
    }
}

/// How many characters the word starting at `i` spans: everything up to
/// the next space, comma or line break.
pub open spec fn spec_word_run(s: Seq<char>, i: int) -> nat
    decreases s.len() - i,
{
    if 0 <= i < s.len() && s[i] != ' ' && s[i] != ',' && s[i] != '\n' {
        1 + spec_word_run(s, i + 1)
    } else {
        0
    }
}

/// A word run never extends past the end of the text.
pub proof fn lemma_word_run_bound(s: Seq<char>, i: int)
    requires
        0 <= i <= s.len(),
    ensures
        i + spec_word_run(s, i) <= s.len(),
    decreases s.len() - i,
{
    if i < s.len() && s[i] != ' ' && s[i] != ',' && s[i] != '\n' {
        lemma_word_run_bound(s, i + 1);
    }
}

/// The token stream of the text from position `i` on: commas and spaces
/// become their own tokens, line breaks separate words silently, and every
/// maximal word in between is read by [`spec_lex_word`].
pub open spec fn spec_lex(s: Seq<char>, i: int) -> Seq<TokenShape>
    decreases s.len() - i
        when 0 <= i <= s.len()
{
    if i >= s.len() {
        Seq::empty()
    } else if s[i] == '\n' {
        spec_lex(s, i + 1)
    } else if s[i] == ',' {
        seq![TokenShape::Comma] + spec_lex(s, i + 1)
    } else if s[i] == ' ' {
        seq![TokenShape::Space] + spec_lex(s, i + 1)
    } else {
        let j = i + spec_word_run(s, i);
        proof {
            lemma_word_run_bound(s, i);
        }
        seq![spec_lex_word(s.subrange(i, j))] + spec_lex(s, j)
    }
}

/// Scan a word for its first `]`, tracking the last `[` before it.
fn scan_brackets(w: &str, i: usize, open: Option<usize>) -> (r: (usize, Option<usize>))
    requires
        i <= w@.len(),
        open matches Some(v) ==> v < i,
    ensures
        ({
            let (j, k) = spec_scan_brackets(
                w@,
                i as int,
                match open {
                    Some(v) => Some(v as int),
                    None => None::<int>,
                },
            );
            &&& r.0 == j
            &&& r.0 <= w@.len()
            &&& (match r.1 {
                Some(v) => Some(v as int),
                None => None::<int>,
            }) == k
            &&& (r.1 matches Some(v) ==> v < r.0)
        }),
    decreases w@.len() - i,
{
    let n = w.unicode_len();
    if i >= n {
        return (n, open);
    }
    let c = w.get_char(i);
    if c == ']' {
        (i, open)
    } else if c == '[' {
        scan_brackets(w, i + 1, Some(i))
    } else {
        scan_brackets(w, i + 1, open)
    }
}

impl Address {
    /// Read a bracketed address: the decimal digits between the last `[`
    /// before the first `]`.
    pub fn parse(s: &str) -> (r: Option<Address>)
        ensures
            r == (match spec_bracket_token(s@) {
                TokenShape::Address(a) => Some(a),
                _ => None::<Address>,
            }),
    {
        let (j, open) = scan_brackets(s, 0, None);
        if j >= s.unicode_len() {
            proof {
                assert(spec_scan_brackets(s@, 0, None).0 == s@.len());
            }
            return None;
        }
        match open {
            None => None,
            Some(k) => {
                let inner = s.substring_char(k + 1, j);
                match parse_dec_u32(inner) {
                    Some(v) => Some(Address(v)),
                    None => None,
                }
            },
        }
    }
}

/// Read one word as a token.
fn lex_word(word: &str) -> (t: Token)
    ensures
        t@ == spec_lex_word(word@),
{
    let n = word.unicode_len();
    let (j, open) = scan_brackets(word, 0, None);
    if j < n {
        match open {
            Some(k) => {
                let inner = word.substring_char(k + 1, j);
                match parse_dec_u32(inner) {
                    Some(v) => Token::Address(Address(v)),
                    None => Token::Identifier(word.to_owned()),
                }
            },
            None => Token::Identifier(word.to_owned()),
        }
    } else {
        match Register::from_str(word) {
            Ok(reg) => Token::Register(reg),
            Err(_) => match parse_dec_u32(word) {
                Some(v) => if v <= u8::MAX as u32 {
                    Token::Number(Number::U8(v as u8))
                } else if v <= u16::MAX as u32 {
                    Token::Number(Number::U16(v as u16))
                } else {
                    Token::Number(Number::U32(v))
                },
                None => Token::Identifier(word.to_owned()),
            },
        }
    }
}

/// The assembler's lexer: it holds the token stream of one source text.
#[derive(Debug, Default, Clone)]
pub struct Lexer {
    pub tokens: Vec<Token>,
}

/// Lex the text from position `i` to its end.
fn lex_from(s: &str, i: usize) -> (r: Vec<Token>)
    requires
        i <= s@.len(),
    ensures
        r@.map_values(|t: Token| t@) == spec_lex(s@, i as int),
    decreases s@.len() - i,
{
    let n = s.unicode_len();
    if i >= n {
        let empty: Vec<Token> = Vec::new();
        proof {
            assert(empty@.map_values(|t: Token| t@) =~= Seq::<TokenShape>::empty());
        }
        return empty;
    }
    let c = s.get_char(i);
    if c == '\n' {
        lex_from(s, i + 1)
    } else if c == ',' {
        let mut rest = lex_from(s, i + 1);
        rest.insert(0, Token::Comma);
        proof {
            assert(rest@.map_values(|t: Token| t@) =~= seq![TokenShape::Comma] + spec_lex(
                s@,
                i + 1,
            ));
        }
        rest
    } else if c == ' ' {
        let mut rest = lex_from(s, i + 1);
        rest.insert(0, Token::Space);
        proof {
            assert(rest@.map_values(|t: Token| t@) =~= seq![TokenShape::Space] + spec_lex(
                s@,
                i + 1,
            ));
        }
        rest
    } else {
        let j = word_end(s, i);
        proof {
            assert(spec_word_run(s@, i as int) >= 1);
        }
        let word = s.substring_char(i, j);
        let tok = lex_word(word);
        let ghost shape = tok@;
        let mut rest = lex_from(s, j);
        rest.insert(0, tok);
        proof {
            assert(rest@.map_values(|t: Token| t@) =~= seq![shape] + spec_lex(s@, j as int));
        }
        rest
    }
}

/// The position just after the word at `i`.
fn word_end(s: &str, i: usize) -> (j: usize)
    requires
        i <= s@.len(),
    ensures
        j == i + spec_word_run(s@, i as int),
        i <= j <= s@.len(),
    decreases s@.len() - i,
{
    proof {
        lemma_word_run_bound(s@, i as int);
    }
    let n = s.unicode_len();
    if i < n {
        let c = s.get_char(i);
        if c != ' ' && c != ',' && c != '\n' {
            return word_end(s, i + 1);
        }
    }
    i
}

impl Lexer {
    /// Lex a whole source text.
    pub fn lex(data: &str) -> (r: Lexer)
        ensures
            r.tokens@.map_values(|t: Token| t@) == spec_lex(data@, 0),
    {
        Lexer { tokens: lex_from(data, 0) }
    }
}

} // verus!
