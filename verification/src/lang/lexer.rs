//! The expression-language lexer: single-character operators, decimal
//! number runs, and alphanumeric identifiers.

use vstd::prelude::*;

verus! {

/// A character the lexer cannot place.
#[derive(Debug)]
pub enum LexError {
    InvalidToken(String),
}

/// One lexical token.  `Number` and `Ident` carry the text they were read
/// from.
#[derive(Clone, Debug, PartialEq, Eq)]
pub enum Token {
    LCarrot,
    RCarrot,
    EqSign,
    Space,
    Number(String),
    Lparen,
    Rparen,
    Ident(String),
    Plus,
    Sub,
    Mult,
    Div,
}

/// The mathematical shape of a token: as [`Token`], with text as a
/// character sequence.
pub enum TokenShape {
    LCarrot,
    RCarrot,
    EqSign,
    Space,
    Number(Seq<char>),
    Lparen,
    Rparen,
    Ident(Seq<char>),
    Plus,
    Sub,
    Mult,
    Div,
}

impl View for Token {
    type V = TokenShape;

    open spec fn view(&self) -> TokenShape {
        match self {
            Token::LCarrot => TokenShape::LCarrot,
            Token::RCarrot => TokenShape::RCarrot,
            Token::EqSign => TokenShape::EqSign,
            Token::Space => TokenShape::Space,
            Token::Number(t) => TokenShape::Number(t@),
            Token::Lparen => TokenShape::Lparen,
            Token::Rparen => TokenShape::Rparen,
            Token::Ident(t) => TokenShape::Ident(t@),
            Token::Plus => TokenShape::Plus,
            Token::Sub => TokenShape::Sub,
            Token::Mult => TokenShape::Mult,
            Token::Div => TokenShape::Div,
        }
    }
}

/// A decimal digit.
pub open spec fn spec_is_digit(c: char) -> bool {
    '0' <= c && c <= '9'
}

/// A letter, of either case.
pub open spec fn spec_is_alpha(c: char) -> bool {
    ('a' <= c && c <= 'z') || ('A' <= c && c <= 'Z')
}

/// How many consecutive digits stand at position `i`.
pub open spec fn spec_digit_run(s: Seq<char>, i: int) -> nat
    decreases s.len() - i,
{
    if 0 <= i < s.len() && spec_is_digit(s[i]) {
        1 + spec_digit_run(s, i + 1)
    } else {
        0
    }
}

/// How many consecutive letters or digits stand at position `i`.
pub open spec fn spec_alnum_run(s: Seq<char>, i: int) -> nat
    decreases s.len() - i,
{
    if 0 <= i < s.len() && (spec_is_alpha(s[i]) || spec_is_digit(s[i])) {
        1 + spec_alnum_run(s, i + 1)
    } else {
        0
    }
}

/// A run never extends past the end of the text.
pub proof fn lemma_digit_run_bound(s: Seq<char>, i: int)
    requires
        0 <= i <= s.len(),
    ensures
        i + spec_digit_run(s, i) <= s.len(),
    decreases s.len() - i,
{
    if i < s.len() && spec_is_digit(s[i]) {
        lemma_digit_run_bound(s, i + 1);
    }
}

/// A run never extends past the end of the text.
pub proof fn lemma_alnum_run_bound(s: Seq<char>, i: int)
    requires
        0 <= i <= s.len(),
    ensures
        i + spec_alnum_run(s, i) <= s.len(),
    decreases s.len() - i,
{
    if i < s.len() && (spec_is_alpha(s[i]) || spec_is_digit(s[i])) {
        lemma_alnum_run_bound(s, i + 1);
    }
}

/// The token stream of the text from position `i` on: single-character
/// operator tokens, maximal digit runs as numbers, maximal alphanumeric
/// runs starting with a letter as identifiers; any other character stops
/// the lexer with that character.
pub open spec fn spec_lex(s: Seq<char>, i: int) -> Result<Seq<TokenShape>, char>
    decreases s.len() - i
        when 0 <= i <= s.len()
{
    if i >= s.len() {
        Ok(Seq::empty())
    } else {
        let c = s[i];
        if spec_is_digit(c) {
            let j = i + spec_digit_run(s, i);
            proof {
                lemma_digit_run_bound(s, i);
            }
            match spec_lex(s, j) {
                Err(e) => Err(e),
                Ok(rest) => Ok(seq![TokenShape::Number(s.subrange(i, j))] + rest),
            }
        } else if spec_is_alpha(c) {
            let j = i + spec_alnum_run(s, i);
            proof {
                lemma_alnum_run_bound(s, i);
            }
            match spec_lex(s, j) {
                Err(e) => Err(e),
                Ok(rest) => Ok(seq![TokenShape::Ident(s.subrange(i, j))] + rest),
            }
        } else {
            let tok = if c == ' ' {
                Some(TokenShape::Space)
            } else if c == '>' {
                Some(TokenShape::RCarrot)
            } else if c == '<' {
                Some(TokenShape::LCarrot)
            } else if c == '=' {
                Some(TokenShape::EqSign)
            } else if c == '(' {
                Some(TokenShape::Lparen)
            } else if c == ')' {
                Some(TokenShape::Rparen)
            } else if c == '+' {
                Some(TokenShape::Plus)
            } else if c == '-' {
                Some(TokenShape::Sub)
            } else if c == '*' {
                Some(TokenShape::Mult)
            } else if c == '/' {
                Some(TokenShape::Div)
            } else {
                None
            };
            match tok {
                None => Err(c),
                Some(t) => match spec_lex(s, i + 1) {
                    Err(e) => Err(e),
                    Ok(rest) => Ok(seq![t] + rest),
                },
            }
        }
    }
}

/// The lexer: it borrows the text and hands out its token stream.  Its
/// view is the text's character sequence.
#[derive(Debug)]
pub struct Lexer<'a> {
    data: &'a str,
}

impl<'a> View for Lexer<'a> {
    type V = Seq<char>;

    closed spec fn view(&self) -> Seq<char> {
        self.data@
    }
}

/// The position just after the digit run at `i`.
fn digit_end(s: &str, i: usize) -> (j: usize)
    requires
        i <= s@.len(),
    ensures
        j == i + spec_digit_run(s@, i as int),
        i <= j <= s@.len(),
    decreases s@.len() - i,
{
    proof {
        lemma_digit_run_bound(s@, i as int);
    }
    let n = s.unicode_len();
    if i < n {
        let c = s.get_char(i);
        if (c as u32) >= 48 && (c as u32) <= 57 {
            return digit_end(s, i + 1);
        }
    }
    i
}

/// The position just after the alphanumeric run at `i`.
fn alnum_end(s: &str, i: usize) -> (j: usize)
    requires
        i <= s@.len(),
    ensures
        j == i + spec_alnum_run(s@, i as int),
        i <= j <= s@.len(),
    decreases s@.len() - i,
{
    proof {
        lemma_alnum_run_bound(s@, i as int);
    }
    let n = s.unicode_len();
    if i < n {
        let c = s.get_char(i);
        let u = c as u32;
        if (u >= 97 && u <= 122) || (u >= 65 && u <= 90) || (u >= 48 && u <= 57) {
            return alnum_end(s, i + 1);
        }
    }
    i
}

/// Lex the text from position `i` to its end.
fn lex_from(s: &str, i: usize) -> (r: Result<Vec<Token>, LexError>)
    requires
        i <= s@.len(),
    ensures
        match r {
            Ok(toks) => spec_lex(s@, i as int) == Ok::<Seq<TokenShape>, char>(
                toks@.map_values(|t: Token| t@),
            ),
            Err(e) => spec_lex(s@, i as int) is Err && (e matches LexError::InvalidToken(t)
                && t@ == seq![spec_lex(s@, i as int)->Err_0]),
        },
    decreases s@.len() - i,
{
    let n = s.unicode_len();
    if i >= n {
        let empty: Vec<Token> = Vec::new();
        proof {
            assert(empty@.map_values(|t: Token| t@) =~= Seq::<TokenShape>::empty());
        }
        return Ok(empty);
    }
    let c = s.get_char(i);
    let u = c as u32;
    if u >= 48 && u <= 57 {
        let j = digit_end(s, i);
        proof {
            assert(spec_digit_run(s@, i as int) >= 1);
        }
        let text = s.substring_char(i, j).to_owned();
        match lex_from(s, j) {
            Err(e) => Err(e),
            Ok(mut rest) => {
                rest.insert(0, Token::Number(text));
                proof {
                    assert(rest@.map_values(|t: Token| t@) =~= seq![
                        TokenShape::Number(s@.subrange(i as int, j as int)),
                    ] + spec_lex(s@, j as int)->Ok_0);
                }
                Ok(rest)
            },
        }
    } else if (u >= 97 && u <= 122) || (u >= 65 && u <= 90) {
        let j = alnum_end(s, i);
        proof {
            assert(spec_alnum_run(s@, i as int) >= 1);
        }
        let text = s.substring_char(i, j).to_owned();
        match lex_from(s, j) {
            Err(e) => Err(e),
            Ok(mut rest) => {
                rest.insert(0, Token::Ident(text));
                proof {
                    assert(rest@.map_values(|t: Token| t@) =~= seq![
                        TokenShape::Ident(s@.subrange(i as int, j as int)),
                    ] + spec_lex(s@, j as int)->Ok_0);
                }
                Ok(rest)
            },
        }
    } else {
        let tok = if u == 32 {
            Some(Token::Space)
        } else if u == 62 {
            Some(Token::RCarrot)
        } else if u == 60 {
            Some(Token::LCarrot)
        } else if u == 61 {
            Some(Token::EqSign)
        } else if u == 40 {
            Some(Token::Lparen)
        } else if u == 41 {
            Some(Token::Rparen)
        } else if u == 43 {
            Some(Token::Plus)
        } else if u == 45 {
            Some(Token::Sub)
        } else if u == 42 {
            Some(Token::Mult)
        } else if u == 47 {
            Some(Token::Div)
        } else {
            None
        };
        match tok {
            None => {
                let text = s.substring_char(i, i + 1).to_owned();
                Err(LexError::InvalidToken(text))
            },
            Some(t) => match lex_from(s, i + 1) {
                Err(e) => Err(e),
                Ok(mut rest) => {
                    let ghost shape = t@;
                    rest.insert(0, t);
                    proof {
                        assert(rest@.map_values(|tk: Token| tk@) =~= seq![shape] + spec_lex(
                            s@,
                            i + 1,
                        )->Ok_0);
                    }
                    Ok(rest)
                },
            },
        }
    }
}

impl<'a> Lexer<'a> {
    /// A lexer over `data`.
    pub fn new(data: &'a str) -> (r: Self)
        ensures
            r@ == data@,
    {
        Lexer { data }
    }

    /// The token stream of the whole text, or the first character that
    /// fits no token.
    pub fn lex(self) -> (r: Result<Vec<Token>, LexError>)
        ensures
            match r {
                Ok(toks) => spec_lex(self@, 0) == Ok::<Seq<TokenShape>, char>(
                    toks@.map_values(|t: Token| t@),
                ),
                Err(e) => spec_lex(self@, 0) is Err && (e matches LexError::InvalidToken(t)
                    && t@ == seq![spec_lex(self@, 0)->Err_0]),
            },
    {
        lex_from(self.data, 0)
    }
}

} // verus!
