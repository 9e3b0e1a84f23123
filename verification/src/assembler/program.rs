//! The assembler's back half: words become typed tokens, label
//! definitions are collected into a symbol table, label uses become
//! 16-bit offsets, and each mnemonic with its operands becomes one
//! decoded instruction.

use crate::digits::parse_dec_u32;
use crate::memory::Address;
use crate::opcodes::Instruction;
use crate::opcodes::Value;
use crate::registers::{spec_register_from_chars, text_eq, Register};
use vstd::prelude::*;

verus! {

/// What stopped the program parser.
#[derive(Debug)]
pub enum ParseError {
    InvalidKeyWord(String),
    InvalidToken(String),
    InvalidRegister(String),
    EmptyFile,
}

/// A label word: a definition (ending in `:`) or a use.
#[derive(Clone, Debug, PartialEq, Eq)]
pub enum Label {
    Unresolved(String),
    Resolved(String),
}

/// A mnemonic, with the number of tokens its statement spans.
#[derive(Clone, Copy, Debug, PartialEq, Eq, Structural)]
pub enum KeyWord {
    Mov,
    Add,
    Load,
    Jump,
    Push,
    Pop,
    Call,
    Ret,
    Halt,
}

/// How many tokens a statement of this mnemonic spans, counting the
/// mnemonic itself.
pub open spec fn spec_increment_amount(kw: KeyWord) -> u16 {
    match kw {
        KeyWord::Mov => 3,
        KeyWord::Add => 3,
        KeyWord::Load => 3,
        KeyWord::Jump => 2,
        KeyWord::Push => 2,
        KeyWord::Pop => 2,
        KeyWord::Call => 2,
        KeyWord::Ret => 1,
        KeyWord::Halt => 1,
    }
}

/// The mnemonic a lower-case word names, if any.
pub open spec fn spec_keyword_of(s: Seq<char>) -> Option<KeyWord> {
    if s == "mov"@ {
        Some(KeyWord::Mov)
    } else if s == "add"@ {
        Some(KeyWord::Add)
    } else if s == "load"@ {
        Some(KeyWord::Load)
    } else if s == "jump"@ {
        Some(KeyWord::Jump)
    } else if s == "push"@ {
        Some(KeyWord::Push)
    } else if s == "pop"@ {
        Some(KeyWord::Pop)
    } else if s == "call"@ {
        Some(KeyWord::Call)
    } else if s == "ret"@ {
        Some(KeyWord::Ret)
    } else if s == "halt"@ {
        Some(KeyWord::Halt)
    } else {
        None
    }
}

impl KeyWord {
    /// How many tokens a statement of this mnemonic spans.
    pub fn increment_amount(&self) -> (n: u16)
        ensures
            n == spec_increment_amount(*self),
            1 <= n <= 3,
    {
        match self {
            KeyWord::Mov => 3,
            KeyWord::Add => 3,
            KeyWord::Load => 3,
            KeyWord::Jump => 2,
            KeyWord::Push => 2,
            KeyWord::Pop => 2,
            KeyWord::Call => 2,
            KeyWord::Ret => 1,
            KeyWord::Halt => 1,
        }
    }

    /// Parse a lower-case mnemonic.
    pub fn from_str(value: &str) -> (r: Result<KeyWord, ParseError>)
        ensures
            match r {
                Ok(kw) => spec_keyword_of(value@) == Some(kw),
                Err(e) => spec_keyword_of(value@) is None && (e matches ParseError::InvalidKeyWord(
                    t,
                ) && t@ == value@),
            },
    {
        if text_eq(value, "mov") {
            Ok(KeyWord::Mov)
        } else if text_eq(value, "add") {
            Ok(KeyWord::Add)
        } else if text_eq(value, "load") {
            Ok(KeyWord::Load)
        } else if text_eq(value, "jump") {
            Ok(KeyWord::Jump)
        } else if text_eq(value, "push") {
            Ok(KeyWord::Push)
        } else if text_eq(value, "pop") {
            Ok(KeyWord::Pop)
        } else if text_eq(value, "call") {
            Ok(KeyWord::Call)
        } else if text_eq(value, "ret") {
            Ok(KeyWord::Ret)
        } else if text_eq(value, "halt") {
            Ok(KeyWord::Halt)
        } else {
            Err(ParseError::InvalidKeyWord(value.to_owned()))
        }
    }
}

/// One typed token of the statement stream.
#[derive(Clone, Debug, PartialEq, Eq)]
pub enum Token {
    KeyWord(KeyWord),
    Register(Register),
    U16(u16),
    Label(Label),
}

/// The mathematical shape of a token, with label text as character
/// sequences.
pub enum ProgramTokenShape {
    KeyWord(KeyWord),
    Register(Register),
    U16(u16),
    Label(Seq<char>, bool),
}

impl View for Token {
    type V = ProgramTokenShape;

    open spec fn view(&self) -> ProgramTokenShape {
        match self {
            Token::KeyWord(k) => ProgramTokenShape::KeyWord(*k),
            Token::Register(r) => ProgramTokenShape::Register(*r),
            Token::U16(v) => ProgramTokenShape::U16(*v),
            Token::Label(l) => match l {
                Label::Unresolved(t) => ProgramTokenShape::Label(t@, false),
                Label::Resolved(t) => ProgramTokenShape::Label(t@, true),
            },
        }
    }
}

/// The token a word denotes: a 16-bit number, a mnemonic, a register
/// (possibly written with a trailing comma), or a label, resolved when
/// the word ends in `:`.  A register name followed by a comma that names
/// no register is the error case.
pub open spec fn spec_token_of(s: Seq<char>) -> Result<ProgramTokenShape, Seq<char>> {
    if crate::digits::spec_all_digits(s) && s.len() > 0 && crate::digits::spec_dec_value(s)
        <= u16::MAX {
        Ok(ProgramTokenShape::U16(crate::digits::spec_dec_value(s) as u16))
    } else if spec_keyword_of(s) is Some {
        Ok(ProgramTokenShape::KeyWord(spec_keyword_of(s)->Some_0))
    } else if spec_find_comma(s, 0) < s.len() {
        let head = s.take(spec_find_comma(s, 0));
        match spec_register_from_chars(head) {
            Some(r) => Ok(ProgramTokenShape::Register(r)),
            None => Err(head),
        }
    } else if spec_register_from_chars(s) is Some {
        Ok(ProgramTokenShape::Register(spec_register_from_chars(s)->Some_0))
    } else if s.len() > 0 && s.last() == ':' {
        Ok(ProgramTokenShape::Label(s, true))
    } else {
        Ok(ProgramTokenShape::Label(s, false))
    }
}

/// The index of the first comma at or after `i`, or the length.
pub open spec fn spec_find_comma(s: Seq<char>, i: int) -> int
    decreases s.len() - i
        when 0 <= i <= s.len()
{
    if i >= s.len() {
        s.len() as int
    } else if s[i] == ',' {
        i
    } else {
        spec_find_comma(s, i + 1)
    }
}

/// The index of the first comma at or after `i`, or the length.
fn find_comma(s: &str, i: usize) -> (j: usize)
    requires
        i <= s@.len(),
    ensures
        j == spec_find_comma(s@, i as int),
        i <= j <= s@.len(),
    decreases s@.len() - i,
{
    let n = s.unicode_len();
    if i >= n {
        return n;
    }
    if s.get_char(i) == ',' {
        i
    } else {
        find_comma(s, i + 1)
    }
}

impl Token {
    /// Read one word as a token.
    pub fn from_str(s: &str) -> (r: Result<Token, ParseError>)
        ensures
            match r {
                Ok(t) => spec_token_of(s@) == Ok::<ProgramTokenShape, Seq<char>>(t@),
                Err(e) => spec_token_of(s@) is Err && (e matches ParseError::InvalidRegister(t)
                    && t@ == spec_token_of(s@)->Err_0),
            },
    {
        match parse_dec_u32(s) {
            Some(v) => if v <= u16::MAX as u32 {
                return Ok(Token::U16(v as u16));
            },
            None => {},
        }
        match KeyWord::from_str(s) {
            Ok(kw) => {
                return Ok(Token::KeyWord(kw));
            },
            Err(_) => {},
        }
        let comma = find_comma(s, 0);
        let n = s.unicode_len();
        if comma < n {
            let head = s.substring_char(0, comma);
            return match Register::from_str(head) {
                Ok(reg) => Ok(Token::Register(reg)),
                Err(_) => Err(ParseError::InvalidRegister(head.to_owned())),
            };
        }
        match Register::from_str(s) {
            Ok(reg) => Ok(Token::Register(reg)),
            Err(_) => {
                let ends_colon = n > 0 && s.get_char(n - 1) == ':';
                if ends_colon {
                    Ok(Token::Label(Label::Resolved(s.to_owned())))
                } else {
                    Ok(Token::Label(Label::Unresolved(s.to_owned())))
                }
            },
        }
    }
}

/// The instruction one statement denotes, or why it denotes none.  The
/// statement is the mnemonic token and exactly the operands its count
/// calls for; any other shape is reported as an invalid token.
pub open spec fn spec_statement(ts: Seq<ProgramTokenShape>) -> Option<Instruction> {
    if ts.len() == 0 {
        None
    } else {
        match ts[0] {
            ProgramTokenShape::KeyWord(kw) => {
                if ts.len() != spec_increment_amount(kw) {
                    None
                } else {
                    match kw {
                        KeyWord::Mov => match (ts[1], ts[2]) {
                            (
                                ProgramTokenShape::Register(r),
                                ProgramTokenShape::Register(r2),
                            ) => Some(Instruction::MovRegReg(r, r2)),
                            (ProgramTokenShape::Register(r), ProgramTokenShape::U16(v)) => Some(
                                Instruction::MovRegNum(r, Value::U16(v)),
                            ),
                            _ => None,
                        },
                        KeyWord::Add => match (ts[1], ts[2]) {
                            (
                                ProgramTokenShape::Register(r),
                                ProgramTokenShape::Register(r2),
                            ) => Some(Instruction::AddRegReg(r, r2)),
                            (ProgramTokenShape::Register(r), ProgramTokenShape::U16(v)) => Some(
                                Instruction::AddRegNum(r, Value::U16(v)),
                            ),
                            _ => None,
                        },
                        KeyWord::Load => match (ts[1], ts[2]) {
                            (ProgramTokenShape::Register(r), ProgramTokenShape::U16(a)) => Some(
                                Instruction::Load(r, Address(a as u32)),
                            ),
                            _ => None,
                        },
                        KeyWord::Jump => match ts[1] {
                            ProgramTokenShape::U16(a) => Some(
                                Instruction::Jump(Address(a as u32)),
                            ),
                            _ => None,
                        },
                        KeyWord::Push => match ts[1] {
                            ProgramTokenShape::Register(r) => Some(Instruction::PushReg(r)),
                            ProgramTokenShape::U16(v) => Some(
                                Instruction::PushVal(Value::U16(v)),
                            ),
                            _ => None,
                        },
                        KeyWord::Pop => match ts[1] {
                            ProgramTokenShape::Register(r) => Some(Instruction::PopReg(r)),
                            _ => None,
                        },
                        KeyWord::Call => match ts[1] {
                            ProgramTokenShape::U16(a) => Some(
                                Instruction::Call(Address(a as u32)),
                            ),
                            _ => None,
                        },
                        KeyWord::Ret => Some(Instruction::Ret),
                        KeyWord::Halt => Some(Instruction::Halt),
                    }
                }
            },
            _ => None,
        }
    }
}

/// Turn one statement's tokens into its instruction.  `None` cases of
/// [`spec_statement`] are reported as an invalid-token error.
pub fn tokens_to_instructions(tokens: &[Token]) -> (r: Result<Instruction, ParseError>)
    ensures
        match r {
            Ok(inst) => spec_statement(tokens@.map_values(|t: Token| t@)) == Some(inst),
            Err(e) => spec_statement(tokens@.map_values(|t: Token| t@)) is None && e
                is InvalidToken,
        },
{
    let n = tokens.len();
    if n == 0 {
        return Err(ParseError::InvalidToken(String::new()));
    }
    let kw = match &tokens[0] {
        Token::KeyWord(kw) => *kw,
        _ => {
            return Err(ParseError::InvalidToken(String::new()));
        },
    };
    if n != kw.increment_amount() as usize {
        return Err(ParseError::InvalidToken(String::new()));
    }
    match kw {
        KeyWord::Mov => match (&tokens[1], &tokens[2]) {
            (Token::Register(r), Token::Register(r2)) => Ok(Instruction::MovRegReg(*r, *r2)),
            (Token::Register(r), Token::U16(v)) => Ok(
                Instruction::MovRegNum(*r, Value::U16(*v)),
            ),
            _ => Err(ParseError::InvalidToken(String::new())),
        },
        KeyWord::Add => match (&tokens[1], &tokens[2]) {
            (Token::Register(r), Token::Register(r2)) => Ok(Instruction::AddRegReg(*r, *r2)),
            (Token::Register(r), Token::U16(v)) => Ok(
                Instruction::AddRegNum(*r, Value::U16(*v)),
            ),
            _ => Err(ParseError::InvalidToken(String::new())),
        },
        KeyWord::Load => match (&tokens[1], &tokens[2]) {
            (Token::Register(r), Token::U16(a)) => Ok(Instruction::Load(*r, Address(*a as u32))),
            _ => Err(ParseError::InvalidToken(String::new())),
        },
        KeyWord::Jump => match &tokens[1] {
            Token::U16(a) => Ok(Instruction::Jump(Address(*a as u32))),
            _ => Err(ParseError::InvalidToken(String::new())),
        },
        KeyWord::Push => match &tokens[1] {
            Token::Register(r) => Ok(Instruction::PushReg(*r)),
            Token::U16(v) => Ok(Instruction::PushVal(Value::U16(*v))),
            _ => Err(ParseError::InvalidToken(String::new())),
        },
        KeyWord::Pop => match &tokens[1] {
            Token::Register(r) => Ok(Instruction::PopReg(*r)),
            _ => Err(ParseError::InvalidToken(String::new())),
        },
        KeyWord::Call => match &tokens[1] {
            Token::U16(a) => Ok(Instruction::Call(Address(*a as u32))),
            _ => Err(ParseError::InvalidToken(String::new())),
        },
        KeyWord::Ret => Ok(Instruction::Ret),
        KeyWord::Halt => Ok(Instruction::Halt),
    }
}

/// A whitespace character that separates words.
pub open spec fn spec_is_space(c: char) -> bool {
    c == ' ' || c == '\n' || c == '\t' || c == '\r'
}

/// How many consecutive non-whitespace characters stand at position `i`.
pub open spec fn spec_word_run(s: Seq<char>, i: int) -> nat
    decreases s.len() - i,
{
    if 0 <= i < s.len() && !spec_is_space(s[i]) {
        1 + spec_word_run(s, i + 1)
    } else {
        0
    }
}

/// A word run never extends past the end of the text.
pub proof fn lemma_word_run_bound(s: Seq<char>, i: int)
    requires
        0 <= i <= s.len(),
    ensures
        i + spec_word_run(s, i) <= s.len(),
    decreases s.len() - i,
{
    if i < s.len() && !spec_is_space(s[i]) {
        lemma_word_run_bound(s, i + 1);
    }
}

/// The whitespace-separated words of the text from position `i` on.
pub open spec fn spec_words(s: Seq<char>, i: int) -> Seq<Seq<char>>
    decreases s.len() - i
        when 0 <= i <= s.len()
{
    if i >= s.len() {
        Seq::empty()
    } else if spec_is_space(s[i]) {
        spec_words(s, i + 1)
    } else {
        let j = i + spec_word_run(s, i);
        proof {
            lemma_word_run_bound(s, i);
        }
        seq![s.subrange(i, j)] + spec_words(s, j)
    }
}

/// The first pass over the words from position `i`: each word becomes its
/// token; a mnemonic advances the statement offset by its span; a label
/// definition records the offset under its bare name and yields no token.
/// The error case is a word that fits no token.
pub open spec fn spec_collect(
    ws: Seq<Seq<char>>,
    i: int,
    addr: u16,
    table: Seq<(Seq<char>, u16)>,
) -> Result<(Seq<ProgramTokenShape>, Seq<(Seq<char>, u16)>), Seq<char>>
    decreases ws.len() - i
        when 0 <= i
{
    if i >= ws.len() {
        Ok((Seq::empty(), table))
    } else {
        match spec_token_of(ws[i]) {
            Err(t) => Err(t),
            Ok(tok) => match tok {
                ProgramTokenShape::KeyWord(kw) => match spec_collect(
                    ws,
                    i + 1,
                    vstd::wrapping::u16_specs::wrapping_add(addr, spec_increment_amount(kw)),
                    table,
                ) {
                    Err(t) => Err(t),
                    Ok((rest, tbl)) => Ok((seq![tok] + rest, tbl)),
                },
                ProgramTokenShape::Label(name, true) => spec_collect(
                    ws,
                    i + 1,
                    addr,
                    table.push(
                        (
                            if name.len() > 0 {
                                name.take(name.len() - 1)
                            } else {
                                name
                            },
                            addr,
                        ),
                    ),
                ),
                _ => match spec_collect(ws, i + 1, addr, table) {
                    Err(t) => Err(t),
                    Ok((rest, tbl)) => Ok((seq![tok] + rest, tbl)),
                },
            },
        }
    }
}

/// The offset recorded last under `name`, if any.
pub open spec fn spec_table_lookup(table: Seq<(Seq<char>, u16)>, name: Seq<char>) -> Option<u16>
    decreases table.len(),
{
    if table.len() == 0 {
        None
    } else if table.last().0 == name {
        Some(table.last().1)
    } else {
        spec_table_lookup(table.drop_last(), name)
    }
}

/// The second pass: every unresolved label use becomes the offset recorded
/// under its name; an unrecorded name is the error case.
pub open spec fn spec_patch(
    ts: Seq<ProgramTokenShape>,
    i: int,
    table: Seq<(Seq<char>, u16)>,
) -> Result<Seq<ProgramTokenShape>, Seq<char>>
    decreases ts.len() - i
        when 0 <= i
{
    if i >= ts.len() {
        Ok(Seq::empty())
    } else {
        let head = match ts[i] {
            ProgramTokenShape::Label(name, false) => match spec_table_lookup(table, name) {
                Some(a) => Ok(ProgramTokenShape::U16(a)),
                None => Err(name),
            },
            other => Ok(other),
        };
        match head {
            Err(t) => Err(t),
            Ok(h) => match spec_patch(ts, i + 1, table) {
                Err(t) => Err(t),
                Ok(rest) => Ok(seq![h] + rest),
            },
        }
    }
}

/// The third pass: the token stream from position `i` cut into statements,
/// each decoded by [`spec_statement`].  A run that starts with anything
/// but a mnemonic, runs out of operands, or holds an ill-shaped statement
/// denotes no instruction list.
pub open spec fn spec_chunks(ts: Seq<ProgramTokenShape>, i: int) -> Option<Seq<Instruction>>
    decreases ts.len() - i
        when 0 <= i
{
    if i >= ts.len() {
        Some(Seq::empty())
    } else {
        match ts[i] {
            ProgramTokenShape::KeyWord(kw) => {
                let span = spec_increment_amount(kw) as int;
                if i + span > ts.len() {
                    None
                } else {
                    match spec_statement(ts.subrange(i, i + span)) {
                        None => None,
                        Some(inst) => match spec_chunks(ts, i + span) {
                            None => None,
                            Some(rest) => Some(seq![inst] + rest),
                        },
                    }
                }
            },
            _ => None,
        }
    }
}

/// The whole assembly of a source text: split it into words, collect
/// tokens and the label table, patch label uses, and cut the result into
/// instructions.
pub open spec fn spec_assemble(s: Seq<char>) -> Option<Seq<Instruction>> {
    match spec_collect(spec_words(s, 0), 0, 0, Seq::empty()) {
        Err(_) => None,
        Ok((ts, table)) => match spec_patch(ts, 0, table) {
            Err(_) => None,
            Ok(ts2) => spec_chunks(ts2, 0),
        },
    }
}

/// The program parser: it turns one source text into the instruction list
/// its statements denote.
#[derive(Debug)]
pub struct Parser {
    pub data: String,
    pub insts: Vec<Instruction>,
}

/// The position just after the word at `i`.
fn word_end(s: &str, i: usize) -> (j: usize)
    requires
        i <= s@.len(),
    ensures
        j == i + spec_word_run(s@, i as int),
        i <= j <= s@.len(),
    decreases s@.len() - i,
{
    proof {
        lemma_word_run_bound(s@, i as int);
    }
    let n = s.unicode_len();
    if i < n {
        let c = s.get_char(i);
        if !(c == ' ' || c == '\n' || c == '\t' || c == '\r') {
            return word_end(s, i + 1);
        }
    }
    i
}

/// Split the text from position `i` into its words.
fn words_from(s: &str, i: usize) -> (r: Vec<String>)
    requires
        i <= s@.len(),
    ensures
        r@.map_values(|w: String| w@) == spec_words(s@, i as int),
    decreases s@.len() - i,
{
    let n = s.unicode_len();
    if i >= n {
        let empty: Vec<String> = Vec::new();
        proof {
            assert(empty@.map_values(|w: String| w@) =~= Seq::<Seq<char>>::empty());
        }
        return empty;
    }
    let c = s.get_char(i);
    if c == ' ' || c == '\n' || c == '\t' || c == '\r' {
        words_from(s, i + 1)
    } else {
        let j = word_end(s, i);
        proof {
            assert(spec_word_run(s@, i as int) >= 1);
        }
        let word = s.substring_char(i, j).to_owned();
        let mut rest = words_from(s, j);
        rest.insert(0, word);
        proof {
            assert(rest@.map_values(|w: String| w@) =~= seq![s@.subrange(i as int, j as int)]
                + spec_words(s@, j as int));
        }
        rest
    }
}

/// First pass: words from position `i` become tokens, and label
/// definitions fill the table.
fn collect_from(
    words: &Vec<String>,
    i: usize,
    addr: u16,
    table: &mut Vec<(String, u16)>,
) -> (r: Result<Vec<Token>, ParseError>)
    requires
        i <= words@.len(),
    ensures
        ({
            let ws = words@.map_values(|w: String| w@);
            let t0 = old(table)@.map_values(|e: (String, u16)| (e.0@, e.1));
            match r {
                Ok(toks) => spec_collect(ws, i as int, addr, t0) matches Ok((ts, tbl))
                    && toks@.map_values(|t: Token| t@) == ts && final(table)@.map_values(
                    |e: (String, u16)| (e.0@, e.1),
                ) == tbl,
                Err(e) => spec_collect(ws, i as int, addr, t0) is Err && e is InvalidRegister,
            }
        }),
    decreases words@.len() - i,
{
    let ghost ws = words@.map_values(|w: String| w@);
    let ghost t0 = old(table)@.map_values(|e: (String, u16)| (e.0@, e.1));
    if i >= words.len() {
        let empty: Vec<Token> = Vec::new();
        proof {
            assert(empty@.map_values(|t: Token| t@) =~= Seq::<ProgramTokenShape>::empty());
        }
        return Ok(empty);
    }
    proof {
        assert(ws[i as int] == words@[i as int]@);
    }
    let token = match Token::from_str(words[i].as_str()) {
        Ok(t) => t,
        Err(e) => {
            return Err(e);
        },
    };
    match &token {
        Token::KeyWord(kw) => {
            let next_addr = addr.wrapping_add(kw.increment_amount());
            let ghost shape = token@;
            match collect_from(words, i + 1, next_addr, table) {
                Err(e) => Err(e),
                Ok(mut rest) => {
                    rest.insert(0, token);
                    proof {
                        assert(rest@.map_values(|t: Token| t@) =~= seq![shape] + spec_collect(
                            ws,
                            i + 1,
                            vstd::wrapping::u16_specs::wrapping_add(
                                addr,
                                spec_increment_amount(*kw),
                            ),
                            t0,
                        )->Ok_0.0);
                    }
                    Ok(rest)
                },
            }
        },
        Token::Label(Label::Resolved(name)) => {
            let n = name.as_str().unicode_len();
            let bare = if n > 0 {
                name.as_str().substring_char(0, n - 1).to_owned()
            } else {
                name.clone()
            };
            table.push((bare, addr));
            proof {
                assert(table@.map_values(|e: (String, u16)| (e.0@, e.1)) =~= old(
                    table,
                )@.map_values(|e: (String, u16)| (e.0@, e.1)).push(
                    (
                        if name@.len() > 0 {
                            name@.take(name@.len() - 1)
                        } else {
                            name@
                        },
                        addr,
                    ),
                ));
            }
            collect_from(words, i + 1, addr, table)
        },
        _ => {
            let ghost shape = token@;
            match collect_from(words, i + 1, addr, table) {
                Err(e) => Err(e),
                Ok(mut rest) => {
                    rest.insert(0, token);
                    proof {
                        assert(rest@.map_values(|t: Token| t@) =~= seq![shape] + spec_collect(
                            ws,
                            i + 1,
                            addr,
                            t0,
                        )->Ok_0.0);
                    }
                    Ok(rest)
                },
            }
        },
    }
}

/// Clone one program token, preserving its shape.
fn clone_program_token(t: &Token) -> (r: Token)
    ensures
        r@ == t@,
{
    match t {
        Token::KeyWord(kw) => Token::KeyWord(*kw),
        Token::Register(reg) => Token::Register(*reg),
        Token::U16(v) => Token::U16(*v),
        Token::Label(l) => match l {
            Label::Unresolved(name) => Token::Label(Label::Unresolved(name.clone())),
            Label::Resolved(name) => Token::Label(Label::Resolved(name.clone())),
        },
    }
}

/// The offset recorded last under `name`, if any.
fn table_lookup(table: &Vec<(String, u16)>, name: &str) -> (r: Option<u16>)
    ensures
        r == spec_table_lookup(table@.map_values(|e: (String, u16)| (e.0@, e.1)), name@),
{
    let ghost tb = table@.map_values(|e: (String, u16)| (e.0@, e.1));
    let mut k = table.len();
    proof {
        assert(tb.take(k as int) =~= tb);
    }
    while k > 0
        invariant
            k <= table@.len(),
            tb == table@.map_values(|e: (String, u16)| (e.0@, e.1)),
            spec_table_lookup(tb, name@) == spec_table_lookup(tb.take(k as int), name@),
        decreases k,
    {
        if text_eq(table[k - 1].0.as_str(), name) {
            proof {
                assert(tb.take(k as int).last() == (table@[k - 1].0@, table@[k - 1].1));
            }
            return Some(table[k - 1].1);
        }
        proof {
            assert(tb.take(k as int).drop_last() =~= tb.take(k - 1));
            assert(tb.take(k as int).last() == (table@[k - 1].0@, table@[k - 1].1));
        }
        k = k - 1;
    }
    proof {
        assert(tb.take(0) =~= Seq::<(Seq<char>, u16)>::empty());
    }
    None
}

/// Second pass: the tokens from position `i` with label uses replaced by
/// their recorded offsets.
fn patch_from(tokens: &Vec<Token>, i: usize, table: &Vec<(String, u16)>) -> (r: Result<
    Vec<Token>,
    ParseError,
>)
    requires
        i <= tokens@.len(),
    ensures
        ({
            let ts = tokens@.map_values(|t: Token| t@);
            let tb = table@.map_values(|e: (String, u16)| (e.0@, e.1));
            match r {
                Ok(toks) => spec_patch(ts, i as int, tb) == Ok::<Seq<ProgramTokenShape>, Seq<char>>(
                    toks@.map_values(|t: Token| t@),
                ),
                Err(e) => spec_patch(ts, i as int, tb) is Err && e is InvalidToken,
            }
        }),
    decreases tokens@.len() - i,
{
    let ghost ts = tokens@.map_values(|t: Token| t@);
    if i >= tokens.len() {
        let empty: Vec<Token> = Vec::new();
        proof {
            assert(empty@.map_values(|t: Token| t@) =~= Seq::<ProgramTokenShape>::empty());
        }
        return Ok(empty);
    }
    proof {
        assert(ts[i as int] == tokens@[i as int]@);
    }
    let head = match &tokens[i] {
        Token::Label(Label::Unresolved(name)) => match table_lookup(table, name.as_str()) {
            Some(a) => Token::U16(a),
            None => {
                return Err(ParseError::InvalidToken(name.clone()));
            },
        },
        other => clone_program_token(other),
    };
    let ghost shape = head@;
    let ghost tb = table@.map_values(|e: (String, u16)| (e.0@, e.1));
    match patch_from(tokens, i + 1, table) {
        Err(e) => Err(e),
        Ok(mut rest) => {
            rest.insert(0, head);
            proof {
                assert(rest@.map_values(|t: Token| t@) =~= seq![shape] + spec_patch(
                    ts,
                    i + 1,
                    tb,
                )->Ok_0);
            }
            Ok(rest)
        },
    }
}

/// Third pass: the tokens from position `i` cut into statements, each
/// decoded into one instruction.
fn chunks_from(tokens: &Vec<Token>, i: usize) -> (r: Result<Vec<Instruction>, ParseError>)
    requires
        i <= tokens@.len(),
    ensures
        ({
            let ts = tokens@.map_values(|t: Token| t@);
            match r {
                Ok(insts) => spec_chunks(ts, i as int) == Some(insts@),
                Err(e) => spec_chunks(ts, i as int) is None && e is InvalidToken,
            }
        }),
    decreases tokens@.len() - i,
{
    let ghost ts = tokens@.map_values(|t: Token| t@);
    if i >= tokens.len() {
        let empty: Vec<Instruction> = Vec::new();
        proof {
            assert(Some(empty@) =~= spec_chunks(ts, i as int));
        }
        return Ok(empty);
    }
    proof {
        assert(ts[i as int] == tokens@[i as int]@);
    }
    let kw = match &tokens[i] {
        Token::KeyWord(kw) => *kw,
        _ => {
            return Err(ParseError::InvalidToken(String::new()));
        },
    };
    let span = kw.increment_amount() as usize;
    if span > tokens.len() - i {
        return Err(ParseError::InvalidToken(String::new()));
    }
    let stmt = vstd::slice::slice_subrange(tokens.as_slice(), i, i + span);
    proof {
        assert(stmt@.map_values(|t: Token| t@) =~= ts.subrange(i as int, i + span));
    }
    let inst = match tokens_to_instructions(stmt) {
        Ok(inst) => inst,
        Err(e) => {
            return Err(e);
        },
    };
    match chunks_from(tokens, i + span) {
        Err(e) => Err(e),
        Ok(mut rest) => {
            rest.insert(0, inst);
            proof {
                assert(rest@ =~= seq![inst] + spec_chunks(ts, i + span)->Some_0);
            }
            Ok(rest)
        },
    }
}

impl Parser {
    /// A parser over `data`.
    pub fn new(data: &str) -> (r: Self)
        ensures
            r.data@ == data@,
            r.insts@.len() == 0,
    {
        Parser { data: data.to_owned(), insts: Vec::new() }
    }

    /// The instructions of the last successful parse.
    pub fn insts(&self) -> (r: &Vec<Instruction>)
        ensures
            r@ == self.insts@,
    {
        &self.insts
    }

    /// Parse the source: collect label definitions with their statement
    /// offsets, replace label uses by those offsets, and turn each
    /// statement into one instruction.  An empty source is rejected with
    /// `EmptyFile`; otherwise the parse succeeds exactly when the text
    /// assembles, and then holds exactly the assembled instructions.
    pub fn parse(&mut self) -> (r: Result<(), ParseError>)
        ensures
            final(self).data@ == old(self).data@,
            (r matches Err(e) ==> (e is EmptyFile <==> old(self).data@.len() == 0)),
            old(self).data@.len() == 0 ==> r is Err,
            old(self).data@.len() > 0 ==> (match spec_assemble(old(self).data@) {
                Some(insts) => r is Ok && final(self).insts@ == insts,
                None => r is Err,
            }),
    {
        if self.data.as_str().unicode_len() == 0 {
            return Err(ParseError::EmptyFile);
        }
        let word_list = words_from(self.data.as_str(), 0);
        let mut table: Vec<(String, u16)> = Vec::new();
        proof {
            assert(table@.map_values(|e: (String, u16)| (e.0@, e.1)) =~= Seq::<
                (Seq<char>, u16),
            >::empty());
        }
        let tokens = match collect_from(&word_list, 0, 0, &mut table) {
            Ok(ts) => ts,
            Err(e) => {
                return Err(e);
            },
        };
        let patched = match patch_from(&tokens, 0, &table) {
            Ok(ts) => ts,
            Err(e) => {
                return Err(e);
            },
        };
        match chunks_from(&patched, 0) {
            Ok(insts) => {
                self.insts = insts;
                Ok(())
            },
            Err(e) => Err(e),
        }
    }
}

} // verus!
