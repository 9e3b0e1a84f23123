//! The assembler's syntax layer: mnemonic keywords, an abstract-syntax
//! list over the lexer's tokens, and label resolution.  A label definition
//! `name:` records the current byte offset; a later use of `name` becomes
//! that offset.

use crate::assembler::error::ParseError;
use crate::assembler::tokens::{Lexer, Number, Token, TokenShape};
use crate::memory::Address;
use vstd::prelude::*;
use vstd::wrapping::u64_specs;

verus! {

/// An instruction mnemonic of the assembly language.
#[derive(Clone, Copy, Debug, PartialEq, Eq, Structural)]
pub enum KeyWord {
    Mov,
    Add,
    Load,
    Jump,
    Push,
    Pop,
    Call,
    Ret,
    Halt,
    Cmp,
    Inc,
    Store,
    Interrupt,
}

/// The mnemonic a lower-case word names, if any.
pub open spec fn spec_keyword_from_chars(s: Seq<char>) -> Option<KeyWord> {
    if s == "mov"@ {
        Some(KeyWord::Mov)
    } else if s == "add"@ {
        Some(KeyWord::Add)
    } else if s == "load"@ {
        Some(KeyWord::Load)
    } else if s == "jump"@ {
        Some(KeyWord::Jump)
    } else if s == "push"@ {
        Some(KeyWord::Push)
    } else if s == "pop"@ {
        Some(KeyWord::Pop)
    } else if s == "call"@ {
        Some(KeyWord::Call)
    } else if s == "ret"@ {
        Some(KeyWord::Ret)
    } else if s == "halt"@ {
        Some(KeyWord::Halt)
    } else if s == "cmp"@ {
        Some(KeyWord::Cmp)
    } else if s == "inc"@ {
        Some(KeyWord::Inc)
    } else if s == "store"@ {
        Some(KeyWord::Store)
    } else if s == "interrupt"@ {
        Some(KeyWord::Interrupt)
    } else {
        None
    }
}

impl KeyWord {
    /// Parse a lower-case mnemonic.
    pub fn from_str(value: &str) -> (r: Result<KeyWord, ParseError>)
        ensures
            match r {
                Ok(kw) => spec_keyword_from_chars(value@) == Some(kw),
                Err(e) => spec_keyword_from_chars(value@) is None && (e
                    matches ParseError::InvalidKeyWord(t) && t@ == value@),
            },
    {
        let names = ["mov", "add", "load", "jump", "push", "pop", "call", "ret", "halt", "cmp",
            "inc", "store", "interrupt"];
        if crate::registers::text_eq(value, names[0]) {
            Ok(KeyWord::Mov)
        } else if crate::registers::text_eq(value, names[1]) {
            Ok(KeyWord::Add)
        } else if crate::registers::text_eq(value, names[2]) {
            Ok(KeyWord::Load)
        } else if crate::registers::text_eq(value, names[3]) {
            Ok(KeyWord::Jump)
        } else if crate::registers::text_eq(value, names[4]) {
            Ok(KeyWord::Push)
        } else if crate::registers::text_eq(value, names[5]) {
            Ok(KeyWord::Pop)
        } else if crate::registers::text_eq(value, names[6]) {
            Ok(KeyWord::Call)
        } else if crate::registers::text_eq(value, names[7]) {
            Ok(KeyWord::Ret)
        } else if crate::registers::text_eq(value, names[8]) {
            Ok(KeyWord::Halt)
        } else if crate::registers::text_eq(value, names[9]) {
            Ok(KeyWord::Cmp)
        } else if crate::registers::text_eq(value, names[10]) {
            Ok(KeyWord::Inc)
        } else if crate::registers::text_eq(value, names[11]) {
            Ok(KeyWord::Store)
        } else if crate::registers::text_eq(value, names[12]) {
            Ok(KeyWord::Interrupt)
        } else {
            Err(ParseError::InvalidKeyWord(value.to_owned()))
        }
    }
}

/// One node of the abstract-syntax list: a passed-through token, a
/// resolved label offset, an unresolved identifier, or a mnemonic.
#[derive(Clone, Debug, PartialEq, Eq)]
pub enum AstNode {
    Token(Token),
    Label(Address),
    Ident(String),
    KeyWord(KeyWord),
}

/// The mathematical shape of a node, with text as character sequences.
pub enum AstNodeShape {
    Token(TokenShape),
    Label(Address),
    Ident(Seq<char>),
    KeyWord(KeyWord),
}

impl View for AstNode {
    type V = AstNodeShape;

    open spec fn view(&self) -> AstNodeShape {
        match self {
            AstNode::Token(t) => AstNodeShape::Token(t@),
            AstNode::Label(a) => AstNodeShape::Label(*a),
            AstNode::Ident(t) => AstNodeShape::Ident(t@),
            AstNode::KeyWord(k) => AstNodeShape::KeyWord(*k),
        }
    }
}

/// How many bytes of operand encoding a node stands for: one for a
/// register, the width of a number, nothing for anything else.
pub open spec fn spec_byte_size(n: AstNodeShape) -> int {
    match n {
        AstNodeShape::Token(t) => match t {
            TokenShape::Register(_) => 1,
            TokenShape::Number(num) => match num {
                Number::U8(_) => 1,
                Number::U16(_) => 2,
                Number::U32(_) => 4,
            },
            _ => 0,
        },
        _ => 0,
    }
}

/// The node a non-identifier token becomes: a bracketed address becomes a
/// resolved label, everything else is passed through.
pub open spec fn spec_node_of_token(t: TokenShape) -> AstNodeShape {
    match t {
        TokenShape::Address(a) => AstNodeShape::Label(Address(a.0)),
        TokenShape::Identifier(s) => AstNodeShape::Ident(s),
        _ => AstNodeShape::Token(t),
    }
}

/// Clone one lexer token, preserving its shape.
fn clone_token(t: &Token) -> (r: Token)
    ensures
        r@ == t@,
{
    match t {
        Token::Register(reg) => Token::Register(*reg),
        Token::Number(num) => Token::Number(*num),
        Token::Address(a) => Token::Address(*a),
        Token::Identifier(s) => Token::Identifier(s.clone()),
        Token::Comma => Token::Comma,
        Token::Space => Token::Space,
    }
}

/// Clone one syntax node, preserving its shape.
fn clone_node(n: &AstNode) -> (r: AstNode)
    ensures
        r@ == n@,
{
    match n {
        AstNode::Token(t) => AstNode::Token(clone_token(t)),
        AstNode::Label(a) => AstNode::Label(*a),
        AstNode::Ident(s) => AstNode::Ident(s.clone()),
        AstNode::KeyWord(k) => AstNode::KeyWord(*k),
    }
}

impl AstNode {
    /// How many bytes of operand encoding this node stands for.
    pub fn byte_size(&self) -> (r: Option<usize>)
        ensures
            r == (if spec_byte_size(self@) > 0 {
                Some(spec_byte_size(self@) as usize)
            } else {
                None::<usize>
            }),
    {
        match self {
            AstNode::Token(token) => match token {
                Token::Register(_) => Some(1),
                Token::Number(number) => match number {
                    Number::U8(_) => Some(1),
                    Number::U16(_) => Some(2),
                    Number::U32(_) => Some(4),
                },
                _ => None,
            },
            _ => None,
        }
    }

    /// The node a token becomes.
    pub fn from_token(value: Token) -> (r: AstNode)
        ensures
            r@ == spec_node_of_token(value@),
    {
        match value {
            Token::Address(address) => AstNode::Label(Address(address.0)),
            Token::Identifier(ident) => AstNode::Ident(ident),
            other => AstNode::Token(other),
        }
    }
}

/// The abstract-syntax list.
#[derive(Debug, Default)]
pub struct Ast {
    pub nodes: Vec<AstNode>,
}

impl Ast {
    /// Append a node.
    pub fn push(&mut self, node: AstNode)
        ensures
            final(self).nodes@ == old(self).nodes@.push(node),
    {
        self.nodes.push(node);
    }

    /// The node at `idx`, if any.
    pub fn get(&self, idx: usize) -> (r: Option<&AstNode>)
        ensures
            r == (if idx < self.nodes@.len() {
                Some(&self.nodes@[idx as int])
            } else {
                None::<&AstNode>
            }),
    {
        if idx < self.nodes.len() {
            Some(&self.nodes[idx])
        } else {
            None
        }
    }

    /// Replace the node at `idx`; out of range, nothing changes.
    pub fn set(&mut self, idx: usize, node: AstNode)
        ensures
            final(self).nodes@ == (if idx < old(self).nodes@.len() {
                old(self).nodes@.update(idx as int, node)
            } else {
                old(self).nodes@
            }),
    {
        if idx < self.nodes.len() {
            self.nodes[idx] = node;
        }
    }
}

/// The bytes one node contributes to an encoded image: a register's code
/// byte, a number's little-endian bytes, a label's four offset bytes;
/// identifiers, mnemonics and separators contribute nothing.
pub open spec fn spec_node_bytes(n: AstNodeShape) -> Seq<u8> {
    match n {
        AstNodeShape::Token(t) => match t {
            TokenShape::Register(r) => seq![crate::registers::spec_register_code(r)],
            TokenShape::Number(num) => match num {
                Number::U8(v) => seq![v],
                Number::U16(v) => vstd::bytes::spec_u16_to_le_bytes(v),
                Number::U32(v) => vstd::bytes::spec_u32_to_le_bytes(v),
            },
            TokenShape::Address(a) => vstd::bytes::spec_u32_to_le_bytes(a.0),
            _ => Seq::empty(),
        },
        AstNodeShape::Label(a) => vstd::bytes::spec_u32_to_le_bytes(a.0),
        _ => Seq::empty(),
    }
}

/// The bytes of the nodes from position `i` on, in order.
pub open spec fn spec_ast_bytes(ns: Seq<AstNodeShape>, i: int) -> Seq<u8>
    decreases ns.len() - i
        when 0 <= i
{
    if i >= ns.len() {
        Seq::empty()
    } else {
        spec_node_bytes(ns[i]) + spec_ast_bytes(ns, i + 1)
    }
}

/// Encode the nodes from position `i` on.
fn bytes_from(nodes: &Vec<AstNode>, i: usize) -> (r: Vec<u8>)
    requires
        i <= nodes@.len(),
    ensures
        r@ == spec_ast_bytes(nodes@.map_values(|n: AstNode| n@), i as int),
    decreases nodes@.len() - i,
{
    let ghost ns = nodes@.map_values(|n: AstNode| n@);
    if i >= nodes.len() {
        let empty: Vec<u8> = Vec::new();
        proof {
            assert(empty@ =~= spec_ast_bytes(ns, i as int));
        }
        return empty;
    }
    proof {
        assert(ns[i as int] == nodes@[i as int]@);
    }
    let mut head: Vec<u8> = Vec::new();
    match &nodes[i] {
        AstNode::Token(token) => match token {
            Token::Register(r) => {
                head.push(r.code());
            },
            Token::Number(num) => match num {
                Number::U8(v) => {
                    head.push(*v);
                },
                Number::U16(v) => {
                    let mut b = vstd::bytes::u16_to_le_bytes(*v);
                    head.append(&mut b);
                },
                Number::U32(v) => {
                    let mut b = vstd::bytes::u32_to_le_bytes(*v);
                    head.append(&mut b);
                },
            },
            Token::Address(a) => {
                let mut b = vstd::bytes::u32_to_le_bytes(a.0);
                head.append(&mut b);
            },
            _ => {},
        },
        AstNode::Label(a) => {
            let mut b = vstd::bytes::u32_to_le_bytes(a.0);
            head.append(&mut b);
        },
        _ => {},
    }
    proof {
        assert(head@ =~= spec_node_bytes(ns[i as int]));
    }
    let mut rest = bytes_from(nodes, i + 1);
    head.append(&mut rest);
    proof {
        assert(head@ =~= spec_node_bytes(ns[i as int]) + spec_ast_bytes(ns, i + 1));
    }
    head
}

impl Ast {
    /// The encoded bytes of the whole node list.
    pub fn into_bytes(self) -> (r: Vec<u8>)
        ensures
            r@ == spec_ast_bytes(self.nodes@.map_values(|n: AstNode| n@), 0),
    {
        bytes_from(&self.nodes, 0)
    }
}

/// One recorded label definition: its name and its byte offset.
#[derive(Debug)]
pub struct LabelDef {
    pub name: String,
    pub offset: u32,
}

/// The offset of the last definition of `name`, if any.
pub open spec fn spec_lookup(labels: Seq<(Seq<char>, u32)>, name: Seq<char>) -> Option<u32>
    decreases labels.len(),
{
    if labels.len() == 0 {
        None
    } else if labels.last().0 == name {
        Some(labels.last().1)
    } else {
        spec_lookup(labels.drop_last(), name)
    }
}

/// The first pass over the token stream from position `i`: mnemonics
/// become keyword nodes, a word ending in `:` records the running byte
/// offset under its name, other words stay identifiers, and every other
/// token advances the offset by the bytes it stands for.
pub open spec fn spec_build(ts: Seq<TokenShape>, i: int, addr: u64, labels: Seq<(Seq<char>, u32)>) -> (
    Seq<AstNodeShape>,
    Seq<(Seq<char>, u32)>,
)
    decreases ts.len() - i
        when 0 <= i
{
    if i >= ts.len() {
        (Seq::empty(), labels)
    } else {
        match ts[i] {
            TokenShape::Identifier(s) => {
                if spec_keyword_from_chars(s) is Some {
                    let (rest, ls) = spec_build(ts, i + 1, addr, labels);
                    (
                        seq![AstNodeShape::KeyWord(spec_keyword_from_chars(s)->Some_0)] + rest,
                        ls,
                    )
                } else if s.len() > 0 && s.last() == ':' {
                    spec_build(
                        ts,
                        i + 1,
                        u64_specs::wrapping_add(addr, 4),
                        labels.push((s.take(s.len() - 1), addr as u32)),
                    )
                } else {
                    let (rest, ls) = spec_build(ts, i + 1, addr, labels);
                    (seq![AstNodeShape::Ident(s)] + rest, ls)
                }
            },
            t => {
                let (rest, ls) = spec_build(
                    ts,
                    i + 1,
                    u64_specs::wrapping_add(addr, spec_byte_size(spec_node_of_token(t)) as u64),
                    labels,
                );
                (seq![spec_node_of_token(t)] + rest, ls)
            },
        }
    }
}

/// The second pass: every identifier node whose name was recorded as a
/// label becomes that label's offset.
pub open spec fn spec_resolve(ns: Seq<AstNodeShape>, labels: Seq<(Seq<char>, u32)>) -> Seq<
    AstNodeShape,
> {
    ns.map_values(
        |n: AstNodeShape|
            match n {
                AstNodeShape::Ident(s) => match spec_lookup(labels, s) {
                    Some(a) => AstNodeShape::Label(Address(a)),
                    None => AstNodeShape::Ident(s),
                },
                other => other,
            },
    )
}

/// The whole parse of a source text: lex it, build the node list and the
/// label table, then resolve the identifiers.
pub open spec fn spec_parse(s: Seq<char>) -> Seq<AstNodeShape> {
    let ts = crate::assembler::tokens::spec_lex(s, 0);
    let (ns, labels) = spec_build(ts, 0, 0, Seq::empty());
    spec_resolve(ns, labels)
}

/// The assembler's front half: the resolved abstract-syntax list of one
/// source text.
#[derive(Debug, Default)]
pub struct Parser {
    pub ast: Ast,
    pub labels: Vec<LabelDef>,
}

/// First pass over the tokens, from position `i`.
fn build_from(tokens: &Vec<Token>, i: usize, addr: u64, labels: &mut Vec<LabelDef>) -> (r: Vec<
    AstNode,
>)
    requires
        i <= tokens@.len(),
    ensures
        ({
            let ts = tokens@.map_values(|t: Token| t@);
            let (ns, ls) = spec_build(
                ts,
                i as int,
                addr,
                old(labels)@.map_values(|l: LabelDef| (l.name@, l.offset)),
            );
            &&& r@.map_values(|n: AstNode| n@) == ns
            &&& final(labels)@.map_values(|l: LabelDef| (l.name@, l.offset)) == ls
        }),
    decreases tokens@.len() - i,
{
    let ghost ts = tokens@.map_values(|t: Token| t@);
    if i >= tokens.len() {
        let empty: Vec<AstNode> = Vec::new();
        proof {
            assert(empty@.map_values(|n: AstNode| n@) =~= Seq::<AstNodeShape>::empty());
        }
        return empty;
    }
    let token = &tokens[i];
    proof {
        assert(ts[i as int] == token@);
    }
    match token {
        Token::Identifier(s) => {
            match KeyWord::from_str(s.as_str()) {
                Ok(kw) => {
                    let mut rest = build_from(tokens, i + 1, addr, labels);
                    rest.insert(0, AstNode::KeyWord(kw));
                    proof {
                        assert(rest@.map_values(|n: AstNode| n@) =~= seq![
                            AstNodeShape::KeyWord(kw),
                        ] + spec_build(
                            ts,
                            i + 1,
                            addr,
                            old(labels)@.map_values(|l: LabelDef| (l.name@, l.offset)),
                        ).0);
                    }
                    rest
                },
                Err(_) => {
                    let n = s.as_str().unicode_len();
                    let ends_colon = n > 0 && s.as_str().get_char(n - 1) == ':';
                    if ends_colon {
                        let name = s.as_str().substring_char(0, n - 1).to_owned();
                        labels.push(LabelDef { name, offset: #[verifier::truncate] (addr as u32) });
                        proof {
                            assert(labels@.map_values(|l: LabelDef| (l.name@, l.offset)) =~= old(
                                labels,
                            )@.map_values(|l: LabelDef| (l.name@, l.offset)).push(
                                (s@.take(s@.len() - 1), addr as u32),
                            ));
                        }
                        build_from(tokens, i + 1, addr.wrapping_add(4), labels)
                    } else {
                        let mut rest = build_from(tokens, i + 1, addr, labels);
                        rest.insert(0, AstNode::Ident(s.clone()));
                        proof {
                            assert(rest@.map_values(|n: AstNode| n@) =~= seq![
                                AstNodeShape::Ident(s@),
                            ] + spec_build(
                                ts,
                                i + 1,
                                addr,
                                old(labels)@.map_values(|l: LabelDef| (l.name@, l.offset)),
                            ).0);
                        }
                        rest
                    }
                },
            }
        },
        _ => {
            let node = AstNode::from_token(clone_token(token));
            let size = match node.byte_size() {
                Some(k) => k as u64,
                None => 0,
            };
            let ghost shape = node@;
            let mut rest = build_from(tokens, i + 1, addr.wrapping_add(size), labels);
            rest.insert(0, node);
            proof {
                assert(rest@.map_values(|n: AstNode| n@) =~= seq![shape] + spec_build(
                    ts,
                    i + 1,
                    u64_specs::wrapping_add(
                        addr,
                        spec_byte_size(spec_node_of_token(token@)) as u64,
                    ),
                    old(labels)@.map_values(|l: LabelDef| (l.name@, l.offset)),
                ).0);
            }
            rest
        },
    }
}

/// The offset recorded last under `name`, if any.
fn lookup_label(labels: &Vec<LabelDef>, name: &str) -> (r: Option<u32>)
    ensures
        r == spec_lookup(labels@.map_values(|l: LabelDef| (l.name@, l.offset)), name@),
    decreases labels@.len(),
{
    let ghost ls = labels@.map_values(|l: LabelDef| (l.name@, l.offset));
    let mut k = labels.len();
    proof {
        assert(ls.take(k as int) =~= ls);
    }
    while k > 0
        invariant
            k <= labels@.len(),
            ls == labels@.map_values(|l: LabelDef| (l.name@, l.offset)),
            spec_lookup(ls, name@) == spec_lookup(ls.take(k as int), name@),
        decreases k,
    {
        if crate::registers::text_eq(labels[k - 1].name.as_str(), name) {
            proof {
                assert(ls.take(k as int).last() == (labels@[k - 1].name@, labels@[k - 1].offset));
            }
            return Some(labels[k - 1].offset);
        }
        proof {
            assert(ls.take(k as int).drop_last() =~= ls.take(k - 1));
            assert(ls.take(k as int).last() == (labels@[k - 1].name@, labels@[k - 1].offset));
        }
        k = k - 1;
    }
    proof {
        assert(ls.take(0) =~= Seq::<(Seq<char>, u32)>::empty());
    }
    None
}

impl Parser {
    /// Append a node to the syntax list.
    pub fn push(&mut self, node: AstNode)
        ensures
            final(self).ast.nodes@ == old(self).ast.nodes@.push(node),
    {
        self.ast.push(node);
    }

    /// Parse a source text into its resolved abstract-syntax list.  An
    /// empty text is rejected; everything else parses.
    pub fn parse(data: &str) -> (r: Result<Parser, ParseError>)
        ensures
            match r {
                Ok(p) => data@.len() > 0 && p.ast.nodes@.map_values(|n: AstNode| n@) == spec_parse(
                    data@,
                ),
                Err(e) => data@.len() == 0 && (e is EmptyFile),
            },
    {
        if data.unicode_len() == 0 {
            return Err(ParseError::EmptyFile);
        }
        let lexer = Lexer::lex(data);
        let mut labels: Vec<LabelDef> = Vec::new();
        proof {
            assert(labels@.map_values(|l: LabelDef| (l.name@, l.offset)) =~= Seq::<
                (Seq<char>, u32),
            >::empty());
        }
        let nodes = build_from(&lexer.tokens, 0, 0, &mut labels);
        let ghost built = nodes@.map_values(|n: AstNode| n@);
        let ghost ls = labels@.map_values(|l: LabelDef| (l.name@, l.offset));
        let mut resolved: Vec<AstNode> = Vec::new();
        let n = nodes.len();
        let mut idx: usize = 0;
        while idx < n
            invariant
                idx <= n,
                n == nodes@.len(),
                built == nodes@.map_values(|nd: AstNode| nd@),
                ls == labels@.map_values(|l: LabelDef| (l.name@, l.offset)),
                resolved@.map_values(|nd: AstNode| nd@) =~= spec_resolve(
                    built.take(idx as int),
                    ls,
                ),
            decreases n - idx,
        {
            let node = &nodes[idx];
            proof {
                assert(built[idx as int] == node@);
            }
            let new_node = match node {
                AstNode::Ident(name) => match lookup_label(&labels, name.as_str()) {
                    Some(a) => AstNode::Label(Address(a)),
                    None => AstNode::Ident(name.clone()),
                },
                other => clone_node(other),
            };
            let ghost prev = resolved@.map_values(|nd: AstNode| nd@);
            let ghost shape = new_node@;
            resolved.push(new_node);
            proof {
                assert(resolved@.map_values(|nd: AstNode| nd@) =~= prev.push(shape));
                assert(built.take(idx + 1).drop_last() =~= built.take(idx as int));
                assert(spec_resolve(built.take(idx + 1), ls) =~= spec_resolve(
                    built.take(idx as int),
                    ls,
                ).push(shape));
                assert(resolved@.map_values(|nd: AstNode| nd@) =~= spec_resolve(
                    built.take(idx + 1),
                    ls,
                ));
            }
            idx += 1;
        }
        proof {
            assert(built.take(n as int) =~= built);
        }
        Ok(Parser { ast: Ast { nodes: resolved }, labels })
    }
}

} // verus!
