//! The expression-language parser: it folds `>=`, `<=` and `==` token
//! pairs into single comparison nodes, narrows numbers to their smallest
//! width, and passes every other token through.

use crate::digits::{parse_dec_u32, spec_all_digits, spec_dec_value};
use crate::lang::lexer::{Token, TokenShape};
use vstd::prelude::*;

verus! {

/// A token the parser cannot place: a number too large for 32 bits.
#[derive(Debug)]
pub enum ParserError {
    InvalidToken(String),
}

/// A parsed node: comparison and arithmetic operators, widths-narrowed
/// numbers, parentheses and identifiers.
#[derive(Debug, PartialEq)]
pub enum Node {
    Assign,
    Eq,
    Gt,
    Gte,
    Lt,
    Lte,
    Space,
    U8(u8),
    U16(u16),
    U32(u32),
    Lparen,
    Rparen,
    Ident(String),
    Types(Types),
    Add,
    Sub,
    Mult,
    Div,
}

/// A typed constant value.
#[derive(Debug, PartialEq)]
pub enum Types {
    U8(u8),
    U16(u16),
    U32(u32),
    Bool(bool),
}

/// The mathematical shape of a node: as [`Node`], with text as a
/// character sequence.
pub enum NodeShape {
    Assign,
    Eq,
    Gt,
    Gte,
    Lt,
    Lte,
    Space,
    U8(u8),
    U16(u16),
    U32(u32),
    Lparen,
    Rparen,
    Ident(Seq<char>),
    Types,
    Add,
    Sub,
    Mult,
    Div,
}

impl View for Node {
    type V = NodeShape;

    open spec fn view(&self) -> NodeShape {
        match self {
            Node::Assign => NodeShape::Assign,
            Node::Eq => NodeShape::Eq,
            Node::Gt => NodeShape::Gt,
            Node::Gte => NodeShape::Gte,
            Node::Lt => NodeShape::Lt,
            Node::Lte => NodeShape::Lte,
            Node::Space => NodeShape::Space,
            Node::U8(v) => NodeShape::U8(*v),
            Node::U16(v) => NodeShape::U16(*v),
            Node::U32(v) => NodeShape::U32(*v),
            Node::Lparen => NodeShape::Lparen,
            Node::Rparen => NodeShape::Rparen,
            Node::Ident(t) => NodeShape::Ident(t@),
            Node::Types(_) => NodeShape::Types,
            Node::Add => NodeShape::Add,
            Node::Sub => NodeShape::Sub,
            Node::Mult => NodeShape::Mult,
            Node::Div => NodeShape::Div,
        }
    }
}

/// The parse tree: a flat list of nodes.
#[derive(Debug, Default)]
pub struct Ast {
    pub nodes: Vec<Node>,
}

impl Ast {
    /// Append a node.
    pub fn push(&mut self, node: Node)
        ensures
            final(self).nodes@ == old(self).nodes@.push(node),
    {
        self.nodes.push(node);
    }
}

/// The shape of a possibly-peeked token.
pub open spec fn spec_peek_shape(p: Option<&Token>) -> Option<TokenShape> {
    match p {
        Some(t) => Some(t@),
        None => None,
    }
}

/// Whether a token folds with the token peeked after it.
pub open spec fn spec_folds(t: TokenShape, peek: Option<TokenShape>) -> bool {
    match peek {
        Some(p) => spec_is_pair(t, p),
        None => false,
    }
}

/// Whether two adjacent tokens fold into one comparison node.
pub open spec fn spec_is_pair(a: TokenShape, b: TokenShape) -> bool {
    (a is LCarrot || a is RCarrot || a is EqSign) && b is EqSign
}

/// The node a single token parses to: numbers are narrowed to the
/// smallest width that holds their value, and a number that does not fit
/// 32 bits is the error case, reported as its text.
pub open spec fn spec_node_of(t: TokenShape) -> Result<NodeShape, Seq<char>> {
    match t {
        TokenShape::LCarrot => Ok(NodeShape::Lt),
        TokenShape::RCarrot => Ok(NodeShape::Gt),
        TokenShape::EqSign => Ok(NodeShape::Assign),
        TokenShape::Space => Ok(NodeShape::Space),
        TokenShape::Number(text) => if text.len() > 0 && spec_all_digits(text) && spec_dec_value(
            text,
        ) <= u32::MAX {
            let v = spec_dec_value(text);
            if v <= u8::MAX {
                Ok(NodeShape::U8(v as u8))
            } else if v <= u16::MAX {
                Ok(NodeShape::U16(v as u16))
            } else {
                Ok(NodeShape::U32(v as u32))
            }
        } else {
            Err(text)
        },
        TokenShape::Lparen => Ok(NodeShape::Lparen),
        TokenShape::Rparen => Ok(NodeShape::Rparen),
        TokenShape::Ident(text) => Ok(NodeShape::Ident(text)),
        TokenShape::Plus => Ok(NodeShape::Add),
        TokenShape::Sub => Ok(NodeShape::Sub),
        TokenShape::Mult => Ok(NodeShape::Mult),
        TokenShape::Div => Ok(NodeShape::Div),
    }
}

/// The node stream of the tokens from position `i` on: a `<`, `>` or `=`
/// followed by `=` folds into `Lte`, `Gte` or `Eq`; every other token
/// parses on its own.
pub open spec fn spec_parse(ts: Seq<TokenShape>, i: int) -> Result<Seq<NodeShape>, Seq<char>>
    decreases ts.len() - i
        when 0 <= i
{
    if i >= ts.len() {
        Ok(Seq::empty())
    } else if i + 1 < ts.len() && spec_is_pair(ts[i], ts[i + 1]) {
        let node = if ts[i] is LCarrot {
            NodeShape::Lte
        } else if ts[i] is RCarrot {
            NodeShape::Gte
        } else {
            NodeShape::Eq
        };
        match spec_parse(ts, i + 2) {
            Err(e) => Err(e),
            Ok(rest) => Ok(seq![node] + rest),
        }
    } else {
        match spec_node_of(ts[i]) {
            Err(e) => Err(e),
            Ok(node) => match spec_parse(ts, i + 1) {
                Err(e) => Err(e),
                Ok(rest) => Ok(seq![node] + rest),
            },
        }
    }
}

/// The node one token parses to, folding a peeked `=` into a comparison.
fn peeked_tokens(token: &Token, peeked_token: Option<&Token>) -> (r: Result<(Node, bool), ParserError>)
    ensures
        match r {
            Ok((node, folded)) => {
                &&& folded == spec_folds(token@, spec_peek_shape(peeked_token))
                &&& (folded ==> node@ == (if token@ is LCarrot {
                    NodeShape::Lte
                } else if token@ is RCarrot {
                    NodeShape::Gte
                } else {
                    NodeShape::Eq
                }))
                &&& (!folded ==> spec_node_of(token@) == Ok::<NodeShape, Seq<char>>(node@))
            },
            Err(e) => spec_node_of(token@) is Err && !spec_folds(
                token@,
                spec_peek_shape(peeked_token),
            ) && (e matches ParserError::InvalidToken(t) && t@ == spec_node_of(token@)->Err_0),
        },
{
    let second_eq = match peeked_token {
        Some(Token::EqSign) => true,
        _ => false,
    };
    match token {
        Token::LCarrot => if second_eq {
            Ok((Node::Lte, true))
        } else {
            Ok((Node::Lt, false))
        },
        Token::RCarrot => if second_eq {
            Ok((Node::Gte, true))
        } else {
            Ok((Node::Gt, false))
        },
        Token::EqSign => if second_eq {
            Ok((Node::Eq, true))
        } else {
            Ok((Node::Assign, false))
        },
        Token::Space => Ok((Node::Space, false)),
        Token::Number(text) => match parse_dec_u32(text.as_str()) {
            Some(v) => if v <= u8::MAX as u32 {
                Ok((Node::U8(v as u8), false))
            } else if v <= u16::MAX as u32 {
                Ok((Node::U16(v as u16), false))
            } else {
                Ok((Node::U32(v), false))
            },
            None => Err(ParserError::InvalidToken(text.clone())),
        },
        Token::Lparen => Ok((Node::Lparen, false)),
        Token::Rparen => Ok((Node::Rparen, false)),
        Token::Ident(text) => Ok((Node::Ident(text.clone()), false)),
        Token::Plus => Ok((Node::Add, false)),
        Token::Sub => Ok((Node::Sub, false)),
        Token::Mult => Ok((Node::Mult, false)),
        Token::Div => Ok((Node::Div, false)),
    }
}

/// The parser.  It holds no state of its own; `parse` maps a token stream
/// to its node stream.
#[derive(Default, Debug)]
pub struct Parser {
}

/// Parse the tokens from position `i` to the end.
fn parse_from(tokens: &Vec<Token>, i: usize) -> (r: Result<Vec<Node>, ParserError>)
    requires
        i <= tokens@.len(),
    ensures
        ({
            let ts = tokens@.map_values(|t: Token| t@);
            match r {
                Ok(nodes) => spec_parse(ts, i as int) == Ok::<Seq<NodeShape>, Seq<char>>(
                    nodes@.map_values(|nd: Node| nd@),
                ),
                Err(e) => spec_parse(ts, i as int) is Err && (e matches ParserError::InvalidToken(
                    t,
                ) && t@ == spec_parse(ts, i as int)->Err_0),
            }
        }),
    decreases tokens@.len() - i,
{
    let ghost ts = tokens@.map_values(|t: Token| t@);
    if i >= tokens.len() {
        let empty: Vec<Node> = Vec::new();
        proof {
            assert(empty@.map_values(|nd: Node| nd@) =~= Seq::<NodeShape>::empty());
        }
        return Ok(empty);
    }
    let peek = if i + 1 < tokens.len() {
        Some(&tokens[i + 1])
    } else {
        None
    };
    match peeked_tokens(&tokens[i], peek) {
        Err(e) => Err(e),
        Ok((node, folded)) => {
            let next = if folded {
                i + 2
            } else {
                i + 1
            };
            match parse_from(tokens, next) {
                Err(e) => Err(e),
                Ok(mut rest) => {
                    let ghost shape = node@;
                    rest.insert(0, node);
                    proof {
                        assert(rest@.map_values(|nd: Node| nd@) =~= seq![shape] + spec_parse(
                            ts,
                            next as int,
                        )->Ok_0);
                    }
                    Ok(rest)
                },
            }
        },
    }
}

impl Parser {
    /// Parse a token stream into its node stream.
    pub fn parse(self, tokens: Vec<Token>) -> (r: Result<Ast, ParserError>)
        ensures
            ({
                let ts = tokens@.map_values(|t: Token| t@);
                match r {
                    Ok(ast) => spec_parse(ts, 0) == Ok::<Seq<NodeShape>, Seq<char>>(
                        ast.nodes@.map_values(|nd: Node| nd@),
                    ),
                    Err(e) => spec_parse(ts, 0) is Err && (e matches ParserError::InvalidToken(t)
                        && t@ == spec_parse(ts, 0)->Err_0),
                }
            }),
    {
        match parse_from(&tokens, 0) {
            Ok(nodes) => Ok(Ast { nodes }),
            Err(e) => Err(e),
        }
    }
}

} // verus!
