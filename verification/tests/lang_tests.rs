//! Tests of the expression-language lexer and parser.

use vm_cpu::lang::lexer::{Lexer, Token};
use vm_cpu::lang::parser::{Node, Parser, ParserError};

fn lex(data: &str) -> Vec<Token> {
    Lexer::new(data).lex().unwrap()
}

fn run(src: &str) -> Result<Vec<Node>, ParserError> {
    let tokens = Lexer::new(src).lex().unwrap();
    Parser::default().parse(tokens).map(|ast| ast.nodes)
}

#[test]
fn lexer_add() {
    assert_eq!(lex("+"), [Token::Plus])
}

#[test]
fn lexer_sub() {
    assert_eq!(lex("-"), [Token::Sub])
}

#[test]
fn lexer_mult() {
    assert_eq!(lex("*"), [Token::Mult])
}

#[test]
fn lexer_div() {
    assert_eq!(lex("/"), [Token::Div])
}

#[test]
fn lcarrot() {
    assert_eq!(lex("<"), [Token::LCarrot])
}

#[test]
fn rcarrot() {
    assert_eq!(lex(">"), [Token::RCarrot])
}

#[test]
fn lparen() {
    assert_eq!(lex("("), [Token::Lparen])
}

#[test]
fn rparen() {
    assert_eq!(lex(")"), [Token::Rparen])
}

#[test]
fn lexer_eq() {
    assert_eq!(lex("="), [Token::EqSign])
}

#[test]
fn number() {
    assert_eq!(lex("123456"), [Token::Number(String::from("123456"))])
}

#[test]
fn lexer_ident() {
    assert_eq!(lex("hello"), [Token::Ident(String::from("hello"))])
}

#[test]
fn lexer_rejects_stray_characters() {
    assert!(Lexer::new("a # b").lex().is_err());
}

#[test]
fn gte() {
    assert_eq!(run(">=").unwrap(), [Node::Gte]);
}

#[test]
fn gt() {
    assert_eq!(run(">").unwrap(), [Node::Gt]);
}

#[test]
fn gte_space() {
    assert_eq!(run(">= ").unwrap(), [Node::Gte, Node::Space]);
}

#[test]
fn gt_space() {
    assert_eq!(run("> ").unwrap(), [Node::Gt, Node::Space]);
}

#[test]
fn lte() {
    assert_eq!(run("<=").unwrap(), [Node::Lte]);
}

#[test]
fn lt() {
    assert_eq!(run("<").unwrap(), [Node::Lt]);
}

#[test]
fn lte_space() {
    assert_eq!(run("<= ").unwrap(), [Node::Lte, Node::Space]);
}

#[test]
fn lt_space() {
    assert_eq!(run("< ").unwrap(), [Node::Lt, Node::Space]);
}

#[test]
fn parser_eq() {
    assert_eq!(run("==").unwrap(), [Node::Eq]);
}

#[test]
fn eq_space() {
    assert_eq!(run("== ").unwrap(), [Node::Eq, Node::Space]);
}

#[test]
fn nums() {
    assert_eq!(run("12345").unwrap(), [Node::U16(12345)]);
}

#[test]
fn idents() {
    assert_eq!(
        run("h e l l o").unwrap(),
        [
            Node::Ident(String::from("h")),
            Node::Space,
            Node::Ident(String::from("e")),
            Node::Space,
            Node::Ident(String::from("l")),
            Node::Space,
            Node::Ident(String::from("l")),
            Node::Space,
            Node::Ident(String::from("o"))
        ]
    );
}

#[test]
fn lang_add() {
    assert_eq!(
        run("1 + 2").unwrap(),
        [
            Node::U8(1),
            Node::Space,
            Node::Add,
            Node::Space,
            Node::U8(2)
        ]
    )
}

#[test]
fn parser_sub() {
    assert_eq!(
        run("1 - 2").unwrap(),
        [
            Node::U8(1),
            Node::Space,
            Node::Sub,
            Node::Space,
            Node::U8(2)
        ]
    )
}

#[test]
fn parser_mult() {
    assert_eq!(
        run("1 * 2").unwrap(),
        [
            Node::U8(1),
            Node::Space,
            Node::Mult,
            Node::Space,
            Node::U8(2)
        ]
    )
}

#[test]
fn parser_div() {
    assert_eq!(run("1/2").unwrap(), [Node::U8(1), Node::Div, Node::U8(2)])
}

#[test]
fn parser_rejects_numbers_past_32_bits() {
    assert!(matches!(
        run("99999999999"),
        Err(ParserError::InvalidToken(t)) if t == "99999999999"
    ));
}
