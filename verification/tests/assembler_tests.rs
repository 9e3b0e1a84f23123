//! Tests of the assembler: the word lexer, the label-resolving syntax
//! pass, and the statement parser feeding the CPU.

use vm_cpu::assembler::parser::{AstNode, KeyWord, Parser};
use vm_cpu::assembler::program;
use vm_cpu::assembler::tokens::{Address, Lexer, Number, Token};
use vm_cpu::cpu::Cpu;
use vm_cpu::memory::CpuMemory;
use vm_cpu::opcodes::{Instruction, Value};
use vm_cpu::registers::Register;

#[test]
fn parser_label() {
    let src = "urmom urmom:";
    let parser = Parser::parse(src).unwrap();
    let expected = [
        AstNode::Label(vm_cpu::memory::Address(0)),
        AstNode::Token(Token::Space),
    ];
    assert_eq!(parser.ast.nodes.as_slice(), expected);
}

#[test]
fn call_label() {
    let src = "call urmom";
    let parser = Parser::parse(src).unwrap();
    let expected = [
        AstNode::KeyWord(KeyWord::Call),
        AstNode::Token(Token::Space),
        AstNode::Ident(String::from("urmom")),
    ];
    assert_eq!(parser.ast.nodes.as_slice(), expected);
}

#[test]
fn parser_add() {
    let src = "add r1, 10";
    let parser = Parser::parse(src).unwrap();
    let expected = [
        AstNode::KeyWord(KeyWord::Add),
        AstNode::Token(Token::Space),
        AstNode::Token(Token::Register(Register::R1)),
        AstNode::Token(Token::Comma),
        AstNode::Token(Token::Space),
        AstNode::Token(Token::Number(Number::U8(10))),
    ];
    assert_eq!(parser.ast.nodes.as_slice(), expected);
}

#[test]
fn mov_val() {
    let src = "mov r1, 0";
    let parser = Parser::parse(src).unwrap();
    let expected = [
        AstNode::KeyWord(KeyWord::Mov),
        AstNode::Token(Token::Space),
        AstNode::Token(Token::Register(Register::R1)),
        AstNode::Token(Token::Comma),
        AstNode::Token(Token::Space),
        AstNode::Token(Token::Number(Number::U8(0))),
    ];
    assert_eq!(parser.ast.nodes.as_slice(), expected);
}

#[test]
fn mov_reg() {
    let src = "mov r1, r2";
    let parser = Parser::parse(src).unwrap();
    let expected = [
        AstNode::KeyWord(KeyWord::Mov),
        AstNode::Token(Token::Space),
        AstNode::Token(Token::Register(Register::R1)),
        AstNode::Token(Token::Comma),
        AstNode::Token(Token::Space),
        AstNode::Token(Token::Register(Register::R2)),
    ];
    assert_eq!(parser.ast.nodes.as_slice(), expected);
}

#[test]
fn mov_mem() {
    let src = "mov r1, [10]";
    let parser = Parser::parse(src).unwrap();
    let expected = [
        AstNode::KeyWord(KeyWord::Mov),
        AstNode::Token(Token::Space),
        AstNode::Token(Token::Register(Register::R1)),
        AstNode::Token(Token::Comma),
        AstNode::Token(Token::Space),
        AstNode::Label(vm_cpu::memory::Address(10)),
    ];
    assert_eq!(parser.ast.nodes.as_slice(), expected);
}

#[test]
fn mem_mov_reg() {
    let src = "mov [10], r1";
    let parser = Parser::parse(src).unwrap();
    let expected = [
        AstNode::KeyWord(KeyWord::Mov),
        AstNode::Token(Token::Space),
        AstNode::Label(vm_cpu::memory::Address(10)),
        AstNode::Token(Token::Comma),
        AstNode::Token(Token::Space),
        AstNode::Token(Token::Register(Register::R1)),
    ];
    assert_eq!(parser.ast.nodes.as_slice(), expected);
}

#[test]
fn mem_mov_val() {
    let src = "mov [10], 10";
    let parser = Parser::parse(src).unwrap();
    let expected = [
        AstNode::KeyWord(KeyWord::Mov),
        AstNode::Token(Token::Space),
        AstNode::Label(vm_cpu::memory::Address(10)),
        AstNode::Token(Token::Comma),
        AstNode::Token(Token::Space),
        AstNode::Token(Token::Number(Number::U8(10))),
    ];
    assert_eq!(parser.ast.nodes.as_slice(), expected);
}

#[test]
fn cmp() {
    let src = "cmp r1";
    let parser = Parser::parse(src).unwrap();
    let expected = [
        AstNode::KeyWord(KeyWord::Cmp),
        AstNode::Token(Token::Space),
        AstNode::Token(Token::Register(Register::R1)),
    ];
    assert_eq!(parser.ast.nodes.as_slice(), expected);
}

#[test]
fn labels_test() {
    let src = "foo:\nbar:\nbaz:\nfoo\nbar\nbaz";
    let parser = Parser::parse(src).unwrap();
    let expected = [
        AstNode::Label(vm_cpu::memory::Address(0)),
        AstNode::Label(vm_cpu::memory::Address(4)),
        AstNode::Label(vm_cpu::memory::Address(8)),
    ];
    assert_eq!(parser.ast.nodes.as_slice(), expected);
}

#[test]
fn unresolved_label() {
    let src = "foo";
    let parser = Parser::parse(src).unwrap();
    let expected = [AstNode::Ident(String::from("foo"))];
    assert_eq!(parser.ast.nodes.as_slice(), expected);
}

#[test]
fn empty_source_is_rejected() {
    assert!(matches!(
        Parser::parse(""),
        Err(vm_cpu::assembler::error::ParseError::EmptyFile)
    ));
}

#[test]
fn registers() {
    let regs = ["ip", "sp", "fp", "r1", "r2", "r3", "r4", "r5", "r6", "r7", "r8"];
    for reg in regs {
        assert!(
            Lexer::lex(reg).tokens.first().unwrap()
                == &Token::Register(Register::from_str(reg).unwrap())
        );
    }
}

#[test]
fn numbers() {
    let nums = "0 1 100000 val";
    let lexer = Lexer::lex(nums);
    let expected = [
        Token::Number(Number::U8(0)),
        Token::Space,
        Token::Number(Number::U8(1)),
        Token::Space,
        Token::Number(Number::U32(100000)),
        Token::Space,
        Token::Identifier(String::from("val")),
    ];
    assert_eq!(lexer.tokens.as_slice(), expected);
}

#[test]
fn address() {
    let addrs = "[1] [2] 1";
    let lexer = Lexer::lex(addrs);
    let expected = [
        Token::Address(Address(1)),
        Token::Space,
        Token::Address(Address(2)),
        Token::Space,
        Token::Number(Number::U8(1)),
    ];
    assert_eq!(lexer.tokens.as_slice(), expected);
}

#[test]
fn comma() {
    let lexer = Lexer::lex(",");
    assert!(lexer.tokens.first().unwrap() == &Token::Comma);
}

#[test]
fn space() {
    let lexer = Lexer::lex(" ");
    assert!(lexer.tokens.first().unwrap() == &Token::Space);
}

#[test]
fn tokens_ident() {
    let ident = "val foo foo:";
    let lexer = Lexer::lex(ident);
    let expected = [
        Token::Identifier(String::from("val")),
        Token::Space,
        Token::Identifier(String::from("foo")),
        Token::Space,
        Token::Identifier(String::from("foo:")),
    ];
    assert_eq!(lexer.tokens.as_slice(), expected);
}

#[test]
fn address_parse() {
    assert_eq!(Address::parse("[12]"), Some(Address(12)));
    assert_eq!(Address::parse("[12"), None);
    assert_eq!(Address::parse("[abc]"), None);
    assert_eq!(Address::parse("12"), None);
}

#[test]
fn ast_bytes() {
    let src = "mov r1, 40";
    let parser = Parser::parse(src).unwrap();
    let bytes = parser.ast.into_bytes();
    // Only the register code and the one-byte number contribute.
    assert_eq!(bytes, vec![3, 40]);
}

#[test]
fn tests_basic_asm() {
    let source = r#"
        mov r1, 40
        mov r2, 40
        mov r3, 40
        mov r4, 40
        halt
        "#;
    let mut parser = program::Parser::new(source);
    parser.parse().unwrap();
    let expected = [
        Instruction::MovRegNum(Register::R1, Value::U16(40)),
        Instruction::MovRegNum(Register::R2, Value::U16(40)),
        Instruction::MovRegNum(Register::R3, Value::U16(40)),
        Instruction::MovRegNum(Register::R4, Value::U16(40)),
        Instruction::Halt,
    ];
    assert_eq!(parser.insts().as_slice(), expected);

    let mem = CpuMemory::default();
    let mut cpu = Cpu::new(mem, 0, (u16::MAX - 8000) as u32, vm_cpu::memory::Address(0));
    cpu.write_instructions_to_memory(parser.insts().as_slice())
        .unwrap();
    cpu.execute().unwrap();
    let regs = cpu.registers();
    assert!(
        regs.as_slice()
            == &[
                regs.get(Register::IP),
                regs.get(Register::SP),
                regs.get(Register::FP),
                40,
                40,
                40,
                40,
                0,
                0,
                0,
                0,
            ]
    );
}

#[test]
fn tests_label() {
    let source = r#"
        bai:
        load r1, 57535
        halt
        load r1, 200
        call bai
        "#;
    let mut parser = program::Parser::new(source);
    parser.parse().unwrap();
    let expected = [
        Instruction::Load(Register::R1, vm_cpu::memory::Address(57535)),
        Instruction::Halt,
        Instruction::Load(Register::R1, vm_cpu::memory::Address(200)),
        Instruction::Call(vm_cpu::memory::Address(0)),
    ];
    assert_eq!(parser.insts().as_slice(), expected);
}

#[test]
fn unknown_mnemonic_is_rejected() {
    assert!(matches!(
        KeyWord::from_str("nope"),
        Err(vm_cpu::assembler::error::ParseError::InvalidKeyWord(w)) if w == "nope"
    ));
    assert!(matches!(
        program::KeyWord::from_str("nope"),
        Err(program::ParseError::InvalidKeyWord(w)) if w == "nope"
    ));
}

#[test]
fn program_rejects_bad_register_before_comma() {
    let mut parser = program::Parser::new("mov rr, 40");
    assert!(matches!(
        parser.parse(),
        Err(program::ParseError::InvalidRegister(w)) if w == "rr"
    ));
}

#[test]
fn program_rejects_unresolved_label_use() {
    let mut parser = program::Parser::new("call nowhere");
    assert!(matches!(
        parser.parse(),
        Err(program::ParseError::InvalidToken(w)) if w == "nowhere"
    ));
}

#[test]
fn program_rejects_empty_source() {
    let mut parser = program::Parser::new("");
    assert!(matches!(parser.parse(), Err(program::ParseError::EmptyFile)));
}

#[test]
fn ast_get_and_set() {
    let mut parser = Parser::parse("foo").unwrap();
    assert!(parser.ast.get(0) == Some(&AstNode::Ident(String::from("foo"))));
    assert!(parser.ast.get(1).is_none());
    parser.ast.set(0, AstNode::KeyWord(KeyWord::Halt));
    assert!(parser.ast.get(0) == Some(&AstNode::KeyWord(KeyWord::Halt)));
}
