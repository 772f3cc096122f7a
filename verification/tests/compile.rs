use tinyasm::compile::{compile, CompileError};
use tinyasm::opcode::{concat_nibbles, Opcode};
use tinyasm::text::{from_hex, hex_digit, is_blank_char, is_hex_digit, HexError};
use tinyasm::token::{Token, TokenValue};

fn labelled(value: TokenValue<'static>, label: &'static str) -> Token<'static> {
    Token {
        value,
        label: Some(label),
    }
}

#[test]
fn constants_are_emitted_in_place() {
    let program = [
        Token::from_const(0x21),
        Token::from_const(0x01),
        Token::from_const(0xFF),
    ];
    assert_eq!(compile(&program), Ok(vec![0x21, 0x01, 0xFF]));
    assert_eq!(compile(&[]), Ok(vec![]));
}

#[test]
fn output_has_one_byte_per_token() {
    let program = [
        Token::from_label("b"),
        labelled(TokenValue::Constant(7), "a"),
        labelled(TokenValue::Label("a"), "b"),
        Token::from_const(9),
    ];
    let bytes = compile(&program).unwrap();
    assert_eq!(bytes.len(), program.len());
    assert_eq!(bytes, vec![2, 7, 1, 9]);
}

#[test]
fn label_resolves_forward_and_backward() {
    let program = [
        Token::from_label("end"),
        labelled(TokenValue::Constant(0), "start"),
        Token::from_label("start"),
        labelled(TokenValue::Constant(0), "end"),
    ];
    assert_eq!(compile(&program), Ok(vec![3, 0, 1, 0]));
}

#[test]
fn label_declared_twice_resolves_to_the_last() {
    let program = [
        Token::from_label("x"),
        labelled(TokenValue::Constant(0xAA), "x"),
        Token::from_label("x"),
        labelled(TokenValue::Constant(0xBB), "x"),
        Token::from_label("x"),
    ];
    assert_eq!(compile(&program), Ok(vec![3, 0xAA, 3, 0xBB, 3]));
}

#[test]
fn token_may_refer_to_its_own_label() {
    let program = [
        Token::from_const(0),
        labelled(TokenValue::Label("me"), "me"),
    ];
    assert_eq!(compile(&program), Ok(vec![0, 1]));
}

#[test]
fn unresolved_label_is_an_error() {
    let program = [Token::from_const(1), Token::from_label("missing")];
    assert_eq!(
        compile(&program),
        Err(CompileError::UnresolvedLabel("missing"))
    );
}

#[test]
fn first_unresolved_label_is_reported() {
    let program = [
        labelled(TokenValue::Label("known"), "known"),
        Token::from_label("first"),
        Token::from_label("second"),
    ];
    assert_eq!(
        compile(&program),
        Err(CompileError::UnresolvedLabel("first"))
    );
}

#[test]
fn label_names_are_compared_exactly() {
    let program = [
        labelled(TokenValue::Constant(0), "Loop"),
        Token::from_label("loop"),
    ];
    assert_eq!(compile(&program), Err(CompileError::UnresolvedLabel("loop")));
}

#[test]
fn addresses_beyond_255_wrap_around() {
    let mut program: Vec<Token> = Vec::new();
    for _ in 0..300 {
        program.push(Token::from_const(0));
    }
    program[256].label = Some("wrapped");
    program[299].label = Some("last");
    program[0].value = TokenValue::Label("wrapped");
    program[1].value = TokenValue::Label("last");
    let bytes = compile(&program).unwrap();
    assert_eq!(bytes.len(), 300);
    assert_eq!(bytes[0], 0);
    assert_eq!(bytes[1], 43);
}

#[test]
fn token_constructors() {
    assert_eq!(
        Token::from_const(5),
        Token {
            value: TokenValue::Constant(5),
            label: None
        }
    );
    assert_eq!(
        Token::from_label("x"),
        Token {
            value: TokenValue::Label("x"),
            label: None
        }
    );
    assert_eq!(
        Token::empty_label(TokenValue::Constant(9)),
        Token::from_const(9)
    );
    assert_eq!(
        Token::empty_label(TokenValue::Label("y")),
        Token::from_label("y")
    );
}

#[test]
fn nibbles_pack_and_unpack() {
    for hi in 0..=15u8 {
        for lo in 0..=15u8 {
            let byte = concat_nibbles(hi, lo);
            assert_eq!(byte as u32, hi as u32 * 16 + lo as u32);
            assert_eq!(byte >> 4, hi);
            assert_eq!(byte & 0xF, lo);
        }
    }
    assert_eq!(concat_nibbles(0x2, 0x1), 0x21);
}

#[test]
fn opcode_codes() {
    assert_eq!(Opcode::Lmem.code(), 0x1);
    assert_eq!(Opcode::Lcon.code(), 0x2);
    assert_eq!(Opcode::Stor.code(), 0x3);
    assert_eq!(Opcode::Move.code(), 0x4);
    assert_eq!(Opcode::Addr.code(), 0x5);
    assert_eq!(Opcode::Or.code(), 0x7);
    assert_eq!(Opcode::And.code(), 0x8);
    assert_eq!(Opcode::Xor.code(), 0x9);
    assert_eq!(Opcode::Rot.code(), 0xA);
    assert_eq!(Opcode::Jump.code(), 0xB);
    assert_eq!(Opcode::Halt.code(), 0xC);
    assert_eq!(Opcode::Char.code(), 0xD);
    assert_eq!(Opcode::Less.code(), 0xE);
    assert_eq!(Opcode::Disp.code(), 0xF);
}

#[test]
fn hex_digits_are_told_from_other_characters() {
    for c in "0123456789abcdefABCDEF".chars() {
        assert!(is_hex_digit(c));
    }
    for c in "gG/:@`{ xX\u{131}\u{ff11}".chars() {
        assert!(!is_hex_digit(c));
    }
    assert_eq!(hex_digit('0'), Some(0));
    assert_eq!(hex_digit('9'), Some(9));
    assert_eq!(hex_digit('a'), Some(10));
    assert_eq!(hex_digit('f'), Some(15));
    assert_eq!(hex_digit('A'), Some(10));
    assert_eq!(hex_digit('F'), Some(15));
    assert_eq!(hex_digit('g'), None);
    assert_eq!(hex_digit(' '), None);
}

#[test]
fn blanks_are_told_from_other_characters() {
    for c in " \t\r\n".chars() {
        assert!(is_blank_char(c));
    }
    for c in "a0;\u{a0}\u{b}".chars() {
        assert!(!is_blank_char(c));
    }
}

#[test]
fn from_hex_reads_one_or_two_digits() {
    assert_eq!(from_hex("3"), Ok(0x03));
    assert_eq!(from_hex("3a"), Ok(0x3A));
    assert_eq!(from_hex("FF"), Ok(0xFF));
    assert_eq!(from_hex("00"), Ok(0x00));
    assert_eq!(from_hex(""), Err(HexError::Empty));
    assert_eq!(from_hex("3q"), Err(HexError::InvalidDigit));
    assert_eq!(from_hex("+3"), Err(HexError::InvalidDigit));
    assert_eq!(from_hex("123q"), Err(HexError::InvalidDigit));
    assert_eq!(from_hex("123"), Err(HexError::TooLong));
    assert_eq!(from_hex("0001"), Err(HexError::TooLong));
}
