use tinyasm::assemble::{
    assemble, pad_image, parse_program, AssembleError, LineError, MEMORY_SIZE,
};
use tinyasm::compile::CompileError;
use tinyasm::grammar::ErrorKind;
use tinyasm::parser::ParseError;
use tinyasm::token::{Token, TokenValue};

#[test]
fn instruction_and_even_data() {
    let lines = ["LCON 1 01 ;", "DATA \"HI\" : \"s\" ;"];
    assert_eq!(assemble(&lines), Ok(vec![0x21, 0x01, 0x48, 0x49]));
    let program = parse_program(&lines).unwrap();
    assert_eq!(program.len(), 4);
    assert_eq!(program[2].label, Some("s"));
    assert_eq!(program[2].value, TokenValue::Constant(0x48));
    let with_reference = ["LCON 1 \"s\" ;", "DATA \"HI\" : \"s\" ;"];
    assert_eq!(assemble(&with_reference), Ok(vec![0x21, 0x02, 0x48, 0x49]));
}

#[test]
fn odd_data_is_padded_before_the_next_line() {
    let lines = [
        "DATA \"ABC\" : \"s\" : \"e\" ;",
        "LMEM 0 \"s\" ;",
        "LMEM 1 \"e\" ;",
    ];
    assert_eq!(
        assemble(&lines),
        Ok(vec![0x41, 0x42, 0x43, 0x00, 0x10, 0x00, 0x11, 0x02])
    );
    let program = parse_program(&lines[..1]).unwrap();
    assert_eq!(program.len(), 4);
    assert_eq!(program[0].label, Some("s"));
    assert_eq!(program[2].label, Some("e"));
    assert_eq!(program[3], Token::from_const(0x00));
}

#[test]
fn whole_program() {
    let lines = [
        "// prints a text",
        "LCON 1 01 ;",
        "LMEM 0 \"string_end\" ;",
        "LMEM 3 \"print_pointer\" ;",
        "LMEM 2 \"string_start\" : \"print_start\" : \"print_pointer\" ;",
        "CHAR 2 ;",
        "ADDR 3 31 ;",
        "STOR 3 \"print_pointer\" ;",
        "JUMP 3 \"halt\" ;",
        "JUMP 0 \"print_start\" ;",
        "",
        "DATA \"Hello, world!\" : \"string_start\" : \"string_end\" ;",
        "HALT 00 : \"halt\" ;",
    ];
    let mut expected: Vec<u8> = vec![
        0x21, 0x01, 0x10, 0x1E, 0x13, 0x07, 0x12, 0x12, 0xD2, 0x00, 0x53, 0x31, 0x33, 0x07,
        0xB3, 0x20, 0xB0, 0x06,
    ];
    expected.extend_from_slice(b"Hello, world!");
    expected.push(0x00);
    expected.extend_from_slice(&[0xC0, 0x00]);
    assert_eq!(assemble(&lines), Ok(expected));
}

#[test]
fn blank_and_comment_lines_give_no_bytes() {
    let lines = ["", "   ", "// nothing here", "\t"];
    assert_eq!(assemble(&lines), Ok(vec![]));
    assert_eq!(assemble(&[]), Ok(vec![]));
}

#[test]
fn first_bad_line_is_reported_with_its_number() {
    let lines = ["LCON 1 01 ;", "", "bogus", "also bogus"];
    assert_eq!(
        assemble(&lines),
        Err(AssembleError::Parse(LineError {
            line: 2,
            error: ParseError::Error("bogus", ErrorKind::Alt),
        }))
    );
    assert_eq!(
        parse_program(&lines),
        Err(LineError {
            line: 2,
            error: ParseError::Error("bogus", ErrorKind::Alt),
        })
    );
    assert_eq!(
        assemble(&["LMEM 3 \"open"]),
        Err(AssembleError::Parse(LineError {
            line: 0,
            error: ParseError::Incomplete(1),
        }))
    );
}

#[test]
fn lines_need_no_closing_mark() {
    let lines = ["LCON 1 01", "DATA \"HI\" : \"s\"", "JUMP 0 \"s\""];
    assert_eq!(
        assemble(&lines),
        Ok(vec![0x21, 0x01, 0x48, 0x49, 0xB0, 0x02])
    );
}

#[test]
fn parse_error_comes_before_unresolved_label() {
    let lines = ["JUMP 0 \"nowhere\" ;", "bogus"];
    assert_eq!(
        assemble(&lines),
        Err(AssembleError::Parse(LineError {
            line: 1,
            error: ParseError::Error("bogus", ErrorKind::Alt),
        }))
    );
}

#[test]
fn text_beyond_ascii_fails_the_assembly() {
    let lines = ["LCON 1 01 ;", "DATA \"na\u{ef}ve\" : \"s\" ;"];
    assert_eq!(
        assemble(&lines),
        Err(AssembleError::Parse(LineError {
            line: 1,
            error: ParseError::Error("DATA \"na\u{ef}ve\" : \"s\" ;", ErrorKind::Alt),
        }))
    );
}

#[test]
fn unresolved_label_fails_the_assembly() {
    let lines = ["LCON 1 01 ;", "JUMP 0 \"missing\" ;"];
    assert_eq!(
        assemble(&lines),
        Err(AssembleError::Compile(CompileError::UnresolvedLabel(
            "missing"
        )))
    );
}

#[test]
fn label_declared_on_two_lines_names_the_last() {
    let lines = [
        "JUMP 0 \"here\" ;",
        "HALT 0 : \"here\" ;",
        "HALT 0 : \"here\" ;",
        "JUMP 0 \"here\" ;",
    ];
    assert_eq!(
        assemble(&lines),
        Ok(vec![0xB0, 0x04, 0xC0, 0x00, 0xC0, 0x00, 0xB0, 0x04])
    );
}

#[test]
fn image_is_padded_to_the_memory() {
    let padded = pad_image(&[0x21, 0x01, 0x48, 0x49]).unwrap();
    assert_eq!(MEMORY_SIZE, 256);
    assert_eq!(padded.len(), 256);
    assert_eq!(&padded[..4], &[0x21, 0x01, 0x48, 0x49]);
    assert!(padded[4..].iter().all(|byte| *byte == 0));
    assert_eq!(pad_image(&[]), Some(vec![0; 256]));
    let full: Vec<u8> = (0..256).map(|i| i as u8).collect();
    assert_eq!(pad_image(&full), Some(full.clone()));
}

#[test]
fn image_larger_than_the_memory_is_not_padded() {
    assert_eq!(pad_image(&vec![1u8; 257]), None);
}
