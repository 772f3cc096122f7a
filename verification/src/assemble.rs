//! From the lines of a source text to the image of the machine's memory.

use crate::compile::{compile, is_compiled, is_image, resolves, CompileError};
use crate::grammar::{lemma_line_is_aligned, line, Outcome};
use crate::parser::{parse_line, reports_line, ParseError};
use crate::token::{Token, TokenView};
use vstd::prelude::*;

verus! {

/// The number of bytes in the machine's memory.
pub const MEMORY_SIZE: usize = 256;

/// A line that matches no rule of the grammar.
#[derive(Debug, Clone, PartialEq)]
pub struct LineError<'a> {
    /// The number of the line, counted from 0.
    pub line: usize,
    /// Why the line matches no rule.
    pub error: ParseError<'a>,
}

/// Why a source text could not be assembled.
#[derive(Debug, Clone, PartialEq)]
pub enum AssembleError<'a> {
    /// A line matches no rule of the grammar.
    Parse(LineError<'a>),
    /// Every line was parsed, and the program could not be compiled.
    Compile(CompileError<'a>),
}

/// Whether the line `text` matches a rule of the grammar.
pub open spec fn parses(text: Seq<char>) -> bool {
    line(text) is Done
}

/// The tokens of the line `text`; none where it matches no rule.
pub open spec fn line_tokens(text: Seq<char>) -> Seq<TokenView> {
    match line(text) {
        Outcome::Done { value, .. } => value,
        _ => Seq::empty(),
    }
}

/// The tokens of all the lines, in order.
pub open spec fn program_tokens(lines: Seq<Seq<char>>) -> Seq<TokenView>
    decreases lines.len(),
{
    if lines.len() == 0 {
        Seq::empty()
    } else {
        program_tokens(lines.drop_last()) + line_tokens(lines.last())
    }
}

/// A program that was parsed from lines holds an even number of tokens.
pub proof fn lemma_program_is_aligned(lines: Seq<Seq<char>>)
    ensures
        program_tokens(lines).len() % 2 == 0,
    decreases lines.len(),
{
    if lines.len() > 0 {
        lemma_program_is_aligned(lines.drop_last());
        lemma_line_is_aligned(lines.last());
    }
}

/// Whether every line matches a rule of the grammar.
pub open spec fn all_parse(lines: Seq<Seq<char>>) -> bool {
    forall|number: int| 0 <= number < lines.len() ==> parses(#[trigger] lines[number])
}

/// Whether `failure` names the first line that matches no rule, and says why
/// it does not.
pub open spec fn is_first_failure(lines: Seq<Seq<char>>, failure: LineError) -> bool {
    &&& failure.line < lines.len()
    &&& forall|earlier: int| 0 <= earlier < failure.line ==> parses(#[trigger] lines[earlier])
    &&& !parses(lines[failure.line as int])
    &&& reports_line(
        lines[failure.line as int],
        Err(failure.error),
        line(lines[failure.line as int]),
    )
}

/// `image` followed by zeros up to the size of the memory.
pub open spec fn padded(image: Seq<u8>) -> Seq<u8>
    recommends
        image.len() <= MEMORY_SIZE,
{
    Seq::new(
        MEMORY_SIZE as nat,
        |i: int|
            if i < image.len() {
                image[i]
            } else {
                0u8
            },
    )
}

/// Parses the lines of a source text into one program: the tokens of all
/// the lines, in order. The first line that matches no rule is reported with
/// its number, and there is no program.
pub fn parse_program<'a>(lines: &[&'a str]) -> (result: Result<Vec<Token<'a>>, LineError<'a>>)
    ensures
        result is Ok <==> all_parse(lines.deep_view()),
        match result {
            Ok(program) => program.deep_view() == program_tokens(lines.deep_view()),
            Err(failure) => is_first_failure(lines.deep_view(), failure),
        },
{
    let ghost texts = lines.deep_view();
    let mut program: Vec<Token<'a>> = Vec::new();
    assert(program.deep_view() =~= program_tokens(texts.take(0)));
    let mut number: usize = 0;
    while number < lines.len()
        invariant
            number <= lines.len(),
            texts == lines.deep_view(),
            program.deep_view() == program_tokens(texts.take(number as int)),
            forall|earlier: int| 0 <= earlier < number ==> parses(#[trigger] texts[earlier]),
        decreases lines.len() - number,
    {
        proof {
            assert(texts.take(number + 1).drop_last() == texts.take(number as int));
            assert(texts.take(number + 1).last() == lines[number as int]@);
        }
        match parse_line(lines[number]) {
            Ok(mut tokens) => {
                let ghost before = program.deep_view();
                let ghost added = tokens.deep_view();
                program.append(&mut tokens);
                assert(program.deep_view() =~= before + added);
            },
            Err(error) => {
                return Err(LineError { line: number, error });
            },
        }
        number += 1;
    }
    assert(texts.take(lines.len() as int) == texts);
    Ok(program)
}

/// Assembles the lines of a source text: parses every line, and compiles the
/// tokens of all the lines together, so that a label may be declared on any
/// line. Either every line parses and every label resolves, and the result is
/// the image, or the first failure is reported and there is no image.
pub fn assemble<'a>(lines: &[&'a str]) -> (result: Result<Vec<u8>, AssembleError<'a>>)
    ensures
        result is Ok <==> all_parse(lines.deep_view()) && resolves(
            program_tokens(lines.deep_view()),
        ),
        match result {
            Ok(image) => is_image(program_tokens(lines.deep_view()), image@),
            Err(AssembleError::Parse(failure)) => is_first_failure(lines.deep_view(), failure),
            Err(AssembleError::Compile(error)) => all_parse(lines.deep_view()) && is_compiled(
                program_tokens(lines.deep_view()),
                Err(error),
            ),
        },
{
    let program = match parse_program(lines) {
        Ok(program) => program,
        Err(failure) => {
            return Err(AssembleError::Parse(failure));
        },
    };
    match compile(program.as_slice()) {
        Ok(image) => Ok(image),
        Err(error) => Err(AssembleError::Compile(error)),
    }
}

/// Fills an image with zeros up to the size of the memory. An image that is
/// larger than the memory has no padded form.
pub fn pad_image(image: &[u8]) -> (result: Option<Vec<u8>>)
    ensures
        match result {
            Some(memory) => image@.len() <= MEMORY_SIZE && memory@ == padded(image@),
            None => image@.len() > MEMORY_SIZE,
        },
{
    if image.len() > MEMORY_SIZE {
        return None;
    }
    let mut memory: Vec<u8> = Vec::new();
    let mut address: usize = 0;
    while address < MEMORY_SIZE
        invariant
            address <= MEMORY_SIZE,
            image@.len() <= MEMORY_SIZE,
            memory@.len() == address,
            forall|i: int| 0 <= i < address ==> memory@[i] == padded(image@)[i],
        decreases MEMORY_SIZE - address,
    {
        if address < image.len() {
            memory.push(image[address]);
        } else {
            memory.push(0);
        }
        address += 1;
    }
    assert(memory@ =~= padded(image@));
    Some(memory)
}

} // verus!
