//! The parser: from source text to tokens.
//!
//! Each of the functions `parse_opcode` to `parse_token` reads one rule of
//! [`crate::grammar`] at the start of its input and hands back what is left of
//! the input together with what it read. [`parse_line`] reads one whole line.

use crate::grammar::{
    aligned, closed, data_tokens, datasegment, datasegment_value, expansion, first_not_blank,
    first_quote, hex_items, hexcode, hexlist, instruction, instruction_tokens, label_clause,
    label_clauses, labelled, line, opcode, opcode_from, optional, prepended, quoted, register,
    spaced, tag, then, token, token_value, unlabelled, DataView, ErrorKind, Outcome,
};
use crate::opcode::{concat_nibbles, Opcode, MNEMONICS};
use crate::text::{hex_digit, is_blank_char};
use crate::token::{Token, TokenValue, TokenView};
use vstd::prelude::*;
use vstd::string::{is_ascii_spec_bytes, StrSliceExecFns};

verus! {

/// Why a rule did not match.
#[derive(Debug, Clone, PartialEq)]
pub enum ParseError<'a> {
    /// The input ended before the rule could be decided. At least this many
    /// more characters are wanted.
    Incomplete(usize),
    /// The rule named by the second field rejected the input at the start of
    /// the first field, which is the rest of the input from there on.
    Error(&'a str, ErrorKind),
}

/// Whether `result` hands the outcome of a rule read at the start of `input`
/// back to the caller: after a match, the input from the end of the match on
/// and the value read; after a rejection, the input from the place of the
/// rejection on.
pub open spec fn reports<'a, T: DeepView>(
    input: Seq<char>,
    result: Result<(&'a str, T), ParseError<'a>>,
    outcome: Outcome<T::V>,
) -> bool {
    match outcome {
        Outcome::Done { end, value } => result matches Ok((rest, found)) && rest@
            == input.subrange(end, input.len() as int) && found.deep_view() == value,
        Outcome::Incomplete { needed } => result matches Err(ParseError::Incomplete(wanted))
            && wanted == needed,
        Outcome::Error { at, kind } => result matches Err(ParseError::Error(rest, rule)) && rest@
            == input.subrange(at, input.len() as int) && rule == kind,
    }
}

/// The payload of a data segment.
#[derive(Debug, PartialEq)]
pub enum DataSegmentValue<'a> {
    /// A quoted text, which stands for one byte per character.
    String(&'a str),
    /// A list of bytes.
    Data(Vec<u8>),
}

impl<'a> DeepView for DataSegmentValue<'a> {
    type V = DataView;

    open spec fn deep_view(&self) -> DataView {
        match *self {
            DataSegmentValue::String(text) => DataView::Text(text@),
            DataSegmentValue::Data(bytes) => DataView::Bytes(bytes@),
        }
    }
}

impl<'a> DataSegmentValue<'a> {
    /// The bytes that the payload expands to: one for each character of a
    /// text. A text with a character beyond ASCII has no such bytes.
    pub fn as_bytes(&self) -> (result: Result<&[u8], ErrorKind>)
        ensures
            match result {
                Ok(bytes) => self.deep_view().is_plain() && bytes@ == self.deep_view().bytes(),
                Err(kind) => !self.deep_view().is_plain() && kind == ErrorKind::Ascii,
            },
    {
        match self {
            DataSegmentValue::String(text) => {
                if !text.is_ascii() {
                    return Err(ErrorKind::Ascii);
                }
                let bytes = text.as_bytes();
                proof {
                    is_ascii_spec_bytes(text);
                    assert(bytes@ =~= self.deep_view().bytes());
                }
                Ok(bytes)
            },
            DataSegmentValue::Data(bytes) => Ok(bytes.as_slice()),
        }
    }

    /// One unlabelled token for each byte of the payload, which for a text is
    /// one token for each character. A text with a character beyond ASCII is
    /// rejected.
    pub fn into_tokens(self) -> (result: Result<Vec<Token<'a>>, ErrorKind>)
        ensures
            match result {
                Ok(tokens) => self.deep_view().is_plain() && tokens.deep_view() == unlabelled(
                    self.deep_view().bytes(),
                ),
                Err(kind) => !self.deep_view().is_plain() && kind == ErrorKind::Ascii,
            },
            result matches Ok(tokens) ==> (self.deep_view() matches DataView::Text(text)
                ==> tokens@.len() == text.len()),
    {
        let bytes = self.as_bytes()?;
        let mut tokens: Vec<Token<'a>> = Vec::new();
        let mut i: usize = 0;
        while i < bytes.len()
            invariant
                i <= bytes.len(),
                tokens@.len() == i,
                forall|j: int|
                    0 <= j < i ==> (#[trigger] tokens@[j])@ == TokenView::constant(bytes@[j]),
            decreases bytes.len() - i,
        {
            tokens.push(Token::from_const(bytes[i]));
            i += 1;
        }
        assert(tokens.deep_view() =~= unlabelled(bytes@));
        Ok(tokens)
    }
}

/// Labels the first token with `head` and the last with `tail`.
fn attach_labels<'a>(tokens: &mut Vec<Token<'a>>, head: Option<&'a str>, tail: Option<&'a str>)
    requires
        old(tokens)@.len() > 0,
    ensures
        final(tokens).deep_view() == labelled(
            old(tokens).deep_view(),
            head.deep_view(),
            tail.deep_view(),
        ),
{
    tokens[0].label = head;
    if tail.is_some() {
        let last = tokens.len() - 1;
        tokens[last].label = tail;
    }
    assert(tokens.deep_view() =~= labelled(
        old(tokens).deep_view(),
        head.deep_view(),
        tail.deep_view(),
    ));
}

/// Appends one unlabelled zero to an odd number of tokens.
fn align<'a>(tokens: &mut Vec<Token<'a>>)
    ensures
        final(tokens).deep_view() == aligned(old(tokens).deep_view()),
{
    if tokens.len() % 2 != 0 {
        tokens.push(Token::from_const(0x00));
    }
    assert(tokens.deep_view() =~= aligned(old(tokens).deep_view()));
}

/// Whether `result` is the expansion `expected` of a data segment: the same
/// tokens, or the same reason for having none.
pub open spec fn expanded<'a>(
    result: Result<Vec<Token<'a>>, ErrorKind>,
    expected: Result<Seq<TokenView>, ErrorKind>,
) -> bool {
    match expected {
        Ok(tokens) => result matches Ok(found) && found.deep_view() == tokens,
        Err(kind) => result matches Err(found) && found == kind,
    }
}

/// The tokens of a data segment: one for each byte of `data`, `head` as the
/// label of the first byte and `tail` as the label of the last, and after an
/// odd number of bytes one unlabelled zero, so that the segment takes an even
/// number of addresses. A text with a character beyond ASCII is rejected, and
/// so is a payload without bytes, which has no token to label.
pub fn data_segment<'a>(
    data: DataSegmentValue<'a>,
    head: Option<&'a str>,
    tail: Option<&'a str>,
) -> (result: Result<Vec<Token<'a>>, ErrorKind>)
    ensures
        expanded(result, expansion(data.deep_view(), head.deep_view(), tail.deep_view())),
        result matches Ok(tokens) ==> tokens@.len() % 2 == 0,
{
    let mut tokens = data.into_tokens()?;
    if tokens.len() == 0 {
        return Err(ErrorKind::NonEmpty);
    }
    attach_labels(&mut tokens, head, tail);
    align(&mut tokens);
    assert(tokens.deep_view() =~= data_tokens(
        data.deep_view().bytes(),
        head.deep_view(),
        tail.deep_view(),
    ));
    Ok(tokens)
}

/// Why a rule stopped, by position.
enum Stop {
    Incomplete(usize),
    Error(usize, ErrorKind),
}

/// The outcome that the result of a rule stands for.
spec fn outcome_of<T: DeepView>(result: Result<(usize, T), Stop>) -> Outcome<T::V> {
    match result {
        Ok((end, value)) => Outcome::Done { end: end as int, value: value.deep_view() },
        Err(Stop::Incomplete(needed)) => Outcome::Incomplete { needed: needed as int },
        Err(Stop::Error(at, kind)) => Outcome::Error { at: at as int, kind },
    }
}

/// The bytes read so far in front of the bytes that are still to come.
spec fn prefixed(bytes: Seq<u8>, rest: Outcome<Seq<u8>>) -> Outcome<Seq<u8>> {
    match rest {
        Outcome::Done { end, value } => Outcome::Done { end, value: bytes + value },
        undecided => undecided,
    }
}

/// Whether the positions of an outcome lie between `from` and `len`.
spec fn within<T>(outcome: Outcome<T>, from: int, len: int) -> bool {
    match outcome {
        Outcome::Done { end, .. } => from <= end <= len,
        Outcome::Incomplete { .. } => true,
        Outcome::Error { at, .. } => from <= at <= len,
    }
}

/// A rule that may be absent, read at `at`.
fn optional_at<T: DeepView>(at: usize, result: Result<(usize, T), Stop>) -> (found: Result<
    (usize, Option<T>),
    Stop,
>)
    ensures
        outcome_of(found) == optional(at as int, outcome_of(result)),
{
    match result {
        Ok((end, value)) => Ok((end, Some(value))),
        Err(Stop::Incomplete(needed)) => Err(Stop::Incomplete(needed)),
        Err(Stop::Error(_, _)) => Ok((at, None)),
    }
}

/// A text with its characters laid out for indexing, with or without the
/// closing mark after them.
struct Source<'a> {
    text: &'a str,
    chars: Vec<char>,
    closed: bool,
}

impl<'a> Source<'a> {
    /// The characters that the rules read.
    spec fn view(&self) -> Seq<char> {
        self.chars@
    }

    spec fn wf(&self) -> bool {
        self.chars@ == if self.closed {
            closed(self.text@)
        } else {
            self.text@
        }
    }

    fn new(text: &'a str) -> (source: Self)
        ensures
            source.wf(),
            !source.closed,
            source.text == text,
            source@ == text@,
    {
        broadcast use vstd::string::group_string_axioms;

        let mut chars: Vec<char> = Vec::new();
        for c in it: text.chars()
            invariant
                it.seq() == text@,
                chars@ == text@.take(it.index()),
        {
            chars.push(c);
        }
        assert(text@.take(text@.len() as int) == text@);
        Source { text, chars, closed: false }
    }

    /// Puts the closing mark after the text.
    fn close(self) -> (source: Self)
        requires
            self.wf(),
            !self.closed,
        ensures
            source.wf(),
            source.closed,
            source.text == self.text,
            source@ == closed(self.text@),
    {
        let mut chars = self.chars;
        chars.push(';');
        Source { text: self.text, chars, closed: true }
    }

    fn len(&self) -> (len: usize)
        ensures
            len == self@.len(),
    {
        self.chars.len()
    }

    fn get(&self, at: usize) -> (c: char)
        requires
            at < self@.len(),
        ensures
            c == self@[at as int],
    {
        self.chars[at]
    }

    /// The text between two positions.
    fn slice(&self, from: usize, to: usize) -> (part: &'a str)
        requires
            self.wf(),
            from <= to <= self.text@.len(),
        ensures
            part@ == self@.subrange(from as int, to as int),
    {
        self.text.substring_char(from, to)
    }

    /// Hands the result of a rule read at the start of the text back in terms
    /// of the text itself.
    fn finish<T: DeepView>(&self, result: Result<(usize, T), Stop>) -> (finished: Result<
        (&'a str, T),
        ParseError<'a>,
    >)
        requires
            self.wf(),
            !self.closed,
            within(outcome_of(result), 0, self@.len() as int),
        ensures
            reports(self@, finished, outcome_of(result)),
    {
        match result {
            Ok((end, value)) => Ok((self.slice(end, self.len()), value)),
            Err(Stop::Incomplete(needed)) => Err(ParseError::Incomplete(needed)),
            Err(Stop::Error(at, kind)) => Err(ParseError::Error(self.slice(at, self.len()), kind)),
        }
    }

    /// Skips blanks from `at` on.
    fn blanks(&self, at: usize) -> (result: Result<usize, Stop>)
        requires
            self.wf(),
            at <= self@.len(),
        ensures
            match result {
                Ok(start) => start == first_not_blank(self@, at as int) && at <= start
                    < self@.len(),
                Err(stop) => stop == Stop::Incomplete(1) && first_not_blank(self@, at as int)
                    >= self@.len(),
            },
    {
        let mut start = at;
        while start < self.len() && is_blank_char(self.get(start))
            invariant
                self.wf(),
                at <= start <= self@.len(),
                first_not_blank(self@, at as int) == first_not_blank(self@, start as int),
            decreases self@.len() - start,
        {
            start += 1;
        }
        if start < self.len() {
            Ok(start)
        } else {
            Err(Stop::Incomplete(1))
        }
    }

    /// Reads the fixed text `word`.
    fn tag(&self, at: usize, word: &str) -> (result: Result<(usize, ()), Stop>)
        requires
            self.wf(),
            at <= self@.len(),
        ensures
            outcome_of(result) == tag(self@, at as int, word@),
            within(outcome_of(result), at as int, self@.len() as int),
    {
        let length = word.unicode_len();
        let len = self.len();
        let left = len - at;
        let common = if length <= left {
            length
        } else {
            left
        };
        let mut i: usize = 0;
        while i < common
            invariant
                self.wf(),
                i <= common,
                common <= word@.len(),
                at + common <= len == self@.len(),
                forall|j: int| 0 <= j < i ==> self@[at + j] == word@[j],
            decreases common - i,
        {
            if self.get(at + i) != word.get_char(i) {
                assert(self@.subrange(at as int, at + common)[i as int] != word@.subrange(
                    0,
                    common as int,
                )[i as int]);
                return Err(Stop::Error(at, ErrorKind::Tag));
            }
            i += 1;
        }
        assert(self@.subrange(at as int, at + common) =~= word@.subrange(0, common as int));
        if common == length {
            Ok((at + length, ()))
        } else {
            Err(Stop::Incomplete(length))
        }
    }

    /// Reads an operation by its mnemonic.
    fn opcode(&self, at: usize) -> (result: Result<(usize, Opcode), Stop>)
        requires
            self.wf(),
            at <= self@.len(),
        ensures
            outcome_of(result) == opcode(self@, at as int),
            within(outcome_of(result), at as int, self@.len() as int),
    {
        let mut index: usize = 0;
        loop
            invariant
                self.wf(),
                at <= self@.len(),
                index <= MNEMONICS,
                opcode(self@, at as int) == opcode_from(self@, at as int, index as int),
            decreases MNEMONICS - index,
        {
            let candidate = match Opcode::nth(index) {
                Some(candidate) => candidate,
                None => {
                    return Err(Stop::Error(at, ErrorKind::Alt));
                },
            };
            match self.tag(at, candidate.mnemonic()) {
                Ok((end, _)) => {
                    return Ok((end, candidate));
                },
                Err(Stop::Incomplete(needed)) => {
                    return Err(Stop::Incomplete(needed));
                },
                Err(Stop::Error(_, _)) => {},
            }
            index += 1;
        }
    }

    /// Reads a byte of one or two hexadecimal digits.
    fn hexcode(&self, at: usize) -> (result: Result<(usize, u8), Stop>)
        requires
            self.wf(),
            at <= self@.len(),
        ensures
            outcome_of(result) == hexcode(self@, at as int),
            within(outcome_of(result), at as int, self@.len() as int),
    {
        let len = self.len();
        if at >= len {
            return Err(Stop::Incomplete(1));
        }
        let first = match hex_digit(self.get(at)) {
            Some(digit) => digit,
            None => {
                return Err(Stop::Error(at, ErrorKind::TakeWhileMN));
            },
        };
        if at + 1 >= len {
            return Err(Stop::Incomplete(1));
        }
        match hex_digit(self.get(at + 1)) {
            Some(second) => Ok((at + 2, first * 16 + second)),
            None => Ok((at + 1, first)),
        }
    }

    /// Reads a register.
    fn register(&self, at: usize) -> (result: Result<(usize, u8), Stop>)
        requires
            self.wf(),
            at <= self@.len(),
        ensures
            outcome_of(result) == register(self@, at as int),
            within(outcome_of(result), at as int, self@.len() as int),
    {
        let (end, value) = self.hexcode(at)?;
        if value <= 15 {
            Ok((end, value))
        } else {
            Err(Stop::Error(at, ErrorKind::Verify))
        }
    }

    /// Reads a text between double quotes.
    fn quoted(&self, at: usize) -> (result: Result<(usize, &'a str), Stop>)
        requires
            self.wf(),
            at <= self@.len(),
        ensures
            outcome_of(result) == quoted(self@, at as int),
            within(outcome_of(result), at as int, self@.len() as int),
    {
        let len = self.len();
        if at >= len {
            return Err(Stop::Incomplete(1));
        }
        if self.get(at) != '"' {
            return Err(Stop::Error(at, ErrorKind::Tag));
        }
        let mut close = at + 1;
        while close < len && self.get(close) != '"'
            invariant
                self.wf(),
                len == self@.len(),
                at < close <= len,
                first_quote(self@, at + 1) == first_quote(self@, close as int),
            decreases len - close,
        {
            close += 1;
        }
        if close >= len {
            return Err(Stop::Incomplete(1));
        }
        Ok((close + 1, self.slice(at + 1, close)))
    }

    /// Reads an operand.
    fn token_value(&self, at: usize) -> (result: Result<(usize, TokenValue<'a>), Stop>)
        requires
            self.wf(),
            at <= self@.len(),
        ensures
            outcome_of(result) == token_value(self@, at as int),
            within(outcome_of(result), at as int, self@.len() as int),
    {
        match self.quoted(at) {
            Ok((end, name)) => Ok((end, TokenValue::Label(name))),
            Err(Stop::Incomplete(needed)) => Err(Stop::Incomplete(needed)),
            Err(Stop::Error(_, _)) => match self.hexcode(at) {
                Ok((end, byte)) => Ok((end, TokenValue::Constant(byte))),
                Err(Stop::Incomplete(needed)) => Err(Stop::Incomplete(needed)),
                Err(Stop::Error(_, _)) => Err(Stop::Error(at, ErrorKind::Alt)),
            },
        }
    }

    /// Reads hexadecimal bytes, as many as there are.
    fn hex_items(&self, at: usize) -> (result: Result<(usize, Vec<u8>), Stop>)
        requires
            self.wf(),
            at <= self@.len(),
        ensures
            outcome_of(result) == hex_items(self@, at as int),
            within(outcome_of(result), at as int, self@.len() as int),
    {
        let mut bytes: Vec<u8> = Vec::new();
        let mut end = at;
        loop
            invariant
                self.wf(),
                at <= end <= self@.len(),
                hex_items(self@, at as int) == prefixed(bytes@, hex_items(self@, end as int)),
            decreases self@.len() - end,
        {
            let start = match self.blanks(end) {
                Ok(start) => start,
                Err(stop) => {
                    return Err(stop);
                },
            };
            match self.hexcode(start) {
                Ok((after, byte)) => {
                    proof {
                        let rest = hex_items(self@, after as int);
                        assert(prefixed(bytes@, prepended(byte, rest)) == prefixed(
                            bytes@.push(byte),
                            rest,
                        )) by {
                            if let Outcome::Done { value, .. } = rest {
                                assert(bytes@ + (seq![byte] + value) =~= bytes@.push(byte) + value);
                            }
                        }
                    }
                    bytes.push(byte);
                    end = after;
                },
                Err(Stop::Incomplete(needed)) => {
                    return Err(Stop::Incomplete(needed));
                },
                Err(Stop::Error(_, _)) => {
                    assert(bytes@ + Seq::<u8>::empty() =~= bytes@);
                    assert(bytes.deep_view() =~= bytes@);
                    return Ok((end, bytes));
                },
            }
        }
    }

    /// Reads a list of hexadecimal bytes and the blanks after it.
    fn hexlist(&self, at: usize) -> (result: Result<(usize, Vec<u8>), Stop>)
        requires
            self.wf(),
            at <= self@.len(),
        ensures
            outcome_of(result) == hexlist(self@, at as int),
            within(outcome_of(result), at as int, self@.len() as int),
    {
        let (end, bytes) = self.hex_items(at)?;
        let start = self.blanks(end)?;
        Ok((start, bytes))
    }

    /// Reads the payload of a data segment.
    fn datasegment_value(&self, at: usize) -> (result: Result<
        (usize, DataSegmentValue<'a>),
        Stop,
    >)
        requires
            self.wf(),
            at <= self@.len(),
        ensures
            outcome_of(result) == datasegment_value(self@, at as int),
            within(outcome_of(result), at as int, self@.len() as int),
    {
        match self.quoted(at) {
            Ok((end, text)) => Ok((end, DataSegmentValue::String(text))),
            Err(Stop::Incomplete(needed)) => Err(Stop::Incomplete(needed)),
            Err(Stop::Error(_, _)) => match self.hexlist(at) {
                Ok((end, bytes)) => {
                    assert(bytes.deep_view() =~= bytes@);
                    Ok((end, DataSegmentValue::Data(bytes)))
                },
                Err(Stop::Incomplete(needed)) => Err(Stop::Incomplete(needed)),
                Err(Stop::Error(_, _)) => Err(Stop::Error(at, ErrorKind::Alt)),
            },
        }
    }

    /// Reads one label clause.
    fn label_clause(&self, at: usize) -> (result: Result<(usize, Option<&'a str>), Stop>)
        requires
            self.wf(),
            at <= self@.len(),
        ensures
            outcome_of(result) == label_clause(self@, at as int),
            within(outcome_of(result), at as int, self@.len() as int),
    {
        let start = self.blanks(at)?;
        optional_at(start, self.named(start))
    }

    /// Reads a colon and the quoted name after it.
    fn named(&self, at: usize) -> (result: Result<(usize, &'a str), Stop>)
        requires
            self.wf(),
            at <= self@.len(),
        ensures
            outcome_of(result) == then(
                tag(self@, at as int, ":"@),
                |after_colon: int, colon: ()|
                    spaced(self@, after_colon, |name_at: int| quoted(self@, name_at)),
            ),
            within(outcome_of(result), at as int, self@.len() as int),
    {
        let (after_colon, _) = self.tag(at, ":")?;
        let name_at = self.blanks(after_colon)?;
        self.quoted(name_at)
    }

    /// Reads the two label clauses and the blanks after them.
    fn label_clauses(&self, at: usize) -> (result: Result<
        (usize, (Option<&'a str>, Option<&'a str>)),
        Stop,
    >)
        requires
            self.wf(),
            at <= self@.len(),
        ensures
            outcome_of(result) == label_clauses(self@, at as int),
            within(outcome_of(result), at as int, self@.len() as int),
    {
        let (after_head, head) = self.label_clause(at)?;
        let (after_tail, tail) = self.label_clause(after_head)?;
        let start = self.blanks(after_tail)?;
        Ok((start, (head, tail)))
    }

    /// Reads an instruction.
    fn instruction(&self, at: usize) -> (result: Result<(usize, Vec<Token<'a>>), Stop>)
        requires
            self.wf(),
            at <= self@.len(),
        ensures
            outcome_of(result) == instruction(self@, at as int),
            within(outcome_of(result), at as int, self@.len() as int),
    {
        let start = self.blanks(at)?;
        let (after_opcode, operation) = self.opcode(start)?;
        let start = self.blanks(after_opcode)?;
        let (after_register, register) = self.register(start)?;
        let start = self.blanks(after_register)?;
        let (after_operand, operand) = optional_at(start, self.token_value(start))?;
        let (end, labels) = self.label_clauses(after_operand)?;
        let mut tokens: Vec<Token<'a>> = Vec::new();
        tokens.push(
            Token {
                value: TokenValue::Constant(concat_nibbles(operation.code(), register)),
                label: labels.0,
            },
        );
        tokens.push(
            Token {
                value: match operand {
                    Some(value) => value,
                    None => TokenValue::Constant(0x00),
                },
                label: labels.1,
            },
        );
        assert(tokens.deep_view() =~= instruction_tokens(
            operation,
            register,
            operand.deep_view(),
            labels.0.deep_view(),
            labels.1.deep_view(),
        ));
        Ok((end, tokens))
    }

    /// Reads a data segment.
    fn datasegment(&self, at: usize) -> (result: Result<(usize, Vec<Token<'a>>), Stop>)
        requires
            self.wf(),
            at <= self@.len(),
        ensures
            outcome_of(result) == datasegment(self@, at as int),
            within(outcome_of(result), at as int, self@.len() as int),
    {
        let start = self.blanks(at)?;
        let (after_word, _) = self.tag(start, "DATA")?;
        let start = self.blanks(after_word)?;
        let (after_data, data) = self.datasegment_value(start)?;
        let (end, labels) = self.label_clauses(after_data)?;
        match data_segment(data, labels.0, labels.1) {
            Ok(tokens) => Ok((end, tokens)),
            Err(kind) => Err(Stop::Error(at, kind)),
        }
    }

    /// Reads a data segment, an instruction or a comment.
    fn token(&self) -> (result: Result<(usize, Vec<Token<'a>>), Stop>)
        requires
            self.wf(),
        ensures
            outcome_of(result) == token(self@),
            within(outcome_of(result), 0, self@.len() as int),
    {
        match self.datasegment(0) {
            Ok(found) => Ok(found),
            Err(Stop::Incomplete(needed)) => Err(Stop::Incomplete(needed)),
            Err(Stop::Error(_, _)) => match self.instruction(0) {
                Ok(found) => Ok(found),
                Err(Stop::Incomplete(needed)) => Err(Stop::Incomplete(needed)),
                Err(Stop::Error(_, _)) => match self.tag(0, "//") {
                    Ok((end, _)) => {
                        let nothing: Vec<Token<'a>> = Vec::new();
                        assert(nothing.deep_view() =~= Seq::<TokenView>::empty());
                        Ok((end, nothing))
                    },
                    Err(Stop::Incomplete(needed)) => Err(Stop::Incomplete(needed)),
                    Err(Stop::Error(_, _)) => Err(Stop::Error(0, ErrorKind::Alt)),
                },
            },
        }
    }
}

/// Reads the mnemonic of an operation.
pub fn parse_opcode<'a>(input: &'a str) -> (result: Result<(&'a str, Opcode), ParseError<'a>>)
    ensures
        reports(input@, result, opcode(input@, 0)),
{
    let source = Source::new(input);
    source.finish(source.opcode(0))
}

/// Reads a byte of one or two hexadecimal digits.
pub fn parse_hexcode<'a>(input: &'a str) -> (result: Result<(&'a str, u8), ParseError<'a>>)
    ensures
        reports(input@, result, hexcode(input@, 0)),
{
    let source = Source::new(input);
    source.finish(source.hexcode(0))
}

/// Reads a text between double quotes.
pub fn parse_quoted<'a>(input: &'a str) -> (result: Result<(&'a str, &'a str), ParseError<'a>>)
    ensures
        reports(input@, result, quoted(input@, 0)),
{
    let source = Source::new(input);
    source.finish(source.quoted(0))
}

/// Reads an operand: a quoted label or a hexadecimal byte.
pub fn parse_token_value<'a>(input: &'a str) -> (result: Result<
    (&'a str, TokenValue<'a>),
    ParseError<'a>,
>)
    ensures
        reports(input@, result, token_value(input@, 0)),
{
    let source = Source::new(input);
    source.finish(source.token_value(0))
}

/// Reads a list of hexadecimal bytes, with blanks before, between and after
/// them.
pub fn parse_hexlist<'a>(input: &'a str) -> (result: Result<(&'a str, Vec<u8>), ParseError<'a>>)
    ensures
        reports(input@, result, hexlist(input@, 0)),
{
    let source = Source::new(input);
    source.finish(source.hexlist(0))
}

/// Reads the payload of a data segment: a quoted text or a list of
/// hexadecimal bytes.
pub fn parse_datasegment_value<'a>(input: &'a str) -> (result: Result<
    (&'a str, DataSegmentValue<'a>),
    ParseError<'a>,
>)
    ensures
        reports(input@, result, datasegment_value(input@, 0)),
{
    let source = Source::new(input);
    source.finish(source.datasegment_value(0))
}

/// Reads an instruction: an operation, a register, an operand that may be
/// left out, and up to two label clauses. The result holds two tokens.
pub fn parse_instruction<'a>(input: &'a str) -> (result: Result<
    (&'a str, Vec<Token<'a>>),
    ParseError<'a>,
>)
    ensures
        reports(input@, result, instruction(input@, 0)),
{
    let source = Source::new(input);
    source.finish(source.instruction(0))
}

/// Reads a data segment: the word `DATA`, a payload and up to two label
/// clauses. The result holds an even number of tokens.
pub fn parse_datasegment<'a>(input: &'a str) -> (result: Result<
    (&'a str, Vec<Token<'a>>),
    ParseError<'a>,
>)
    ensures
        reports(input@, result, datasegment(input@, 0)),
{
    let source = Source::new(input);
    source.finish(source.datasegment(0))
}

/// Reads a data segment, an instruction or a comment, whichever fits first.
/// A comment gives no token.
pub fn parse_token<'a>(input: &'a str) -> (result: Result<
    (&'a str, Vec<Token<'a>>),
    ParseError<'a>,
>)
    ensures
        reports(input@, result, token(input@)),
{
    let source = Source::new(input);
    source.finish(source.token())
}

/// Whether `result` hands the outcome of a whole line back to the caller:
/// the tokens of the line, or why the line has none.
pub open spec fn reports_line<'a>(
    text: Seq<char>,
    result: Result<Vec<Token<'a>>, ParseError<'a>>,
    outcome: Outcome<Seq<TokenView>>,
) -> bool {
    match outcome {
        Outcome::Done { value, .. } => result matches Ok(tokens) && tokens.deep_view() == value,
        Outcome::Incomplete { needed } => result matches Err(ParseError::Incomplete(wanted))
            && wanted == needed,
        Outcome::Error { at, kind } => result matches Err(ParseError::Error(rest, rule)) && rest@
            == text.subrange(at, text.len() as int) && rule == kind,
    }
}

/// Reads one whole line of source text. A blank line and a comment give no
/// token, an instruction gives two and a data segment an even number. The
/// end of the line closes its last word, so the line need not end in `;`.
pub fn parse_line<'a>(text: &'a str) -> (result: Result<Vec<Token<'a>>, ParseError<'a>>)
    ensures
        reports_line(text@, result, line(text@)),
{
    let source = Source::new(text);
    if source.blanks(0).is_err() {
        let nothing: Vec<Token<'a>> = Vec::new();
        assert(nothing.deep_view() =~= Seq::<TokenView>::empty());
        return Ok(nothing);
    }
    let source = source.close();
    match source.token() {
        Ok((_, tokens)) => Ok(tokens),
        Err(Stop::Incomplete(needed)) => Err(ParseError::Incomplete(needed)),
        Err(Stop::Error(_, kind)) => {
            assert(text@.subrange(0, text@.len() as int) =~= text@);
            Err(ParseError::Error(text, kind))
        },
    }
}

} // verus!
