//! The grammar of the source text, as functions on its characters.
//!
//! Every rule is read at a position of a text and has one of three outcomes:
//! it matched up to some later position, the text ended before the rule could
//! be decided, or the characters at some position do not fit.
//!
//! The rules read a text as the beginning of a longer one: a rule that
//! reaches the end of the text while more characters could still change what
//! it reads is left undecided. [`line`] reads a text as one whole line, whose
//! end closes its last word.
//!
//! A line holds one of these, and what follows it on the line is not read:
//!
//! ```text
//! OPCODE REGISTER [OPERAND] [: "label"] [: "label"]
//! DATA ("text" | BYTE ...) [: "label"] [: "label"]
//! // comment
//! ```
//!
//! `OPCODE` is a mnemonic, `REGISTER` and `BYTE` are one or two hexadecimal
//! digits, and `OPERAND` is a byte or a quoted label. The text of a data
//! segment holds ASCII characters, each of which is one byte. Blanks may
//! stand between any two of them.

use crate::opcode::{packed, Opcode, MNEMONICS};
use crate::text::{
    all_hex, hex_digit_value, is_blank, is_hex_char, lemma_hex_value_fits, spec_from_hex, HexError,
};
use crate::token::{TokenView, ValueView};
use vstd::prelude::*;
use vstd::utf8::{encode_utf8, is_ascii_chars, is_ascii_chars_encode_utf8};

verus! {

/// The rule that rejected the input.
#[derive(Debug, Clone, Copy, PartialEq, Eq, Structural)]
pub enum ErrorKind {
    /// A fixed word or mark was expected: `DATA`, `//` or an opening quote.
    Tag,
    /// None of the alternatives of a rule fits.
    Alt,
    /// Hexadecimal digits were to be taken, at least one and at most two, and
    /// there is none.
    TakeWhileMN,
    /// A register is a single nibble: it cannot exceed `F`.
    Verify,
    /// A data segment holds at least one byte.
    NonEmpty,
    /// A quoted payload holds ASCII characters only, so that every character
    /// is one byte.
    Ascii,
}

impl DeepView for ErrorKind {
    type V = ErrorKind;

    open spec fn deep_view(&self) -> ErrorKind {
        *self
    }
}

/// What a rule makes of the characters from some position on.
pub enum Outcome<T> {
    /// The rule matched, and the next rule starts at `end`.
    Done { end: int, value: T },
    /// The line ended too early, short of at least `needed` characters.
    Incomplete { needed: int },
    /// The characters from `at` on were rejected by the rule `kind`.
    Error { at: int, kind: ErrorKind },
}

/// The payload of a data segment.
pub enum DataView {
    /// A quoted text.
    Text(Seq<char>),
    /// A list of hexadecimal bytes.
    Bytes(Seq<u8>),
}

impl DataView {
    /// Whether the payload can be expanded to bytes: a text can where all its
    /// characters are ASCII, a list of bytes always.
    pub open spec fn is_plain(self) -> bool {
        match self {
            DataView::Text(text) => is_ascii_chars(text),
            DataView::Bytes(_) => true,
        }
    }

    /// The bytes that the payload expands to. A text gives one byte for each
    /// of its characters, the code of the character.
    pub open spec fn bytes(self) -> Seq<u8>
        recommends
            self.is_plain(),
    {
        match self {
            DataView::Text(text) => Seq::new(text.len(), |i: int| text[i] as u8),
            DataView::Bytes(bytes) => bytes,
        }
    }
}

/// A text expands to as many bytes as it has characters. Each byte of an
/// ASCII text is the code of its character, below 128, and the bytes are the
/// UTF-8 encoding of the text.
pub proof fn lemma_text_bytes(text: Seq<char>)
    ensures
        DataView::Text(text).bytes().len() == text.len(),
        is_ascii_chars(text) ==> DataView::Text(text).bytes() == encode_utf8(text),
        is_ascii_chars(text) ==> forall|i: int|
            0 <= i < text.len() ==> (#[trigger] DataView::Text(text).bytes()[i]) == text[i]
                as int && DataView::Text(text).bytes()[i] < 128,
{
    if is_ascii_chars(text) {
        is_ascii_chars_encode_utf8(text);
        assert(DataView::Text(text).bytes() =~= encode_utf8(text));
    }
}

/// The outcome of a rule whose value is passed through `convert`.
pub open spec fn mapped<A, B>(rule: Outcome<A>, convert: spec_fn(A) -> B) -> Outcome<B> {
    match rule {
        Outcome::Done { end, value } => Outcome::Done { end, value: convert(value) },
        Outcome::Incomplete { needed } => Outcome::Incomplete { needed },
        Outcome::Error { at, kind } => Outcome::Error { at, kind },
    }
}

/// One rule after another: `next` reads on where `first` ended.
pub open spec fn then<A, B>(first: Outcome<A>, next: spec_fn(int, A) -> Outcome<B>) -> Outcome<B> {
    match first {
        Outcome::Done { end, value } => next(end, value),
        Outcome::Incomplete { needed } => Outcome::Incomplete { needed },
        Outcome::Error { at, kind } => Outcome::Error { at, kind },
    }
}

/// A choice: `otherwise` is taken where `first` rejected the input, and only
/// there.
pub open spec fn either<T>(first: Outcome<T>, otherwise: Outcome<T>) -> Outcome<T> {
    match first {
        Outcome::Error { .. } => otherwise,
        decided => decided,
    }
}

/// A rule that may be absent: where `rule`, read at `at`, rejected the input,
/// nothing is consumed.
pub open spec fn optional<T>(at: int, rule: Outcome<T>) -> Outcome<Option<T>> {
    match rule {
        Outcome::Done { end, value } => Outcome::Done { end, value: Some(value) },
        Outcome::Incomplete { needed } => Outcome::Incomplete { needed },
        Outcome::Error { .. } => Outcome::Done { end: at, value: None },
    }
}

/// The first position from `from` on that holds no blank, or the end of the
/// line.
pub open spec fn first_not_blank(s: Seq<char>, from: int) -> int
    decreases s.len() - from,
{
    if 0 <= from < s.len() && is_blank(s[from]) {
        first_not_blank(s, from + 1)
    } else {
        from
    }
}

/// `first_not_blank` skips blanks and nothing else, and stops at the end of
/// the line.
pub proof fn lemma_first_not_blank(s: Seq<char>, from: int)
    ensures
        from <= first_not_blank(s, from),
        0 <= from <= s.len() ==> first_not_blank(s, from) <= s.len(),
        forall|i: int| from <= i < first_not_blank(s, from) ==> is_blank(#[trigger] s[i]),
        0 <= first_not_blank(s, from) < s.len() ==> !is_blank(s[first_not_blank(s, from)]),
    decreases s.len() - from,
{
    if 0 <= from < s.len() && is_blank(s[from]) {
        lemma_first_not_blank(s, from + 1);
    }
}

/// The first position from `from` on that holds a double quote, or the end of
/// the line.
pub open spec fn first_quote(s: Seq<char>, from: int) -> int
    decreases s.len() - from,
{
    if 0 <= from < s.len() && s[from] != '"' {
        first_quote(s, from + 1)
    } else {
        from
    }
}

/// A rule read after any blanks. Blanks that run to the end of the line leave
/// it undecided.
pub open spec fn spaced<T>(s: Seq<char>, at: int, rule: spec_fn(int) -> Outcome<T>) -> Outcome<T> {
    let start = first_not_blank(s, at);
    if start >= s.len() {
        Outcome::Incomplete { needed: 1 }
    } else {
        rule(start)
    }
}

/// The fixed text `word`. The line may end inside the word only where it
/// agrees with the word so far.
pub open spec fn tag(s: Seq<char>, at: int, word: Seq<char>) -> Outcome<()> {
    let common = if word.len() <= s.len() - at {
        word.len() as int
    } else {
        s.len() - at
    };
    if s.subrange(at, at + common) != word.subrange(0, common) {
        Outcome::Error { at, kind: ErrorKind::Tag }
    } else if common == word.len() {
        Outcome::Done { end: at + word.len(), value: () }
    } else {
        Outcome::Incomplete { needed: word.len() as int }
    }
}

/// The mnemonics from entry `index` of the table on, tried in turn.
pub open spec fn opcode_from(s: Seq<char>, at: int, index: int) -> Outcome<Opcode>
    decreases MNEMONICS - index,
{
    if 0 <= index < MNEMONICS {
        let opcode = Opcode::table()[index];
        either(
            mapped(tag(s, at, opcode.spec_mnemonic()), |found: ()| opcode),
            opcode_from(s, at, index + 1),
        )
    } else {
        Outcome::Error { at, kind: ErrorKind::Alt }
    }
}

/// An operation, by its mnemonic.
pub open spec fn opcode(s: Seq<char>, at: int) -> Outcome<Opcode> {
    opcode_from(s, at, 0)
}

/// A byte of one or two hexadecimal digits. A digit at the very end of the
/// line is undecided: another digit could follow.
pub open spec fn hexcode(s: Seq<char>, at: int) -> Outcome<u8> {
    if at >= s.len() {
        Outcome::Incomplete { needed: 1 }
    } else if !is_hex_char(s[at]) {
        Outcome::Error { at, kind: ErrorKind::TakeWhileMN }
    } else if at + 1 >= s.len() {
        Outcome::Incomplete { needed: 1 }
    } else if !is_hex_char(s[at + 1]) {
        Outcome::Done { end: at + 1, value: hex_digit_value(s[at]) as u8 }
    } else {
        Outcome::Done {
            end: at + 2,
            value: (hex_digit_value(s[at]) * 16 + hex_digit_value(s[at + 1])) as u8,
        }
    }
}

/// A register: a hexadecimal byte that fits one nibble.
pub open spec fn register(s: Seq<char>, at: int) -> Outcome<u8> {
    match hexcode(s, at) {
        Outcome::Done { end, value } => if value <= 15 {
            Outcome::Done { end, value }
        } else {
            Outcome::Error { at, kind: ErrorKind::Verify }
        },
        undecided => undecided,
    }
}

/// A text between double quotes. Nothing is escaped: the text ends at the
/// next double quote.
pub open spec fn quoted(s: Seq<char>, at: int) -> Outcome<Seq<char>> {
    if at >= s.len() {
        Outcome::Incomplete { needed: 1 }
    } else if s[at] != '"' {
        Outcome::Error { at, kind: ErrorKind::Tag }
    } else {
        let close = first_quote(s, at + 1);
        if close >= s.len() {
            Outcome::Incomplete { needed: 1 }
        } else {
            Outcome::Done { end: close + 1, value: s.subrange(at + 1, close) }
        }
    }
}

/// An operand: a quoted label or a hexadecimal byte.
pub open spec fn token_value(s: Seq<char>, at: int) -> Outcome<ValueView> {
    either(
        mapped(quoted(s, at), |name: Seq<char>| ValueView::Label(name)),
        either(
            mapped(hexcode(s, at), |byte: u8| ValueView::Constant(byte)),
            Outcome::Error { at, kind: ErrorKind::Alt },
        ),
    )
}

/// A byte put in front of a list of bytes.
pub open spec fn prepended(byte: u8, rest: Outcome<Seq<u8>>) -> Outcome<Seq<u8>> {
    mapped(rest, |bytes: Seq<u8>| seq![byte] + bytes)
}

/// Hexadecimal bytes, each after any blanks, as many as there are. The list
/// ends in front of the blanks before the first character that starts no
/// byte.
pub open spec fn hex_items(s: Seq<char>, at: int) -> Outcome<Seq<u8>>
    decreases s.len() - at,
    via hex_items_ends
{
    let start = first_not_blank(s, at);
    if start >= s.len() {
        Outcome::Incomplete { needed: 1 }
    } else {
        match hexcode(s, start) {
            Outcome::Done { end, value } => prepended(value, hex_items(s, end)),
            Outcome::Incomplete { needed } => Outcome::Incomplete { needed },
            Outcome::Error { .. } => Outcome::Done { end: at, value: Seq::empty() },
        }
    }
}

#[via_fn]
proof fn hex_items_ends(s: Seq<char>, at: int) {
    lemma_first_not_blank(s, at);
}

/// A list of hexadecimal bytes and the blanks after it.
pub open spec fn hexlist(s: Seq<char>, at: int) -> Outcome<Seq<u8>> {
    then(
        hex_items(s, at),
        |end: int, bytes: Seq<u8>|
            spaced(s, end, |start: int| Outcome::Done { end: start, value: bytes }),
    )
}

/// The payload of a data segment: a quoted text or a list of hexadecimal
/// bytes.
pub open spec fn datasegment_value(s: Seq<char>, at: int) -> Outcome<DataView> {
    either(
        mapped(quoted(s, at), |text: Seq<char>| DataView::Text(text)),
        either(
            mapped(hexlist(s, at), |bytes: Seq<u8>| DataView::Bytes(bytes)),
            Outcome::Error { at, kind: ErrorKind::Alt },
        ),
    )
}

/// One label clause: a colon and a quoted name, each after any blanks. The
/// clause as a whole may be absent: where no colon stands, or no name after
/// the colon, nothing but the blanks before the clause is consumed.
pub open spec fn label_clause(s: Seq<char>, at: int) -> Outcome<Option<Seq<char>>> {
    spaced(
        s,
        at,
        |start: int|
            optional(
                start,
                then(
                    tag(s, start, ":"@),
                    |after_colon: int, colon: ()|
                        spaced(s, after_colon, |name_at: int| quoted(s, name_at)),
                ),
            ),
    )
}

/// The two label clauses that close an instruction or a data segment, and the
/// blanks after them.
pub open spec fn label_clauses(s: Seq<char>, at: int) -> Outcome<
    (Option<Seq<char>>, Option<Seq<char>>),
> {
    then(
        label_clause(s, at),
        |after_head: int, head: Option<Seq<char>>|
            then(
                label_clause(s, after_head),
                |after_tail: int, tail: Option<Seq<char>>|
                    spaced(
                        s,
                        after_tail,
                        |start: int| Outcome::Done { end: start, value: (head, tail) },
                    ),
            ),
    )
}

/// The two tokens of an instruction. The first holds the operation and the
/// register in one byte and carries the first label; the second holds the
/// operand, zero where there is none, and carries the second label.
pub open spec fn instruction_tokens(
    opcode: Opcode,
    register: u8,
    operand: Option<ValueView>,
    head: Option<Seq<char>>,
    tail: Option<Seq<char>>,
) -> Seq<TokenView> {
    seq![
        TokenView {
            value: ValueView::Constant(packed(opcode.spec_code(), register)),
            label: head,
        },
        TokenView {
            value: match operand {
                Some(value) => value,
                None => ValueView::Constant(0),
            },
            label: tail,
        },
    ]
}

/// One unlabelled token for each byte.
pub open spec fn unlabelled(bytes: Seq<u8>) -> Seq<TokenView> {
    Seq::new(bytes.len(), |i: int| TokenView::constant(bytes[i]))
}

/// The tokens with `head` as the label of the first and `tail` as the label of
/// the last. On a single token `tail`, where there is one, takes the place of
/// `head`.
pub open spec fn labelled(
    tokens: Seq<TokenView>,
    head: Option<Seq<char>>,
    tail: Option<Seq<char>>,
) -> Seq<TokenView> {
    Seq::new(
        tokens.len(),
        |i: int|
            TokenView {
                value: tokens[i].value,
                label: if i == tokens.len() - 1 && tail is Some {
                    tail
                } else if i == 0 {
                    head
                } else {
                    tokens[i].label
                },
            },
    )
}

/// The tokens brought to an even number by one unlabelled zero after an odd
/// number of them.
pub open spec fn aligned(tokens: Seq<TokenView>) -> Seq<TokenView> {
    if tokens.len() % 2 == 1 {
        tokens.push(TokenView::constant(0))
    } else {
        tokens
    }
}

/// The tokens of a data segment: one per byte, the first label on the first
/// byte and the second label on the last, and after an odd number of bytes
/// one unlabelled zero.
pub open spec fn data_tokens(
    bytes: Seq<u8>,
    head: Option<Seq<char>>,
    tail: Option<Seq<char>>,
) -> Seq<TokenView> {
    aligned(labelled(unlabelled(bytes), head, tail))
}

/// What a data segment expands to: the tokens of its bytes, unless the
/// payload is a text with a character beyond ASCII, or holds no byte at all.
pub open spec fn expansion(
    data: DataView,
    head: Option<Seq<char>>,
    tail: Option<Seq<char>>,
) -> Result<Seq<TokenView>, ErrorKind> {
    if !data.is_plain() {
        Err(ErrorKind::Ascii)
    } else if data.bytes().len() == 0 {
        Err(ErrorKind::NonEmpty)
    } else {
        Ok(data_tokens(data.bytes(), head, tail))
    }
}

/// A data segment takes an even number of addresses. Its bytes stand in
/// order at the front, and an odd number of bytes is followed by exactly one
/// token, an unlabelled zero. The first label names the first byte and the
/// second label names the last byte, not the zero after it.
pub proof fn lemma_data_tokens(
    bytes: Seq<u8>,
    head: Option<Seq<char>>,
    tail: Option<Seq<char>>,
)
    ensures
        data_tokens(bytes, head, tail).len() % 2 == 0,
        data_tokens(bytes, head, tail).len() == bytes.len() + bytes.len() % 2,
        forall|i: int|
            0 <= i < bytes.len() ==> (#[trigger] data_tokens(bytes, head, tail)[i]).value
                == ValueView::Constant(bytes[i]),
        bytes.len() % 2 == 1 ==> data_tokens(bytes, head, tail).last() == TokenView::constant(0),
        bytes.len() > 1 ==> data_tokens(bytes, head, tail)[0].label == head,
        bytes.len() > 1 ==> data_tokens(bytes, head, tail)[bytes.len() - 1].label == tail,
        bytes.len() == 1 ==> data_tokens(bytes, head, tail)[0].label == if tail is Some {
            tail
        } else {
            head
        },
        forall|i: int|
            0 < i < bytes.len() - 1 ==> (#[trigger] data_tokens(bytes, head, tail)[i]).label
                is None,
{
}

/// An instruction: an operation, a register, an operand that may be left out,
/// and the label clauses.
pub open spec fn instruction(s: Seq<char>, at: int) -> Outcome<Seq<TokenView>> {
    then(
        spaced(s, at, |start: int| opcode(s, start)),
        |after_opcode: int, operation: Opcode|
            then(
                spaced(s, after_opcode, |start: int| register(s, start)),
                |after_register: int, register: u8|
                    then(
                        spaced(
                            s,
                            after_register,
                            |start: int| optional(start, token_value(s, start)),
                        ),
                        |after_operand: int, operand: Option<ValueView>|
                            mapped(
                                label_clauses(s, after_operand),
                                |labels: (Option<Seq<char>>, Option<Seq<char>>)|
                                    instruction_tokens(
                                        operation,
                                        register,
                                        operand,
                                        labels.0,
                                        labels.1,
                                    ),
                            ),
                    ),
            ),
    )
}

/// A data segment: the word `DATA`, a payload and the label clauses. A
/// payload without bytes is rejected, and so is a text with a character
/// beyond ASCII.
pub open spec fn datasegment(s: Seq<char>, at: int) -> Outcome<Seq<TokenView>> {
    then(
        spaced(s, at, |start: int| tag(s, start, "DATA"@)),
        |after_word: int, word: ()|
            then(
                spaced(s, after_word, |start: int| datasegment_value(s, start)),
                |after_data: int, data: DataView|
                    then(
                        label_clauses(s, after_data),
                        |end: int, labels: (Option<Seq<char>>, Option<Seq<char>>)|
                            match expansion(data, labels.0, labels.1) {
                                Ok(tokens) => Outcome::Done { end, value: tokens },
                                Err(kind) => Outcome::Error { at, kind },
                            },
                    ),
            ),
    )
}

/// An instruction gives exactly two tokens, and a data segment an even
/// number of them, at least two.
pub proof fn lemma_rules_are_aligned(s: Seq<char>, at: int)
    ensures
        instruction(s, at) matches Outcome::Done { value, .. } ==> value.len() == 2,
        datasegment(s, at) matches Outcome::Done { value, .. } ==> value.len() >= 2 && value.len()
            % 2 == 0,
{
}

/// A data segment, an instruction or a comment, whichever fits first. A
/// comment starts with `//` and gives no token.
pub open spec fn token(s: Seq<char>) -> Outcome<Seq<TokenView>> {
    either(
        datasegment(s, 0),
        either(
            instruction(s, 0),
            either(
                mapped(tag(s, 0, "//"@), |found: ()| Seq::<TokenView>::empty()),
                Outcome::Error { at: 0, kind: ErrorKind::Alt },
            ),
        ),
    )
}

/// Whether the line holds nothing but blanks.
pub open spec fn is_blank_line(line: Seq<char>) -> bool {
    first_not_blank(line, 0) >= line.len()
}

/// The line with the mark `;` after it. The mark belongs to no rule, so it
/// decides every rule that the end of the line would leave undecided, but
/// for a quoted text that lacks its closing quote.
pub open spec fn closed(line: Seq<char>) -> Seq<char> {
    line.push(';')
}

/// One whole line of source text. A blank line gives no token; any other
/// line is read as [`token`] reads it, the end of the line closing its last
/// word. What follows the rule on the line is not looked at.
pub open spec fn line(text: Seq<char>) -> Outcome<Seq<TokenView>> {
    if is_blank_line(text) {
        Outcome::Done { end: text.len() as int, value: Seq::empty() }
    } else {
        token(closed(text))
    }
}

/// Every line that matches a rule gives an even number of tokens, so every
/// line starts at an even address.
pub proof fn lemma_line_is_aligned(text: Seq<char>)
    ensures
        token(text) matches Outcome::Done { value, .. } ==> value.len() % 2 == 0,
        line(text) matches Outcome::Done { value, .. } ==> value.len() % 2 == 0,
{
    lemma_rules_are_aligned(text, 0);
    lemma_rules_are_aligned(closed(text), 0);
}

/// The byte that the grammar reads from one or two hexadecimal digits is the
/// byte that [`crate::text::from_hex`] reads from the same digits.
pub proof fn lemma_hexcode_is_from_hex(s: Seq<char>, at: int)
    requires
        0 <= at,
    ensures
        hexcode(s, at) matches Outcome::Done { end, value } ==> at < end <= s.len()
            && spec_from_hex(s.subrange(at, end)) == Ok::<u8, HexError>(value),
{
    if let Outcome::Done { end, value } = hexcode(s, at) {
        let digits = s.subrange(at, end);
        assert(all_hex(digits));
        lemma_hex_value_fits(digits);
    }
}

} // verus!
