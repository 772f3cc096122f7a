//! Label resolution and encoding.
//!
//! A program is a sequence of tokens, and the address of a token is its index
//! in that sequence. [`compile`] first records, for every label, the address of
//! the token that declares it, and then emits one byte per token.

use crate::token::{Token, TokenValue, TokenView, ValueView};
use vstd::hash_map::StringHashMap;
use vstd::prelude::*;

verus! {

/// Why a program could not be compiled.
#[derive(Debug, Clone, PartialEq)]
pub enum CompileError<'a> {
    /// A token refers to this label, and no token declares it.
    UnresolvedLabel(&'a str),
}

/// Whether the token at `index` declares the label `name`.
pub open spec fn declares(program: Seq<TokenView>, index: int, name: Seq<char>) -> bool {
    0 <= index < program.len() && program[index].label == Some(name)
}

/// The index of the last token of `program` that declares `name`.
pub open spec fn last_declaration(program: Seq<TokenView>, name: Seq<char>) -> Option<int>
    decreases program.len(),
{
    if program.len() == 0 {
        None
    } else if program.last().label == Some(name) {
        Some(program.len() - 1)
    } else {
        last_declaration(program.drop_last(), name)
    }
}

/// The byte that stands for the address `index`: addresses are single bytes,
/// so an index beyond 255 wraps around.
pub open spec fn address_byte(index: int) -> u8 {
    (index % 256) as u8
}

/// The label table after one pass over `program` from left to right, in which
/// each declaration overwrites an earlier one of the same name.
pub open spec fn label_table(program: Seq<TokenView>) -> Map<Seq<char>, u8>
    decreases program.len(),
{
    if program.len() == 0 {
        Map::empty()
    } else {
        let earlier = label_table(program.drop_last());
        match program.last().label {
            Some(name) => earlier.insert(name, address_byte(program.len() - 1)),
            None => earlier,
        }
    }
}

/// The byte that the token at `index` emits, or `None` where it refers to a
/// label that `program` never declares.
pub open spec fn resolved(program: Seq<TokenView>, index: int) -> Option<u8> {
    match program[index].value {
        ValueView::Constant(byte) => Some(byte),
        ValueView::Label(name) => match last_declaration(program, name) {
            Some(target) => Some(address_byte(target)),
            None => None,
        },
    }
}

/// Whether the token at `index` refers to a label that `program` never declares.
pub open spec fn is_unresolved(program: Seq<TokenView>, index: int) -> bool {
    0 <= index < program.len() && resolved(program, index) is None
}

/// Whether the token at `index` is the first that refers to a label that
/// `program` never declares.
pub open spec fn is_first_unresolved(program: Seq<TokenView>, index: int) -> bool {
    is_unresolved(program, index) && forall|earlier: int|
        0 <= earlier < index ==> !is_unresolved(program, earlier)
}

/// Whether `bytes` is the image of `program`: one byte per token, each the
/// byte that its token emits.
pub open spec fn is_image(program: Seq<TokenView>, bytes: Seq<u8>) -> bool {
    bytes.len() == program.len() && forall|index: int|
        0 <= index < program.len() ==> #[trigger] resolved(program, index) == Some(bytes[index])
}

/// Whether every label that `program` refers to is declared in it.
pub open spec fn resolves(program: Seq<TokenView>) -> bool {
    forall|index: int| 0 <= index < program.len() ==> !is_unresolved(program, index)
}

/// Whether `result` is what compiling `program` gives: its image, or the
/// label of the first reference that is unresolved.
pub open spec fn is_compiled(
    program: Seq<TokenView>,
    result: Result<Vec<u8>, CompileError>,
) -> bool {
    match result {
        Ok(bytes) => is_image(program, bytes@),
        Err(CompileError::UnresolvedLabel(name)) => exists|index: int|
            #![trigger is_first_unresolved(program, index)]
            is_first_unresolved(program, index) && program[index].value == ValueView::Label(
                name@,
            ),
    }
}

/// `last_declaration` finds a declaration of `name` after which there is no
/// other, and finds none only where there is none.
pub proof fn lemma_last_declaration(program: Seq<TokenView>, name: Seq<char>)
    ensures
        match last_declaration(program, name) {
            Some(index) => declares(program, index, name) && forall|later: int|
                index < later < program.len() ==> !declares(program, later, name),
            None => forall|index: int| !declares(program, index, name),
        },
    decreases program.len(),
{
    if program.len() > 0 && program.last().label != Some(name) {
        let earlier = program.drop_last();
        lemma_last_declaration(earlier, name);
        assert forall|index: int| declares(program, index, name) implies declares(
            earlier,
            index,
            name,
        ) by {}
    }
}

/// The label table holds exactly the declared labels, each with the address of
/// its last declaration.
pub proof fn lemma_label_table(program: Seq<TokenView>, name: Seq<char>)
    ensures
        label_table(program).contains_key(name) <==> last_declaration(program, name) is Some,
        last_declaration(program, name) matches Some(index) ==> label_table(program)[name]
            == address_byte(index),
    decreases program.len(),
{
    if program.len() > 0 {
        lemma_label_table(program.drop_last(), name);
    }
}

/// A label that is declared more than once names the address of its last
/// declaration: every reference to it, before or after, emits that address.
pub proof fn lemma_last_declaration_wins(
    program: Seq<TokenView>,
    name: Seq<char>,
    last: int,
    reference: int,
)
    requires
        declares(program, last, name),
        forall|later: int| last < later < program.len() ==> !declares(program, later, name),
        0 <= reference < program.len(),
        program[reference].value == ValueView::Label(name),
    ensures
        resolved(program, reference) == Some(address_byte(last)),
{
    lemma_last_declaration(program, name);
}

/// A reference to a label that no token declares is unresolved.
pub proof fn lemma_undeclared_label_is_unresolved(
    program: Seq<TokenView>,
    name: Seq<char>,
    reference: int,
)
    requires
        forall|index: int| !declares(program, index, name),
        0 <= reference < program.len(),
        program[reference].value == ValueView::Label(name),
    ensures
        is_unresolved(program, reference),
{
    lemma_last_declaration(program, name);
}

/// Builds the label table of `program`.
fn build_label_table(program: &[Token]) -> (table: StringHashMap<u8>)
    ensures
        table@ == label_table(program.deep_view()),
{
    let ghost view = program.deep_view();
    let mut table: StringHashMap<u8> = StringHashMap::new();
    let mut address: usize = 0;
    while address < program.len()
        invariant
            address <= program.len(),
            view == program.deep_view(),
            table@ == label_table(view.take(address as int)),
        decreases program.len() - address,
    {
        proof {
            assert(view.take(address + 1).drop_last() == view.take(address as int));
            assert(view.take(address + 1).last() == program[address as int]@);
        }
        if let Some(label) = program[address].label {
            table.insert(label.to_owned(), (address % 256) as u8);
        }
        address += 1;
    }
    proof {
        assert(view.take(program.len() as int) == view);
    }
    table
}

/// Turns a program into its bytes: one byte per token, in order.
///
/// A constant emits itself. A label reference emits the address of the last
/// token that declares the label, wherever in the program that token stands.
/// The first reference to a label that no token declares is reported as an
/// error, and nothing is emitted.
pub fn compile<'a>(program: &[Token<'a>]) -> (result: Result<Vec<u8>, CompileError<'a>>)
    ensures
        result is Ok <==> resolves(program.deep_view()),
        is_compiled(program.deep_view(), result),
{
    let ghost view = program.deep_view();
    let table = build_label_table(program);
    let mut output: Vec<u8> = Vec::new();
    let mut address: usize = 0;
    while address < program.len()
        invariant
            address <= program.len(),
            view == program.deep_view(),
            table@ == label_table(view),
            output@.len() == address,
            forall|index: int|
                0 <= index < address ==> #[trigger] resolved(view, index) == Some(output@[index]),
        decreases program.len() - address,
    {
        match program[address].value {
            TokenValue::Constant(value) => output.push(value),
            TokenValue::Label(label) => {
                proof {
                    lemma_label_table(view, label@);
                }
                match table.get(label) {
                    Some(target) => output.push(*target),
                    None => {
                        assert(view[address as int].value == ValueView::Label(label@));
                        assert(is_first_unresolved(view, address as int));
                        return Err(CompileError::UnresolvedLabel(label));
                    },
                }
            },
        }
        address += 1;
    }
    Ok(output)
}

} // verus!
