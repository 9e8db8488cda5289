//! The emission of the uses of `CODECOPY`.

use vstd::prelude::*;

use crate::generator::context::next;
use crate::generator::context::record;
use crate::generator::context::Context;
use crate::generator::context::ContextView;
use crate::generator::operation::Binary;
use crate::generator::operation::Operation;
use crate::generator::operation::OperationView;
use crate::generator::operation::Type;
use crate::generator::operation::BITLENGTH_FIELD;
use crate::generator::operation::SIZE_FIELD;
use crate::generator::operation::SIZE_X32;
use crate::text::chars_of;
use crate::yul::emit::model::field;

verus! {

/// The number of hexadecimal digits of a machine word.
pub const WORD_DIGITS: usize = 64;

/// A store of a word to the heap at an offset that is a sum.
pub open spec fn store_at(context: ContextView, base: usize, offset: u64, value: usize) -> ContextView {
    let constant = record(context, OperationView::Integer { kind: field(), number: offset });
    let sum = record(
        constant,
        OperationView::Binary { operator: Binary::Add, left: base, right: next(context) },
    );
    record(sum, OperationView::MemoryStore { offset: next(constant), value, byte: false })
}

/// The copy of a contract hash: the second argument is stored behind the
/// first, past an index and a word.
pub open spec fn copied_hash(context: ContextView, arguments: [usize; 3]) -> ContextView {
    store_at(context, arguments[0], (SIZE_X32 + SIZE_FIELD) as u64, arguments[1])
}

/// The copy of a library marker: the byte that the value writes is stored
/// at the offset, both given in hexadecimal.
pub open spec fn copied_marker(context: ContextView, offset: Seq<char>, value: Seq<char>) -> ContextView {
    let at = record(context, OperationView::Word { hexadecimal: true, text: offset });
    let what = record(at, OperationView::Word { hexadecimal: true, text: value });
    record(what, OperationView::MemoryStore { offset: next(context), value: next(at), byte: true })
}

/// So many zeros.
pub open spec fn zeros(count: int) -> Seq<char> {
    Seq::new(count as nat, |i: int| '0')
}

/// The piece of the data of the index: its 64 digits, or as many as are
/// left, filled up with zeros.
pub open spec fn piece(source: Seq<char>, index: int) -> Seq<char> {
    let start = index * WORD_DIGITS;
    let end = if start + WORD_DIGITS <= source.len() {
        start + WORD_DIGITS
    } else {
        source.len() as int
    };
    source.subrange(start, end) + zeros(start + WORD_DIGITS - end)
}

/// The number of pieces of the data.
pub open spec fn pieces(source: Seq<char>) -> int {
    (source.len() + WORD_DIGITS - 1) / (WORD_DIGITS as int)
}

/// The copy of static data from the piece of the index on: each piece is
/// stored as a word behind the first argument, a word further than the one
/// before it.
pub open spec fn copied_data(
    context: ContextView,
    arguments: [usize; 3],
    source: Seq<char>,
    from: int,
) -> ContextView
    decreases pieces(source) - from,
{
    if 0 <= from < pieces(source) {
        let constant = record(
            context,
            OperationView::Integer { kind: field(), number: (from * SIZE_FIELD) as u64 },
        );
        let destination = record(
            constant,
            OperationView::Binary { operator: Binary::Add, left: arguments[0], right: next(context) },
        );
        let value = record(
            destination,
            OperationView::Word { hexadecimal: false, text: piece(source, from) },
        );
        copied_data(
            record(
                value,
                OperationView::MemoryStore {
                    offset: next(constant),
                    value: next(destination),
                    byte: false,
                },
            ),
            arguments,
            source,
            from + 1,
        )
    } else {
        context
    }
}

/// Emits the copy of a contract hash: see [`copied_hash`]. It gives no
/// value.
pub fn contract_hash(context: &mut Context, arguments: [usize; 3]) -> (value: Option<usize>)
    ensures
        value is None,
        final(context)@ == copied_hash(old(context)@, arguments),
{
    let constant = context.record(
        Operation::Integer {
            kind: Type::Integer(BITLENGTH_FIELD),
            number: (SIZE_X32 + SIZE_FIELD) as u64,
        },
    );
    let offset = context.record(
        Operation::Binary { operator: Binary::Add, left: arguments[0], right: constant },
    );
    context.record(Operation::MemoryStore { offset, value: arguments[1], byte: false });
    None
}

/// Emits the copy of a library marker: see [`copied_marker`]. It gives no
/// value.
pub fn library_marker(context: &mut Context, offset: &str, value: &str) -> (result: Option<usize>)
    ensures
        result is None,
        final(context)@ == copied_marker(old(context)@, offset@, value@),
{
    let at = context.record(Operation::Word { hexadecimal: true, text: offset.to_owned() });
    let what = context.record(Operation::Word { hexadecimal: true, text: value.to_owned() });
    context.record(Operation::MemoryStore { offset: at, value: what, byte: true });
    None
}

fn piece_of(source: &Vec<char>, index: usize) -> (text: String)
    requires
        index < pieces(source@),
    ensures
        text@ == piece(source@, index as int),
{
    let start = index * WORD_DIGITS;
    let end = if source.len() - start >= WORD_DIGITS {
        start + WORD_DIGITS
    } else {
        source.len()
    };
    let mut text = crate::text::string_of(source, start, end);
    let mut filled: usize = end - start;
    while filled < WORD_DIGITS
        invariant
            end - start <= filled <= WORD_DIGITS,
            start <= end <= source.len(),
            text@ == source@.subrange(start as int, end as int) + zeros(filled - (end - start)),
        decreases WORD_DIGITS - filled,
    {
        text.push('0');
        filled += 1;
        assert(text@ =~= source@.subrange(start as int, end as int) + zeros(
            filled - (end - start),
        ));
    }
    text
}

/// Emits the copy of static data: see [`copied_data`]. It gives no value.
pub fn static_data(context: &mut Context, arguments: [usize; 3], source: &str) -> (value: Option<
    usize,
>)
    ensures
        value is None,
        final(context)@ == copied_data(old(context)@, arguments, source@, 0),
{
    let chars = chars_of(source);
    let count = chars.len() / WORD_DIGITS + (if chars.len() % WORD_DIGITS == 0 {
        0
    } else {
        1
    });
    assert(count == pieces(chars@));
    let mut index: usize = 0;
    while index < count
        invariant
            index <= count,
            count == pieces(chars@),
            count <= chars.len() / WORD_DIGITS + 1,
            chars@ == source@,
            copied_data(old(context)@, arguments, source@, 0) == copied_data(
                context@,
                arguments,
                source@,
                index as int,
            ),
        decreases count - index,
    {
        assert(index * SIZE_FIELD <= chars.len()) by (nonlinear_arith)
            requires
                index <= chars.len() / WORD_DIGITS,
                SIZE_FIELD == 32,
                WORD_DIGITS == 64,
        ;
        let constant = context.record(
            Operation::Integer {
                kind: Type::Integer(BITLENGTH_FIELD),
                number: (index * SIZE_FIELD) as u64,
            },
        );
        let destination = context.record(
            Operation::Binary { operator: Binary::Add, left: arguments[0], right: constant },
        );
        let value = context.record(
            Operation::Word { hexadecimal: false, text: piece_of(&chars, index) },
        );
        context.record(Operation::MemoryStore { offset: destination, value, byte: false });
        index += 1;
    }
    None
}

} // verus!
