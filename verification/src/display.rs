//! The display, as the interpreter sees it: a list of operations.
//!
//! The interpreter never reads from the display. It gives out operations, and
//! joins text to the text before it, so that a run of characters is printed in
//! one piece.

use vstd::prelude::*;
use crate::text::to_string;

verus! {

/// A foreground colour. The background is always black.
#[derive(Clone, Copy, Debug, PartialEq, Eq, Structural)]
pub enum Color {
    White,
    Black,
    Blue,
    Yellow,
    Green,
    Magenta,
    Cyan,
    Red,
}

/// One operation on the display.
#[derive(Clone, Debug, PartialEq, Eq)]
pub enum RenderOp {
    /// Clears the screen.
    Clear,
    /// Switches bold on or off.
    SetBold(bool),
    /// Switches underline on or off.
    SetUnderline(bool),
    /// Sets the foreground colour.
    SetForeground(Color),
    /// Prints text at the cursor.
    Print(String),
    /// Moves the cursor back by a number of columns.
    MoveCursorBack(usize),
}

/// What a `RenderOp` stands for.
pub enum OpModel {
    Clear,
    SetBold(bool),
    SetUnderline(bool),
    SetForeground(Color),
    Print(Seq<char>),
    MoveCursorBack(nat),
}

impl View for RenderOp {
    type V = OpModel;

    open spec fn view(&self) -> OpModel {
        match *self {
            RenderOp::Clear => OpModel::Clear,
            RenderOp::SetBold(on) => OpModel::SetBold(on),
            RenderOp::SetUnderline(on) => OpModel::SetUnderline(on),
            RenderOp::SetForeground(color) => OpModel::SetForeground(color),
            RenderOp::Print(text) => OpModel::Print(text@),
            RenderOp::MoveCursorBack(n) => OpModel::MoveCursorBack(n as nat),
        }
    }
}

/// What a list of operations stands for.
pub open spec fn ops_model(ops: Seq<RenderOp>) -> Seq<OpModel> {
    ops.map_values(|op: RenderOp| op@)
}

/// The list `acc` with one more operation. Text that follows text is joined to
/// it, and empty text is dropped.
pub open spec fn emit(acc: Seq<OpModel>, op: OpModel) -> Seq<OpModel> {
    match op {
        OpModel::Print(text) => {
            if text.len() == 0 {
                acc
            } else if acc.len() > 0 {
                match acc.last() {
                    OpModel::Print(before) => acc.drop_last().push(OpModel::Print(before + text)),
                    _ => acc.push(op),
                }
            } else {
                acc.push(op)
            }
        },
        _ => acc.push(op),
    }
}

/// The list `acc` with the operations `ops` after it, one by one.
pub open spec fn absorb(acc: Seq<OpModel>, ops: Seq<OpModel>) -> Seq<OpModel>
    decreases ops.len(),
{
    if ops.len() == 0 {
        acc
    } else {
        emit(absorb(acc, ops.drop_last()), ops.last())
    }
}

/// The operations `ops` with neighbouring pieces of text joined into one and
/// empty text dropped.
pub open spec fn coalesce(ops: Seq<OpModel>) -> Seq<OpModel> {
    absorb(Seq::empty(), ops)
}

/// Whether no text in `ops` is empty and none follows other text.
pub open spec fn joined(ops: Seq<OpModel>) -> bool {
    forall|i: int|
        0 <= i < ops.len() ==> match #[trigger] ops[i] {
            OpModel::Print(text) => text.len() > 0 && (i > 0 ==> !(ops[i - 1] is Print)),
            _ => true,
        }
}

/// The text that an operation prints.
pub open spec fn text_of(op: OpModel) -> Seq<char> {
    match op {
        OpModel::Print(text) => text,
        _ => Seq::empty(),
    }
}

/// All the text that `ops` prints, in order.
pub open spec fn printed(ops: Seq<OpModel>) -> Seq<char>
    decreases ops.len(),
{
    if ops.len() == 0 {
        Seq::empty()
    } else {
        printed(ops.drop_last()) + text_of(ops.last())
    }
}

/// The operations of `ops` that print nothing, in order.
pub open spec fn commands(ops: Seq<OpModel>) -> Seq<OpModel>
    decreases ops.len(),
{
    if ops.len() == 0 {
        Seq::empty()
    } else if ops.last() is Print {
        commands(ops.drop_last())
    } else {
        commands(ops.drop_last()).push(ops.last())
    }
}

/// Operations may be absorbed in two parts.
pub proof fn lemma_absorb_concat(acc: Seq<OpModel>, a: Seq<OpModel>, b: Seq<OpModel>)
    ensures
        absorb(acc, a + b) == absorb(absorb(acc, a), b),
    decreases b.len(),
{
    if b.len() > 0 {
        assert((a + b).drop_last() =~= a + b.drop_last());
        lemma_absorb_concat(acc, a, b.drop_last());
    }
}

/// Adding an operation to a joined list leaves it joined.
pub proof fn lemma_emit_joined(acc: Seq<OpModel>, op: OpModel)
    requires
        joined(acc),
    ensures
        joined(emit(acc, op)),
{
}

/// What the interpreter gives back is joined: no text in it is empty, and no
/// text follows other text.
pub proof fn lemma_absorb_joined(acc: Seq<OpModel>, ops: Seq<OpModel>)
    requires
        joined(acc),
    ensures
        joined(absorb(acc, ops)),
    decreases ops.len(),
{
    if ops.len() > 0 {
        lemma_absorb_joined(acc, ops.drop_last());
        lemma_emit_joined(absorb(acc, ops.drop_last()), ops.last());
    }
}

/// Joining changes neither the text that is printed nor the other operations.
pub proof fn lemma_absorb_keeps(acc: Seq<OpModel>, ops: Seq<OpModel>)
    ensures
        printed(absorb(acc, ops)) == printed(acc) + printed(ops),
        commands(absorb(acc, ops)) == commands(acc) + commands(ops),
    decreases ops.len(),
{
    if ops.len() > 0 {
        let before = absorb(acc, ops.drop_last());
        let after = emit(before, ops.last());
        lemma_absorb_keeps(acc, ops.drop_last());
        match ops.last() {
            OpModel::Print(text) => {
                if text.len() > 0 && before.len() > 0 && before.last() is Print {
                    assert(after.drop_last() =~= before.drop_last());
                    assert(printed(after) =~= printed(before) + text);
                } else if text.len() > 0 {
                    assert(after.drop_last() =~= before);
                }
            },
            _ => {
                assert(after.drop_last() =~= before);
            },
        }
    }
}

/// A list that is joined already is left as it is.
pub proof fn lemma_coalesce_joined(ops: Seq<OpModel>)
    requires
        joined(ops),
    ensures
        coalesce(ops) == ops,
    decreases ops.len(),
{
    if ops.len() > 0 {
        let init = ops.drop_last();
        assert(joined(init)) by {
            assert forall|i: int| 0 <= i < init.len() implies init[i] == ops[i] by {}
        }
        lemma_coalesce_joined(init);
    }
}

/// Adds an operation that is not text to `ops`.
pub(crate) fn emit_op(ops: &mut Vec<RenderOp>, op: RenderOp)
    requires
        !(op@ is Print),
    ensures
        ops_model(final(ops)@) == emit(ops_model(old(ops)@), op@),
{
    ops.push(op);
}

/// Adds text to `ops`.
pub(crate) fn emit_text(ops: &mut Vec<RenderOp>, text: &[char])
    ensures
        ops_model(final(ops)@) == emit(ops_model(old(ops)@), OpModel::Print(text@)),
{
    if text.len() == 0 {
        return ;
    }
    match ops.pop() {
        Some(RenderOp::Print(printed)) => {
            let mut joined = printed;
            let ghost first = joined@;
            let mut i: usize = 0;
            while i < text.len()
                invariant
                    i <= text@.len(),
                    joined@ == first + text@.take(i as int),
                decreases text@.len() - i,
            {
                joined.push(text[i]);
                i += 1;
            }
            assert(text@.take(i as int) =~= text@);
            ops.push(RenderOp::Print(joined));
        },
        Some(other) => {
            ops.push(other);
            ops.push(RenderOp::Print(to_string(text)));
        },
        None => {
            ops.push(RenderOp::Print(to_string(text)));
        },
    }
}

} // verus!
