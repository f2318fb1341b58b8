//! What a screen draws in one frame: a list of drawing operations in
//! painting order, which the display driver paints onto its framebuffer.

use vstd::prelude::*;

use crate::theme::Color;

verus! {

/// One drawing operation. Coordinates are pixels from the top-left corner
/// of the display; text is drawn in the UI font with its top at `y`.
#[derive(Debug)]
pub enum DrawOp {
    /// The whole display filled with one colour.
    Clear { color: Color },
    /// A filled rectangle.
    Fill { x: i32, y: i32, w: u32, h: u32, color: Color },
    /// A line of text.
    Text { x: i32, y: i32, text: String, color: Color },
    /// The WiFi signal icon (13×9 px box at `x`, `y`), `level` arcs lit
    /// (one to four).
    WifiIcon { x: i32, y: i32, level: u8, color: Color },
    /// The LoRa antenna icon (5×9 px box at `x`, `y`), struck through when
    /// the radio is offline.
    LoraIcon { x: i32, y: i32, online: bool, color: Color },
    /// A scrollbar thumb on the right edge of the viewport `x`, `y`, `w`,
    /// `h` for a list of `total` rows scrolled down by `offset` rows.
    Scrollbar { x: i32, y: i32, w: u32, h: u32, offset: usize, total: usize, color: Color },
}

/// Abstract value of a [`DrawOp`]: the same operation with its text taken
/// as characters.
pub enum Op {
    Clear { color: Color },
    Fill { x: i32, y: i32, w: u32, h: u32, color: Color },
    Text { x: i32, y: i32, text: Seq<char>, color: Color },
    WifiIcon { x: i32, y: i32, level: u8, color: Color },
    LoraIcon { x: i32, y: i32, online: bool, color: Color },
    Scrollbar { x: i32, y: i32, w: u32, h: u32, offset: usize, total: usize, color: Color },
}

impl View for DrawOp {
    type V = Op;

    open spec fn view(&self) -> Op {
        match self {
            DrawOp::Clear { color } => Op::Clear { color: *color },
            DrawOp::Fill { x, y, w, h, color } => Op::Fill {
                x: *x,
                y: *y,
                w: *w,
                h: *h,
                color: *color,
            },
            DrawOp::Text { x, y, text, color } => Op::Text {
                x: *x,
                y: *y,
                text: text@,
                color: *color,
            },
            DrawOp::WifiIcon { x, y, level, color } => Op::WifiIcon {
                x: *x,
                y: *y,
                level: *level,
                color: *color,
            },
            DrawOp::LoraIcon { x, y, online, color } => Op::LoraIcon {
                x: *x,
                y: *y,
                online: *online,
                color: *color,
            },
            DrawOp::Scrollbar { x, y, w, h, offset, total, color } => Op::Scrollbar {
                x: *x,
                y: *y,
                w: *w,
                h: *h,
                offset: *offset,
                total: *total,
                color: *color,
            },
        }
    }
}

/// The operations of `v`, each by its abstract value.
pub open spec fn ops_view(v: Seq<DrawOp>) -> Seq<Op> {
    v.map_values(|o: DrawOp| o@)
}

/// Appending an operation appends its abstract value.
pub proof fn lemma_ops_push(v: Seq<DrawOp>, o: DrawOp)
    ensures
        ops_view(v.push(o)) == ops_view(v).push(o@),
{
    assert(ops_view(v.push(o)) =~= ops_view(v).push(o@));
}

/// Append `o` to the frame.
pub fn push_op(ops: &mut Vec<DrawOp>, o: DrawOp)
    ensures
        ops_view(final(ops)@) == ops_view(old(ops)@).push(o@),
{
    proof {
        lemma_ops_push(old(ops)@, o);
    }
    ops.push(o);
}

} // verus!
