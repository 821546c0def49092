//! The memory-map panel: a bordered box with the block map inside.

use vstd::prelude::*;
use crate::data::HeapStep;
use crate::geometry::{Rect, RectView};
use crate::layout::{
    follows_blocks, gapless, layout, layout_spec, reading_order, views, Placement,
    MIN_BLOCK_WIDTH, ROW_HEIGHT,
};

verus! {

/// What a one-cell border on all four sides leaves of `area`.
///
/// The top-left corner moves one cell in, but not past the old right or
/// bottom edge nor past the last cell coordinate; width and height shrink
/// by two, but not below zero.
pub open spec fn bordered_inner(area: RectView) -> RectView {
    let x = if area.x + 1 <= area.right() {
        area.x + 1
    } else {
        area.right()
    };
    let y = if area.y + 1 <= area.bottom() {
        area.y + 1
    } else {
        area.bottom()
    };
    RectView {
        x: if x <= u16::MAX { x } else { u16::MAX as int },
        y: if y <= u16::MAX { y } else { u16::MAX as int },
        width: if area.width >= 2 { area.width - 2 } else { 0 },
        height: if area.height >= 2 { area.height - 2 } else { 0 },
    }
}

/// Asks the terminal library for the inner area of a block with all four
/// borders, no padding and no title, drawn over `area`.
///
/// Trusted: this is `ratatui::widgets::Block::bordered().inner(area)`. For
/// such a block the library moves `x` and `y` one cell in with saturating
/// addition, bounded by the saturating right and bottom edge of `area`, and
/// takes one cell off width and height twice with saturating subtraction,
/// which is what [`bordered_inner`] says.
#[verifier::external_body]
fn block_inner(area: Rect) -> (inner: Rect)
    ensures
        inner@ == bordered_inner(area@),
{
    let outer = ratatui::layout::Rect {
        x: area.x,
        y: area.y,
        width: area.width,
        height: area.height,
    };
    let inner = ratatui::widgets::Block::bordered().inner(outer);
    Rect { x: inner.x, y: inner.y, width: inner.width, height: inner.height }
}

/// The inside of a bordered area lies within the area.
pub proof fn lemma_bordered_inner_within(area: RectView)
    requires
        area.valid(),
        0 <= area.x,
        0 <= area.y,
        area.right() <= u16::MAX,
        area.bottom() <= u16::MAX,
    ensures
        bordered_inner(area).valid(),
        area.encloses(bordered_inner(area)),
{
}

/// The cells inside the border of a panel drawn over `area`.
pub fn panel_viewport(area: Rect) -> (viewport: Rect)
    ensures
        viewport@ == bordered_inner(area@),
        area.wf() ==> viewport.wf() && area@.encloses(viewport@),
{
    proof {
        if area.wf() {
            lemma_bordered_inner_within(area@);
        }
    }
    block_inner(area)
}

/// Lays out the blocks of `step` inside the border of a panel drawn over
/// `area`, with the block at the step's highlighted address marked.
pub fn memory_map(step: &HeapStep, area: Rect) -> (placements: Vec<Placement>)
    requires
        area.wf(),
    ensures
        views(placements@) == layout_spec(step.blocks@, bordered_inner(area@), step.highlight),
        follows_blocks(views(placements@), step.blocks@, step.highlight),
        reading_order(views(placements@)),
        gapless(views(placements@), bordered_inner(area@)),
        forall|k: int|
            0 <= k < placements.len() ==> {
                let rect = (#[trigger] placements[k]).rect;
                &&& placements[k].wf()
                &&& bordered_inner(area@).encloses(rect@)
                &&& area@.encloses(rect@)
                &&& rect.height == ROW_HEIGHT
                &&& area.width >= MIN_BLOCK_WIDTH + 2 ==> rect.width >= MIN_BLOCK_WIDTH
            },
{
    let viewport: Rect = panel_viewport(area);
    layout(step.blocks.as_slice(), viewport, step.highlight)
}

} // verus!
