//! The block map: packing the blocks of one snapshot into a viewport.
//!
//! Blocks are laid out left to right in rows of [`ROW_HEIGHT`] cells. Each
//! block asks for a width proportional to its share of the snapshot's total
//! size, scaled by [`ZOOM`] and never below [`MIN_BLOCK_WIDTH`]. A block that
//! would cross the right edge starts a new row; a row that would cross the
//! bottom edge ends the layout; a block wider than the room left in its row
//! is cut at the right edge.

use vstd::prelude::*;
use vstd::arithmetic::div_mod::lemma_fundamental_div_mod_converse;
use crate::data::MemoryBlock;
use crate::geometry::{Rect, RectView};
use crate::layout_lemmas::{
    lemma_layout_fills_rows, lemma_layout_keeps_order, lemma_layout_widths,
    lemma_layout_within_viewport,
};

verus! {

/// Height of one row of blocks: a content line between two border lines.
pub const ROW_HEIGHT: u16 = 3;

/// The least width a block asks for: room for a short label inside a border.
pub const MIN_BLOCK_WIDTH: u16 = 4;

/// How many viewport widths the whole snapshot is spread over.
pub const ZOOM: u16 = 2;

/// The cells assigned to one block.
#[derive(Clone, Copy, Debug, PartialEq, Eq, Structural)]
pub struct Placement {
    pub block: MemoryBlock,
    pub rect: Rect,
    pub highlighted: bool,
}

/// The model of a [`Placement`], with its rectangle over the integers.
pub struct PlacementView {
    pub block: MemoryBlock,
    pub rect: RectView,
    pub highlighted: bool,
}

impl Placement {
    /// The rectangle is one row of cells whose edges are representable.
    pub open spec fn wf(self) -> bool {
        self.rect.wf() && self.rect.height == ROW_HEIGHT
    }

    /// The cells for the size label: the content line without the border
    /// columns, for a block wider than the least width; none for others.
    pub fn label_area(&self) -> (area: Option<Rect>)
        requires
            self.wf(),
        ensures
            area.is_some() == (self.rect.width > MIN_BLOCK_WIDTH),
            area matches Some(label) ==> label.wf() && label@ == (RectView {
                x: self.rect.x + 1,
                y: self.rect.y + 1,
                width: self.rect.width - 2,
                height: 1,
            }),
    {
        if self.rect.width > MIN_BLOCK_WIDTH {
            Some(
                Rect {
                    x: self.rect.x + 1,
                    y: self.rect.y + 1,
                    width: self.rect.width - 2,
                    height: 1,
                },
            )
        } else {
            None
        }
    }
}

impl View for Placement {
    type V = PlacementView;

    open spec fn view(&self) -> PlacementView {
        PlacementView { block: self.block, rect: self.rect@, highlighted: self.highlighted }
    }
}

/// The models of a sequence of placements, in order.
pub open spec fn views(placements: Seq<Placement>) -> Seq<PlacementView> {
    placements.map_values(|p: Placement| p@)
}

/// The sum of the sizes of `blocks`.
pub open spec fn total_size(blocks: Seq<MemoryBlock>) -> int
    decreases blocks.len(),
{
    if blocks.len() == 0 {
        0
    } else {
        total_size(blocks.drop_last()) + blocks.last().size
    }
}

/// The integer nearest to `ZOOM * viewport_width * size / total`, the upper
/// one where two are equally near.
pub open spec fn scaled_width(size: int, total: int, viewport_width: int) -> int {
    (2 * (ZOOM * size * viewport_width) + total) / (2 * total)
}

/// The width a block asks for before the viewport's edges are considered.
pub open spec fn block_width(size: int, total: int, viewport_width: int) -> int {
    let scaled = scaled_width(size, total, viewport_width);
    if scaled < MIN_BLOCK_WIDTH {
        MIN_BLOCK_WIDTH as int
    } else {
        scaled
    }
}

/// The top-left cell of the next block to be placed.
pub struct Cursor {
    pub x: int,
    pub y: int,
}

/// Where a block asking for `width` cells starts: at the cursor if it ends
/// at or before the right edge, else at the start of the next row.
pub open spec fn seat(cursor: Cursor, width: int, viewport: RectView) -> Cursor {
    if cursor.x + width > viewport.right() {
        Cursor { x: viewport.x, y: cursor.y + ROW_HEIGHT }
    } else {
        cursor
    }
}

/// A row starting at the cursor ends at or above the bottom edge.
pub open spec fn row_fits(cursor: Cursor, viewport: RectView) -> bool {
    cursor.y + ROW_HEIGHT <= viewport.bottom()
}

/// The width given to a block seated at `cursor`: what it asks for, cut at
/// the right edge.
pub open spec fn cut_width(cursor: Cursor, width: int, viewport: RectView) -> int {
    let room = viewport.right() - cursor.x;
    if width < room {
        width
    } else {
        room
    }
}

/// The placements of `blocks[start..]` with the cursor at `cursor`, where
/// `total` is the size all widths are scaled by.
pub open spec fn layout_from(
    blocks: Seq<MemoryBlock>,
    start: int,
    cursor: Cursor,
    total: int,
    viewport: RectView,
    highlight: usize,
) -> Seq<PlacementView>
    decreases blocks.len() - start,
{
    if start < 0 || start >= blocks.len() {
        Seq::empty()
    } else {
        let block = blocks[start];
        let asked = block_width(block.size as int, total, viewport.width);
        let at = seat(cursor, asked, viewport);
        if !row_fits(at, viewport) {
            Seq::empty()
        } else {
            let width = cut_width(at, asked, viewport);
            let placed = PlacementView {
                block,
                rect: RectView { x: at.x, y: at.y, width, height: ROW_HEIGHT as int },
                highlighted: block.addr == highlight,
            };
            seq![placed] + layout_from(
                blocks,
                start + 1,
                Cursor { x: at.x + width, y: at.y },
                total,
                viewport,
                highlight,
            )
        }
    }
}

/// The block map of a snapshot: nothing if the blocks have no size in total,
/// else the placements of all blocks starting at the viewport's top-left
/// cell.
pub open spec fn layout_spec(blocks: Seq<MemoryBlock>, viewport: RectView, highlight: usize) -> Seq<
    PlacementView,
> {
    let total = total_size(blocks);
    if total == 0 {
        Seq::empty()
    } else {
        layout_from(
            blocks,
            0,
            Cursor { x: viewport.x, y: viewport.y },
            total,
            viewport,
            highlight,
        )
    }
}

/// `first` comes before `second` when reading row by row, left to right,
/// and the two do not overlap.
pub open spec fn precedes(first: RectView, second: RectView) -> bool {
    first.y < second.y || (first.y == second.y && first.right() <= second.x)
}

/// Every placement comes before all later ones.
pub open spec fn reading_order(placements: Seq<PlacementView>) -> bool {
    forall|i: int, j: int|
        0 <= i < j < placements.len() ==> precedes(
            (#[trigger] placements[i]).rect,
            (#[trigger] placements[j]).rect,
        )
}

/// `second` starts where `first` ends, or at the start of the row below.
pub open spec fn adjoins(first: RectView, second: RectView, viewport: RectView) -> bool {
    ||| second.y == first.y && second.x == first.right()
    ||| second.y == first.y + ROW_HEIGHT && second.x == viewport.x
}

/// Each placement but the first adjoins the one before it.
pub open spec fn gapless(placements: Seq<PlacementView>, viewport: RectView) -> bool {
    forall|k: int|
        0 < k < placements.len() ==> adjoins(
            placements[k - 1].rect,
            (#[trigger] placements[k]).rect,
            viewport,
        )
}

/// The placements are those of the first blocks, one for one and in order.
pub open spec fn follows_blocks(
    placements: Seq<PlacementView>,
    blocks: Seq<MemoryBlock>,
    highlight: usize,
) -> bool {
    &&& placements.len() <= blocks.len()
    &&& forall|k: int|
        0 <= k < placements.len() ==> (#[trigger] placements[k]).block == blocks[k]
            && placements[k].highlighted == (blocks[k].addr == highlight)
}

/// The total size of a prefix grows by the size of the block appended.
pub proof fn lemma_total_size_step(blocks: Seq<MemoryBlock>, i: int)
    requires
        0 <= i < blocks.len(),
    ensures
        total_size(blocks.take(i + 1)) == total_size(blocks.take(i)) + blocks[i].size,
{
    assert(blocks.take(i + 1).drop_last() =~= blocks.take(i));
}

/// Adds up the sizes of `blocks`.
pub fn sum_sizes(blocks: &[MemoryBlock]) -> (total: u128)
    ensures
        total == total_size(blocks@),
{
    let mut total: u128 = 0;
    let mut i: usize = 0;
    while i < blocks.len()
        invariant
            i <= blocks.len(),
            total == total_size(blocks@.take(i as int)),
            total <= i * usize::MAX,
        decreases blocks.len() - i,
    {
        proof {
            lemma_total_size_step(blocks@, i as int);
            assert((i + 1) * usize::MAX <= 0xffff_ffff_ffff_ffff * 0xffff_ffff_ffff_ffff)
                by (nonlinear_arith)
                requires
                    0 <= i + 1 <= 0xffff_ffff_ffff_ffff,
                    0 <= usize::MAX <= 0xffff_ffff_ffff_ffff,
            ;
            assert((i + 1) * usize::MAX == i * usize::MAX + usize::MAX) by (nonlinear_arith);
        }
        total = total + blocks[i].size as u128;
        i = i + 1;
    }
    assert(blocks@.take(blocks.len() as int) =~= blocks@);
    total
}

/// Computes the width a block of `size` asks for in a viewport of
/// `viewport_width` columns, when all blocks together have size `total`.
pub fn measure(size: usize, total: u128, viewport_width: u16) -> (asked: u128)
    requires
        total > 0,
    ensures
        asked == block_width(size as int, total as int, viewport_width as int),
{
    assert(ZOOM * viewport_width == 2 * viewport_width) by (nonlinear_arith)
        requires
            ZOOM == 2,
    ;
    let spread: u128 = ZOOM as u128 * viewport_width as u128;
    assert(spread * size <= 0x2_0000 * 0xffff_ffff_ffff_ffff) by (nonlinear_arith)
        requires
            spread == 2 * viewport_width,
            0 <= viewport_width <= 0xffff,
            0 <= size <= 0xffff_ffff_ffff_ffff,
    ;
    let share: u128 = spread * size as u128;
    let floor: u128 = share / total;
    let rest: u128 = share % total;
    let scaled: u128 = if rest >= total - rest {
        floor + 1
    } else {
        floor
    };
    proof {
        let n: int = ZOOM * size * viewport_width;
        assert(n == share) by (nonlinear_arith)
            requires
                n == ZOOM * size * viewport_width,
                share == spread * size,
                spread == ZOOM * viewport_width,
        ;
        assert(share == total * floor + rest) by {
            vstd::arithmetic::div_mod::lemma_fundamental_div_mod(share as int, total as int);
        }
        if rest >= total - rest {
            assert(2 * n + total == (floor + 1) * (2 * total) + (2 * rest - total))
                by (nonlinear_arith)
                requires
                    n == total * floor + rest,
            ;
            lemma_fundamental_div_mod_converse(
                2 * n + total,
                2 * total as int,
                floor + 1,
                2 * rest - total,
            );
        } else {
            assert(2 * n + total == floor * (2 * total) + (2 * rest + total)) by (nonlinear_arith)
                requires
                    n == total * floor + rest,
            ;
            lemma_fundamental_div_mod_converse(
                2 * n + total,
                2 * total as int,
                floor as int,
                2 * rest + total,
            );
        }
        assert(scaled == scaled_width(size as int, total as int, viewport_width as int));
    }
    if scaled < MIN_BLOCK_WIDTH as u128 {
        MIN_BLOCK_WIDTH as u128
    } else {
        scaled
    }
}

/// Lays the blocks of one snapshot out in `viewport`.
///
/// The blocks are placed in the order given. The result holds one placement
/// for each block of the longest prefix whose rows fit above the bottom
/// edge; the blocks after it are left out.
pub fn layout(blocks: &[MemoryBlock], viewport: Rect, highlight: usize) -> (placements: Vec<
    Placement,
>)
    requires
        viewport.wf(),
    ensures
        views(placements@) == layout_spec(blocks@, viewport@, highlight),
        total_size(blocks@) == 0 ==> placements.len() == 0,
        follows_blocks(views(placements@), blocks@, highlight),
        reading_order(views(placements@)),
        gapless(views(placements@), viewport@),
        forall|k: int|
            0 <= k < placements.len() ==> {
                let rect = (#[trigger] placements[k]).rect;
                &&& placements[k].wf()
                &&& viewport@.encloses(rect@)
                &&& rect.height == ROW_HEIGHT
                &&& rect.width <= viewport.width
                &&& viewport.width >= MIN_BLOCK_WIDTH ==> rect.width >= MIN_BLOCK_WIDTH
            },
{
    proof {
        lemma_layout_within_viewport(blocks@, viewport@, highlight);
        lemma_layout_keeps_order(blocks@, viewport@, highlight);
        lemma_layout_widths(blocks@, viewport@, highlight);
        lemma_layout_fills_rows(blocks@, viewport@, highlight);
    }
    let mut placements: Vec<Placement> = Vec::new();
    let total: u128 = sum_sizes(blocks);
    if total == 0 {
        assert(views(placements@) =~= layout_spec(blocks@, viewport@, highlight));
        return placements;
    }
    let right: u16 = viewport.right();
    let bottom: u16 = viewport.bottom();
    let mut x: u16 = viewport.x;
    let mut y: u32 = viewport.y as u32;
    let mut i: usize = 0;
    while i < blocks.len()
        invariant
            viewport.wf(),
            total > 0,
            total == total_size(blocks@),
            right == viewport@.right(),
            bottom == viewport@.bottom(),
            i <= blocks.len(),
            viewport.x <= x <= right,
            y <= u16::MAX,
            layout_spec(blocks@, viewport@, highlight) == views(placements@) + layout_from(
                blocks@,
                i as int,
                Cursor { x: x as int, y: y as int },
                total as int,
                viewport@,
                highlight,
            ),
        ensures
            views(placements@) == layout_spec(blocks@, viewport@, highlight),
        decreases blocks.len() - i,
    {
        let block: MemoryBlock = blocks[i];
        let asked: u128 = measure(block.size, total, viewport.width);
        let wraps: bool = asked > (right - x) as u128;
        let at_x: u16 = if wraps { viewport.x } else { x };
        let at_y: u32 = if wraps { y + ROW_HEIGHT as u32 } else { y };
        let ghost before = Cursor { x: x as int, y: y as int };
        let ghost at = Cursor { x: at_x as int, y: at_y as int };
        assert(at == seat(before, asked as int, viewport@));
        if at_y + ROW_HEIGHT as u32 > bottom as u32 {
            assert(!row_fits(at, viewport@));
            assert(views(placements@) + Seq::<PlacementView>::empty() =~= views(placements@));
            break;
        }
        let room: u16 = right - at_x;
        let width: u16 = if asked < room as u128 { asked as u16 } else { room };
        assert(width == cut_width(at, asked as int, viewport@));
        let placed = Placement {
            block,
            rect: Rect { x: at_x, y: at_y as u16, width, height: ROW_HEIGHT },
            highlighted: block.addr == highlight,
        };
        let ghost rest = layout_from(
            blocks@,
            i + 1,
            Cursor { x: at_x + width, y: at_y as int },
            total as int,
            viewport@,
            highlight,
        );
        assert(layout_from(blocks@, i as int, before, total as int, viewport@, highlight)
            == seq![placed@] + rest);
        assert(views(placements@.push(placed)) =~= views(placements@) + seq![placed@]);
        assert(views(placements@) + (seq![placed@] + rest) =~= (views(placements@) + seq![placed@])
            + rest);
        placements.push(placed);
        x = at_x + width;
        y = at_y;
        i = i + 1;
    }
    assert forall|k: int| 0 <= k < placements.len() implies {
        let rect = (#[trigger] placements[k]).rect;
        &&& placements[k].wf()
        &&& viewport@.encloses(rect@)
        &&& rect.height == ROW_HEIGHT
        &&& rect.width <= viewport.width
        &&& viewport.width >= MIN_BLOCK_WIDTH ==> rect.width >= MIN_BLOCK_WIDTH
    } by {
        assert(views(placements@)[k] == placements[k]@);
    }
    placements
}

} // verus!
