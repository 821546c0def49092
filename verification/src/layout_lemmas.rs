//! What holds of every block map.

use vstd::prelude::*;
use vstd::arithmetic::div_mod::lemma_fundamental_div_mod;
use crate::data::MemoryBlock;
use crate::geometry::RectView;
use crate::layout::{
    adjoins, block_width, cut_width, follows_blocks, gapless, layout_from, layout_spec, precedes,
    reading_order, row_fits, scaled_width, seat, total_size, views, Cursor, Placement,
    PlacementView, MIN_BLOCK_WIDTH, ROW_HEIGHT, ZOOM,
};

verus! {

/// `rect` starts at or after the cursor in reading order.
spec fn at_or_after(cursor: Cursor, rect: RectView) -> bool {
    rect.y > cursor.y || (rect.y == cursor.y && rect.x >= cursor.x)
}

/// What holds of one placement among those made from `start` on with the
/// cursor at `cursor`.
spec fn placed_well(
    placed: PlacementView,
    block: MemoryBlock,
    cursor: Cursor,
    viewport: RectView,
    highlight: usize,
) -> bool {
    &&& placed.block == block
    &&& placed.highlighted == (block.addr == highlight)
    &&& viewport.encloses(placed.rect)
    &&& placed.rect.height == ROW_HEIGHT
    &&& 0 <= placed.rect.width <= viewport.width
    &&& viewport.width >= MIN_BLOCK_WIDTH ==> placed.rect.width >= MIN_BLOCK_WIDTH
    &&& at_or_after(cursor, placed.rect)
}

proof fn lemma_layout_from(
    blocks: Seq<MemoryBlock>,
    start: int,
    cursor: Cursor,
    total: int,
    viewport: RectView,
    highlight: usize,
)
    requires
        viewport.valid(),
        0 <= start <= blocks.len(),
        viewport.x <= cursor.x <= viewport.right(),
        viewport.y <= cursor.y,
    ensures
        ({
            let placements = layout_from(blocks, start, cursor, total, viewport, highlight);
            &&& placements.len() <= blocks.len() - start
            &&& forall|k: int|
                0 <= k < placements.len() ==> placed_well(
                    #[trigger] placements[k],
                    blocks[start + k],
                    cursor,
                    viewport,
                    highlight,
                )
            &&& reading_order(placements)
        }),
    decreases blocks.len() - start,
{
    if start < blocks.len() {
        let block = blocks[start];
        let asked = block_width(block.size as int, total, viewport.width);
        let at = seat(cursor, asked, viewport);
        if row_fits(at, viewport) {
            let width = cut_width(at, asked, viewport);
            let next = Cursor { x: at.x + width, y: at.y };
            let rest = layout_from(blocks, start + 1, next, total, viewport, highlight);
            let placements = layout_from(blocks, start, cursor, total, viewport, highlight);
            lemma_layout_from(blocks, start + 1, next, total, viewport, highlight);
            assert(placed_well(placements[0], block, cursor, viewport, highlight));
            assert forall|k: int| 0 <= k < placements.len() implies placed_well(
                #[trigger] placements[k],
                blocks[start + k],
                cursor,
                viewport,
                highlight,
            ) by {
                if k > 0 {
                    assert(placements[k] == rest[k - 1]);
                    assert(placed_well(rest[k - 1], blocks[start + 1 + (k - 1)], next, viewport, highlight));
                }
            }
            assert forall|i: int, j: int| 0 <= i < j < placements.len() implies precedes(
                (#[trigger] placements[i]).rect,
                (#[trigger] placements[j]).rect,
            ) by {
                assert(placements[j] == rest[j - 1]);
                assert(placed_well(rest[j - 1], blocks[start + 1 + (j - 1)], next, viewport, highlight));
                if i > 0 {
                    assert(placements[i] == rest[i - 1]);
                }
            }
        }
    }
}

/// The row of the last of `placements`, or of the cursor where there is
/// none.
spec fn last_row(placements: Seq<PlacementView>, cursor: Cursor) -> int {
    if placements.len() > 0 {
        placements.last().rect.y
    } else {
        cursor.y
    }
}

proof fn lemma_layout_from_rows(
    blocks: Seq<MemoryBlock>,
    start: int,
    cursor: Cursor,
    total: int,
    viewport: RectView,
    highlight: usize,
)
    requires
        0 <= start <= blocks.len(),
    ensures
        ({
            let placements = layout_from(blocks, start, cursor, total, viewport, highlight);
            &&& placements.len() <= blocks.len() - start
            &&& placements.len() > 0 ==> {
                let at = seat(
                    cursor,
                    block_width(blocks[start].size as int, total, viewport.width),
                    viewport,
                );
                placements[0].rect.x == at.x && placements[0].rect.y == at.y
            }
            &&& gapless(placements, viewport)
            &&& placements.len() < blocks.len() - start ==> last_row(placements, cursor) + 2
                * ROW_HEIGHT > viewport.bottom()
        }),
    decreases blocks.len() - start,
{
    if start < blocks.len() {
        let block = blocks[start];
        let asked = block_width(block.size as int, total, viewport.width);
        let at = seat(cursor, asked, viewport);
        if row_fits(at, viewport) {
            let width = cut_width(at, asked, viewport);
            let next = Cursor { x: at.x + width, y: at.y };
            let rest = layout_from(blocks, start + 1, next, total, viewport, highlight);
            let placements = layout_from(blocks, start, cursor, total, viewport, highlight);
            lemma_layout_from_rows(blocks, start + 1, next, total, viewport, highlight);
            assert forall|k: int| 0 < k < placements.len() implies adjoins(
                placements[k - 1].rect,
                (#[trigger] placements[k]).rect,
                viewport,
            ) by {
                assert(placements[k] == rest[k - 1]);
                if k > 1 {
                    assert(placements[k - 1] == rest[k - 2]);
                }
            }
            if rest.len() > 0 {
                assert(placements.last() == rest.last());
            }
        }
    }
}

/// No size is negative, so neither is a total, and no block is larger than
/// the total of the blocks it is among.
pub proof fn lemma_total_size_bounds(blocks: Seq<MemoryBlock>)
    ensures
        0 <= total_size(blocks),
        forall|i: int| 0 <= i < blocks.len() ==> (#[trigger] blocks[i]).size <= total_size(blocks),
    decreases blocks.len(),
{
    if blocks.len() > 0 {
        lemma_total_size_bounds(blocks.drop_last());
        assert forall|i: int| 0 <= i < blocks.len() implies (#[trigger] blocks[i]).size
            <= total_size(blocks) by {
            if i < blocks.len() - 1 {
                assert(blocks[i] == blocks.drop_last()[i]);
            }
        }
    }
}

/// The total is zero exactly when every block has size zero.
pub proof fn lemma_total_size_zero(blocks: Seq<MemoryBlock>)
    ensures
        total_size(blocks) == 0 <==> forall|i: int|
            0 <= i < blocks.len() ==> (#[trigger] blocks[i]).size == 0,
{
    lemma_total_size_bounds(blocks);
    if forall|i: int| 0 <= i < blocks.len() ==> (#[trigger] blocks[i]).size == 0 {
        lemma_total_size_of_empty_blocks(blocks);
    }
}

proof fn lemma_total_size_of_empty_blocks(blocks: Seq<MemoryBlock>)
    requires
        forall|i: int| 0 <= i < blocks.len() ==> (#[trigger] blocks[i]).size == 0,
    ensures
        total_size(blocks) == 0,
    decreases blocks.len(),
{
    if blocks.len() > 0 {
        assert forall|i: int| 0 <= i < blocks.drop_last().len() implies (
        #[trigger] blocks.drop_last()[i]).size == 0 by {
            assert(blocks.drop_last()[i] == blocks[i]);
        }
        lemma_total_size_of_empty_blocks(blocks.drop_last());
        assert(blocks.last() == blocks[blocks.len() - 1]);
    }
}

/// The scaled width is the nearest integer to the exact quotient
/// `ZOOM * viewport_width * size / total`: it differs from it by at most
/// one half, and by less where it lies below it.
pub proof fn lemma_scaled_width_nearest(size: int, total: int, viewport_width: int)
    requires
        total > 0,
    ensures
        ({
            let exact_times_total = ZOOM * size * viewport_width;
            let scaled = scaled_width(size, total, viewport_width);
            -total <= 2 * (exact_times_total - scaled * total) < total
        }),
{
    let n = ZOOM * size * viewport_width;
    let scaled = scaled_width(size, total, viewport_width);
    lemma_fundamental_div_mod(2 * n + total, 2 * total);
    let rest = (2 * n + total) % (2 * total);
    assert(0 <= rest < 2 * total) by {
        vstd::arithmetic::div_mod::lemma_mod_bound(2 * n + total, 2 * total);
    }
    assert((2 * total) * scaled == 2 * (scaled * total)) by (nonlinear_arith);
}

/// A block that makes up the whole total asks for `ZOOM` viewport widths, or
/// the least width if that is more.
pub proof fn lemma_whole_total_width(total: int, viewport_width: int)
    requires
        total > 0,
        viewport_width >= 0,
    ensures
        scaled_width(total, total, viewport_width) == ZOOM * viewport_width,
{
    let n = ZOOM * total * viewport_width;
    assert(2 * n + total == (ZOOM * viewport_width) * (2 * total) + total) by (nonlinear_arith)
        requires
            n == ZOOM * total * viewport_width,
    ;
    vstd::arithmetic::div_mod::lemma_fundamental_div_mod_converse(
        2 * n + total,
        2 * total,
        ZOOM * viewport_width,
        total,
    );
}

/// A block of size zero asks for the least width.
pub proof fn lemma_empty_block_width(total: int, viewport_width: int)
    requires
        total > 0,
    ensures
        block_width(0, total, viewport_width) == MIN_BLOCK_WIDTH,
{
    assert(ZOOM * 0 * viewport_width == 0) by (nonlinear_arith);
    vstd::arithmetic::div_mod::lemma_fundamental_div_mod_converse(total, 2 * total, 0, total);
}

/// Every rectangle of a block map lies inside the viewport.
pub proof fn lemma_layout_within_viewport(
    blocks: Seq<MemoryBlock>,
    viewport: RectView,
    highlight: usize,
)
    requires
        viewport.valid(),
    ensures
        forall|k: int|
            0 <= k < layout_spec(blocks, viewport, highlight).len() ==> viewport.encloses(
                (#[trigger] layout_spec(blocks, viewport, highlight)[k]).rect,
            ),
{
    let placements = layout_spec(blocks, viewport, highlight);
    let origin = Cursor { x: viewport.x, y: viewport.y };
    lemma_layout_from(blocks, 0, origin, total_size(blocks), viewport, highlight);
    assert forall|k: int| 0 <= k < placements.len() implies viewport.encloses(
        (#[trigger] placements[k]).rect,
    ) by {
        assert(placed_well(placements[k], blocks[0 + k], origin, viewport, highlight));
    }
}

/// A block map keeps the order of the blocks: its placements are those of
/// the first blocks, one each, none left out before the last one placed,
/// and each placement comes before all later ones, row by row and left to
/// right within a row.
pub proof fn lemma_layout_keeps_order(
    blocks: Seq<MemoryBlock>,
    viewport: RectView,
    highlight: usize,
)
    requires
        viewport.valid(),
    ensures
        follows_blocks(layout_spec(blocks, viewport, highlight), blocks, highlight),
        reading_order(layout_spec(blocks, viewport, highlight)),
{
    let placements = layout_spec(blocks, viewport, highlight);
    let origin = Cursor { x: viewport.x, y: viewport.y };
    lemma_layout_from(blocks, 0, origin, total_size(blocks), viewport, highlight);
    assert forall|k: int| 0 <= k < placements.len() implies (#[trigger] placements[k]).block
        == blocks[k] && placements[k].highlighted == (blocks[k].addr == highlight) by {
        assert(placed_well(placements[k], blocks[0 + k], origin, viewport, highlight));
    }
}

/// A block map fills its rows without gaps: the first placement starts in
/// the viewport's first column, in the first row or, where the first block
/// asks for more than the viewport's width, in the second; every other one
/// starts where the one before it ends, or in the first column of the row
/// below.
pub proof fn lemma_layout_fills_rows(blocks: Seq<MemoryBlock>, viewport: RectView, highlight: usize)
    ensures
        gapless(layout_spec(blocks, viewport, highlight), viewport),
        layout_spec(blocks, viewport, highlight).len() > 0 ==> {
            let first = layout_spec(blocks, viewport, highlight)[0].rect;
            let asked = block_width(blocks[0].size as int, total_size(blocks), viewport.width);
            &&& first.x == viewport.x
            &&& first.y == if asked > viewport.width {
                viewport.y + ROW_HEIGHT
            } else {
                viewport.y
            }
        },
{
    let origin = Cursor { x: viewport.x, y: viewport.y };
    lemma_layout_from_rows(blocks, 0, origin, total_size(blocks), viewport, highlight);
}

/// Blocks are left out only for want of rows: where blocks of a positive
/// total size are not all placed, no further row fits below the last one
/// used, or below the first row where none is used.
pub proof fn lemma_layout_leaves_out_only_below(
    blocks: Seq<MemoryBlock>,
    viewport: RectView,
    highlight: usize,
)
    requires
        total_size(blocks) != 0,
        layout_spec(blocks, viewport, highlight).len() < blocks.len(),
    ensures
        ({
            let placements = layout_spec(blocks, viewport, highlight);
            let row = if placements.len() > 0 {
                placements.last().rect.y
            } else {
                viewport.y
            };
            row + 2 * ROW_HEIGHT > viewport.bottom()
        }),
{
    let origin = Cursor { x: viewport.x, y: viewport.y };
    lemma_layout_from_rows(blocks, 0, origin, total_size(blocks), viewport, highlight);
}

/// Every rectangle of a block map is one row high and no wider than the
/// viewport; in a viewport of at least the least block width, none is
/// narrower than that.
pub proof fn lemma_layout_widths(blocks: Seq<MemoryBlock>, viewport: RectView, highlight: usize)
    requires
        viewport.valid(),
    ensures
        forall|k: int|
            0 <= k < layout_spec(blocks, viewport, highlight).len() ==> {
                let rect = (#[trigger] layout_spec(blocks, viewport, highlight)[k]).rect;
                &&& rect.height == ROW_HEIGHT
                &&& 0 <= rect.width <= viewport.width
                &&& viewport.width >= MIN_BLOCK_WIDTH ==> rect.width >= MIN_BLOCK_WIDTH
            },
{
    let placements = layout_spec(blocks, viewport, highlight);
    let origin = Cursor { x: viewport.x, y: viewport.y };
    lemma_layout_from(blocks, 0, origin, total_size(blocks), viewport, highlight);
    assert forall|k: int| 0 <= k < placements.len() implies {
        let rect = (#[trigger] placements[k]).rect;
        &&& rect.height == ROW_HEIGHT
        &&& 0 <= rect.width <= viewport.width
        &&& viewport.width >= MIN_BLOCK_WIDTH ==> rect.width >= MIN_BLOCK_WIDTH
    } by {
        assert(placed_well(placements[k], blocks[0 + k], origin, viewport, highlight));
    }
}

/// Blocks without any size give an empty block map, however many they are.
pub proof fn lemma_layout_of_empty_blocks(
    blocks: Seq<MemoryBlock>,
    viewport: RectView,
    highlight: usize,
)
    requires
        forall|i: int| 0 <= i < blocks.len() ==> (#[trigger] blocks[i]).size == 0,
    ensures
        layout_spec(blocks, viewport, highlight).len() == 0,
{
    lemma_total_size_zero(blocks);
}

/// The block map is a function of the blocks, the viewport and the
/// highlighted address: two results for the same arguments are equal, so
/// the same blocks are placed and the same are left out.
pub proof fn lemma_layout_deterministic(
    first: Seq<Placement>,
    second: Seq<Placement>,
    blocks: Seq<MemoryBlock>,
    viewport: RectView,
    highlight: usize,
)
    requires
        views(first) == layout_spec(blocks, viewport, highlight),
        views(second) == layout_spec(blocks, viewport, highlight),
    ensures
        first == second,
{
    assert(first.len() == views(first).len());
    assert(second.len() == views(second).len());
    assert forall|k: int| 0 <= k < first.len() implies first[k] == second[k] by {
        assert(views(first)[k] == first[k]@);
        assert(views(second)[k] == second[k]@);
        assert(first[k].rect@ == second[k].rect@);
    }
    assert(first =~= second);
}

} // verus!
