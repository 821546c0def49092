use viz::{memory_map, panel_viewport, HeapStep, MemoryBlock, Rect};

fn step_of(sizes: &[usize], highlight: usize) -> HeapStep {
    let mut addr = 0;
    let mut blocks = Vec::new();
    for &size in sizes {
        blocks.push(MemoryBlock { addr, size, is_free: false });
        addr += size;
    }
    HeapStep { algo: String::from("buddy"), step: 3, op: String::from("free 10"), highlight, blocks }
}

#[test]
fn border_takes_one_cell_on_each_side() {
    assert_eq!(panel_viewport(Rect::new(0, 0, 42, 8)), Rect::new(1, 1, 40, 6));
    assert_eq!(panel_viewport(Rect::new(7, 3, 10, 2)), Rect::new(8, 4, 8, 0));
}

#[test]
fn border_of_a_tiny_area_leaves_nothing() {
    assert_eq!(panel_viewport(Rect::new(5, 5, 1, 1)), Rect { x: 6, y: 6, width: 0, height: 0 });
    assert_eq!(panel_viewport(Rect::new(5, 5, 0, 0)), Rect { x: 5, y: 5, width: 0, height: 0 });
    assert_eq!(
        panel_viewport(Rect::new(u16::MAX, u16::MAX, 9, 9)),
        Rect { x: u16::MAX, y: u16::MAX, width: 0, height: 0 }
    );
}

#[test]
fn memory_map_lies_inside_the_border() {
    let step = step_of(&[10, 10, 80], 10);
    let placements = memory_map(&step, Rect::new(0, 0, 42, 8));
    let rects: Vec<_> =
        placements.iter().map(|p| (p.rect.x, p.rect.y, p.rect.width, p.rect.height)).collect();
    assert_eq!(rects, vec![(1, 1, 8, 3), (9, 1, 8, 3), (1, 4, 40, 3)]);
    assert_eq!(placements.iter().map(|p| p.highlighted).collect::<Vec<_>>(), vec![false, true, false]);
}

#[test]
fn memory_map_of_a_low_panel_is_cut_short() {
    let step = step_of(&[10, 10, 80], 10);
    let placements = memory_map(&step, Rect::new(0, 0, 42, 7));
    assert_eq!(placements.len(), 2);
    assert!(memory_map(&step, Rect::new(0, 0, 42, 4)).is_empty());
}
