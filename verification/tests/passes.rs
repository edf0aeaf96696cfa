use makepad_platform::cx::{Cx, CxDrawPass, CxDrawPassParent};
use makepad_platform::ids::{DrawListId, DrawPassId, WindowId};

fn pass(parent: CxDrawPassParent, main: Option<usize>, name: &str) -> CxDrawPass {
    CxDrawPass {
        parent,
        main_draw_list_id: main.map(DrawListId),
        paint_dirty: false,
        debug_name: name.to_string(),
    }
}

/// Window 7 <- pass 0 <- pass 1 <- pass 3, and pass 0 <- pass 2; pass 4 unattached.
fn tree_cx() -> Cx {
    let mut cx = Cx::new();
    cx.passes.push(pass(CxDrawPassParent::Window(WindowId(7, 1)), Some(10), "main"));
    cx.passes.push(pass(CxDrawPassParent::DrawPass(DrawPassId(0)), Some(11), "overlay"));
    cx.passes.push(pass(CxDrawPassParent::DrawPass(DrawPassId(0)), None, "shadow"));
    cx.passes.push(pass(CxDrawPassParent::DrawPass(DrawPassId(1)), Some(13), "inner"));
    cx.passes.push(pass(CxDrawPassParent::Unattached, Some(14), "loose"));
    cx
}

#[test]
fn pass_window_is_found_up_the_tree() {
    let cx = tree_cx();
    assert_eq!(cx.get_pass_window_id(DrawPassId(3)), Some(WindowId(7, 1)));
    assert_eq!(cx.get_pass_window_id(DrawPassId(0)), Some(WindowId(7, 1)));
    assert_eq!(cx.get_pass_window_id(DrawPassId(4)), None);
    assert_eq!(cx.get_pass_name(DrawPassId(2)), "shadow");
}

#[test]
fn pass_window_walk_gives_up_after_twenty_five_passes() {
    let mut cx = Cx::new();
    cx.passes.push(pass(CxDrawPassParent::Window(WindowId(1, 1)), None, "root"));
    for i in 1..30 {
        cx.passes.push(pass(CxDrawPassParent::DrawPass(DrawPassId(i - 1)), None, "chain"));
    }
    assert_eq!(cx.get_pass_window_id(DrawPassId(24)), Some(WindowId(1, 1)));
    assert_eq!(cx.get_pass_window_id(DrawPassId(25)), None);
}

#[test]
fn repainting_marks_the_pass_and_its_children() {
    let mut cx = tree_cx();
    cx.repaint_pass(DrawPassId(4));
    assert!(cx.passes[4].paint_dirty);
    assert!(!cx.passes[0].paint_dirty);

    let mut cx = tree_cx();
    cx.repaint_pass_and_child_passes(DrawPassId(1));
    let dirty: Vec<bool> = cx.passes.iter().map(|p| p.paint_dirty).collect();
    assert_eq!(dirty, vec![false, true, false, true, false]);

    let mut cx = tree_cx();
    cx.repaint_pass_and_child_passes(DrawPassId(0));
    let dirty: Vec<bool> = cx.passes.iter().map(|p| p.paint_dirty).collect();
    assert_eq!(dirty, vec![true, true, true, true, false]);
}

#[test]
fn redrawing_child_passes_goes_depth_first() {
    let mut cx = tree_cx();
    cx.redraw_pass_and_child_passes(DrawPassId(0));
    assert_eq!(
        cx.new_draw_event.draw_lists_and_children,
        vec![DrawListId(10), DrawListId(11), DrawListId(13)]
    );
}

#[test]
fn redrawing_parent_passes_walks_to_the_top() {
    let mut cx = tree_cx();
    cx.redraw_pass_and_parent_passes(DrawPassId(3));
    assert_eq!(
        cx.new_draw_event.draw_lists_and_children,
        vec![DrawListId(13), DrawListId(11), DrawListId(10)]
    );
    cx.redraw_pass_and_parent_passes(DrawPassId(1));
    assert_eq!(cx.new_draw_event.draw_lists_and_children.len(), 3);
}

#[test]
fn nothing_is_redrawn_while_drawing() {
    let mut cx = tree_cx();
    cx.state.in_draw_event = true;
    cx.redraw_pass_and_child_passes(DrawPassId(0));
    cx.redraw_pass_and_parent_passes(DrawPassId(3));
    assert!(cx.new_draw_event.draw_lists_and_children.is_empty());
}
