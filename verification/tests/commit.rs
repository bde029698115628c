use illuminator::canvas::{drag_end, pen_commit, text_click, CanvasCommand, DragEndFacts};
use illuminator::command::CommandStack;
use illuminator::doc::{Document, Node, NodeKind};
use illuminator::interaction::Interaction;
use illuminator::path::{Anchor, Path, PathNode};
use illuminator::pen::{DrawDefaults, PenState};
use illuminator::reshape::ResizeImageCmd;
use illuminator::selection::Selection;
use illuminator::style::Vec2;
use illuminator::tools::{Corner, ShapeKind, SymmetryMode};

type History = CommandStack<CanvasCommand<ResizeImageCmd>>;

fn v(x: f64, y: f64) -> Vec2 {
    Vec2 { x: x.to_bits(), y: y.to_bits() }
}

fn facts() -> DragEndFacts<ResizeImageCmd> {
    DragEndFacts {
        big_enough: false,
        shape: Path { anchors: Vec::new(), closed: false },
        min: v(0.0, 0.0),
        max: v(0.0, 0.0),
        marquee_hits: Vec::new(),
        changed: false,
        edit: None,
    }
}

fn line(name: &str) -> Node {
    let path = Path { anchors: vec![Anchor::corner(v(0.0, 0.0)), Anchor::corner(v(1.0, 1.0))], closed: false };
    Node::path(name.to_string(), PathNode { path, ..PathNode::default() })
}

#[test]
fn pen_commit_pushes_one_step_and_selects_the_path() {
    let mut doc = Document::default();
    let l = doc.layers[0];
    let mut sel = Selection::new();
    let mut history: History = CommandStack::new();
    let mut pen = Some(PenState {
        anchors: vec![Anchor::corner(v(0.0, 0.0)), Anchor::corner(v(5.0, 0.0)), Anchor::corner(v(5.0, 5.0))],
        dragging: false,
    });
    let committed =
        pen_commit(&mut pen, true, DrawDefaults::default(), l, SymmetryMode::Off, &mut doc, &mut sel, &mut history);
    assert!(committed);
    assert!(pen.is_none());
    assert_eq!(history.undo_label(), Some("Add Closed Path"));
    let id = doc.layer(l).unwrap().nodes[0];
    assert_eq!(sel.to_vec(), vec![id]);
    let node = doc.node(id).unwrap();
    assert_eq!(node.name, "Shape");
    let NodeKind::Path(pn) = &node.kind else { panic!() };
    assert!(pn.path.closed);
    assert_eq!(pn.path.anchors.len(), 3);
    assert!(history.undo(&mut doc));
    assert_eq!(doc.node_count(), 0);
}

#[test]
fn pen_commit_with_one_anchor_drops_the_path() {
    let mut doc = Document::default();
    let l = doc.layers[0];
    let mut sel = Selection::new();
    let mut history: History = CommandStack::new();
    let mut pen = Some(PenState { anchors: vec![Anchor::corner(v(0.0, 0.0))], dragging: false });
    let committed =
        pen_commit(&mut pen, false, DrawDefaults::default(), l, SymmetryMode::Off, &mut doc, &mut sel, &mut history);
    assert!(!committed);
    assert!(pen.is_none());
    assert!(!history.can_undo());
    assert_eq!(doc.node_count(), 0);
}

#[test]
fn text_click_on_empty_canvas_adds_and_edits_a_text() {
    let mut doc = Document::default();
    let l = doc.layers[0];
    let mut sel = Selection::new();
    let mut editing = None;
    let mut history: History = CommandStack::new();
    text_click(None, v(3.0, 4.0), DrawDefaults::default(), l, &mut doc, &mut sel, &mut editing, &mut history);
    assert_eq!(history.undo_label(), Some("Add Text"));
    let id = doc.layer(l).unwrap().nodes[0];
    assert_eq!(editing, Some(id));
    assert_eq!(sel.to_vec(), vec![id]);
    let NodeKind::Text(t) = &doc.node(id).unwrap().kind else { panic!() };
    assert_eq!(t.position, v(3.0, 4.0));
    assert!(t.text.is_empty());
    // A click on that text resumes editing it and commits nothing.
    let mut editing2 = None;
    let mut sel2 = Selection::new();
    text_click(Some(id), v(3.0, 4.0), DrawDefaults::default(), l, &mut doc, &mut sel2, &mut editing2, &mut history);
    assert_eq!(editing2, Some(id));
    assert_eq!(sel2.to_vec(), vec![id]);
    assert_eq!(doc.node_count(), 1);
    assert!(history.undo(&mut doc));
    assert!(!history.can_undo());
}

#[test]
fn drawing_a_shape_commits_one_step_unless_it_is_too_small() {
    let mut doc = Document::default();
    let l = doc.layers[0];
    let mut sel = Selection::new();
    let mut history: History = CommandStack::new();
    let mut state = Interaction::DrawingShape { kind: ShapeKind::Rect, start_world: v(0.0, 0.0), current_world: v(0.2, 9.0) };
    assert!(!drag_end(&mut state, facts(), DrawDefaults::default(), l, SymmetryMode::Off, &mut doc, &mut sel, &mut history));
    assert!(matches!(state, Interaction::Idle));
    assert_eq!(doc.node_count(), 0);
    let mut state = Interaction::DrawingShape { kind: ShapeKind::Rect, start_world: v(0.0, 0.0), current_world: v(4.0, 2.0) };
    let f = DragEndFacts { big_enough: true, shape: Path::rectangle(v(0.0, 0.0), v(4.0, 2.0)), ..facts() };
    assert!(drag_end(&mut state, f, DrawDefaults::default(), l, SymmetryMode::Horizontal, &mut doc, &mut sel, &mut history));
    assert_eq!(history.undo_label(), Some("Add Rectangle"));
    assert_eq!(doc.node_count(), 2);
    let top = *doc.layer(l).unwrap().nodes.last().unwrap();
    assert_eq!(sel.to_vec(), vec![top]);
    assert_eq!(doc.node(doc.layer(l).unwrap().nodes[0]).unwrap().name, "Rectangle");
    assert!(history.undo(&mut doc));
    assert_eq!(doc.node_count(), 0);
}

#[test]
fn drawing_an_artboard_adds_it() {
    let mut doc = Document::default();
    let l = doc.layers[0];
    let mut sel = Selection::new();
    let mut history: History = CommandStack::new();
    let mut state = Interaction::DrawingArtboard { start_world: v(0.0, 0.0), current_world: v(50.0, 40.0) };
    let f = DragEndFacts { big_enough: true, min: v(0.0, 0.0), max: v(50.0, 40.0), ..facts() };
    assert!(drag_end(&mut state, f, DrawDefaults::default(), l, SymmetryMode::Off, &mut doc, &mut sel, &mut history));
    assert_eq!(doc.artboards.len(), 1);
    assert_eq!(doc.artboards[0].name, "Artboard 1");
    assert_eq!(doc.artboards[0].max, v(50.0, 40.0));
    assert!(!history.can_undo());
}

#[test]
fn a_marquee_adds_its_hits_to_the_selection() {
    let mut doc = Document::default();
    let l = doc.layers[0];
    let a = doc.add_node(l, line("A")).unwrap();
    let b = doc.add_node(l, line("B")).unwrap();
    let mut sel = Selection::new();
    sel.insert(a);
    let mut history: History = CommandStack::new();
    let mut state = Interaction::Marquee { start_screen: v(0.0, 0.0), current_screen: v(9.0, 9.0) };
    let f = DragEndFacts { marquee_hits: vec![a, b], ..facts() };
    assert!(!drag_end(&mut state, f, DrawDefaults::default(), l, SymmetryMode::Off, &mut doc, &mut sel, &mut history));
    assert_eq!(sel.len(), 2);
    assert!(sel.contains(a) && sel.contains(b));
    assert!(!history.can_undo());
}

#[test]
fn a_move_records_the_callers_step_only_when_something_moved() {
    let mut doc = Document::default();
    let l = doc.layers[0];
    let a = doc.add_node(l, line("A")).unwrap();
    let mut sel = Selection::new();
    let mut history: History = CommandStack::new();
    let step = || ResizeImageCmd::new(a, v(0.0, 0.0), v(1.0, 1.0), v(0.0, 0.0), v(1.0, 1.0));
    let mut state = Interaction::MovingSelection { last_world: v(2.0, 2.0), accumulated: v(0.0, 0.0) };
    let f = DragEndFacts { changed: false, edit: Some(step()), ..facts() };
    assert!(!drag_end(&mut state, f, DrawDefaults::default(), l, SymmetryMode::Off, &mut doc, &mut sel, &mut history));
    assert!(!history.can_undo());
    let mut state = Interaction::MovingSelection { last_world: v(2.0, 2.0), accumulated: v(2.0, 2.0) };
    let f = DragEndFacts { changed: true, edit: Some(step()), ..facts() };
    assert!(drag_end(&mut state, f, DrawDefaults::default(), l, SymmetryMode::Off, &mut doc, &mut sel, &mut history));
    assert_eq!(history.undo_label(), Some("Resize Image"));
    assert_eq!(doc.node_count(), 1);
}

#[test]
fn a_path_resize_records_a_scale_step_from_the_old_anchors() {
    let mut doc = Document::default();
    let l = doc.layers[0];
    let a = doc.add_node(l, line("A")).unwrap();
    let mut sel = Selection::new();
    let mut history: History = CommandStack::new();
    let old = vec![Anchor::corner(v(0.0, 0.0)), Anchor::corner(v(0.5, 0.5))];
    let mut state = Interaction::ResizingImage {
        node_id: a,
        corner: Corner::SE,
        anchor_world: v(0.0, 0.0),
        original_position: v(0.0, 0.0),
        original_size: v(0.5, 0.5),
        aspect: 1.0f64.to_bits(),
        original_anchors: Some(old),
    };
    let f = DragEndFacts { changed: true, ..facts() };
    assert!(drag_end(&mut state, f, DrawDefaults::default(), l, SymmetryMode::Off, &mut doc, &mut sel, &mut history));
    assert_eq!(history.undo_label(), Some("Scale Shape"));
    assert!(history.undo(&mut doc));
    let NodeKind::Path(pn) = &doc.node(a).unwrap().kind else { panic!() };
    assert_eq!(pn.path.anchors[1].pos, v(0.5, 0.5));
}
