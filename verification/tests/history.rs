use illuminator::command::{Command, CommandStack};
use illuminator::doc::{Document, Layer, Node, NodeKind};
use illuminator::image::{ImageData, ImageNode};
use illuminator::reshape::{ResizeImageCmd, ResizePathCmd};
use illuminator::edits::{AddNodeCmd, DeleteNodesCmd};
use illuminator::path::{Anchor, Path, PathNode};
use illuminator::style::Vec2;

fn v(x: f64, y: f64) -> Vec2 {
    Vec2 { x: x.to_bits(), y: y.to_bits() }
}

fn line(name: &str, x: f64) -> Node {
    let path = Path { anchors: vec![Anchor::corner(v(0.0, 0.0)), Anchor::corner(v(x, x))], closed: false };
    Node::path(name.to_string(), PathNode { path, ..PathNode::default() })
}

fn names(doc: &Document, layer: illuminator::arena::LayerId) -> Vec<String> {
    doc.layer(layer)
        .unwrap()
        .nodes
        .iter()
        .map(|id| doc.node(*id).unwrap().name.clone())
        .collect()
}

#[test]
fn push_applies_and_undo_removes_the_node() {
    let mut doc = Document::default();
    let l = doc.layers[0];
    let mut stack: CommandStack<AddNodeCmd> = CommandStack::new();
    assert!(!stack.can_undo());
    assert_eq!(stack.undo_label(), None);
    stack.push(AddNodeCmd::new(l, line("A", 1.0), "Add A".to_string()), &mut doc);
    assert_eq!(names(&doc, l), vec!["A"]);
    assert!(stack.can_undo());
    assert!(!stack.can_redo());
    assert_eq!(stack.undo_label(), Some("Add A"));
    assert!(stack.undo(&mut doc));
    assert_eq!(doc.node_count(), 0);
    assert!(doc.layer(l).unwrap().nodes.is_empty());
    assert_eq!(stack.redo_label(), Some("Add A"));
    assert!(!stack.undo(&mut doc));
}

#[test]
fn undo_then_redo_gives_back_the_history() {
    let mut doc = Document::default();
    let l = doc.layers[0];
    let mut stack: CommandStack<AddNodeCmd> = CommandStack::default();
    stack.push(AddNodeCmd::new(l, line("A", 1.0), "Add A".to_string()), &mut doc);
    stack.push(AddNodeCmd::new(l, line("B", 2.0), "Add B".to_string()), &mut doc);
    assert!(stack.undo(&mut doc));
    assert_eq!(names(&doc, l), vec!["A"]);
    assert!(stack.redo(&mut doc));
    assert_eq!(names(&doc, l), vec!["A", "B"]);
    assert_eq!(stack.undo_label(), Some("Add B"));
    assert!(!stack.can_redo());
    assert!(!stack.redo(&mut doc));
}

#[test]
fn redo_then_undo_gives_back_the_history() {
    let mut doc = Document::default();
    let l = doc.layers[0];
    let mut stack: CommandStack<AddNodeCmd> = CommandStack::new();
    stack.push(AddNodeCmd::new(l, line("A", 1.0), "Add A".to_string()), &mut doc);
    stack.undo(&mut doc);
    assert!(stack.redo(&mut doc));
    assert!(stack.undo(&mut doc));
    assert_eq!(doc.node_count(), 0);
    assert_eq!(stack.redo_label(), Some("Add A"));
    assert!(!stack.can_undo());
}

#[test]
fn push_clears_the_redo_history() {
    let mut doc = Document::default();
    let l = doc.layers[0];
    let mut stack: CommandStack<AddNodeCmd> = CommandStack::new();
    stack.push(AddNodeCmd::new(l, line("A", 1.0), "Add A".to_string()), &mut doc);
    stack.undo(&mut doc);
    assert!(stack.can_redo());
    stack.push(AddNodeCmd::new(l, line("B", 1.0), "Add B".to_string()), &mut doc);
    assert!(!stack.can_redo());
    assert_eq!(stack.undo_label(), Some("Add B"));
    stack.clear();
    assert!(!stack.can_undo());
    assert!(!stack.can_redo());
}

#[test]
fn add_with_mirrors_then_undo_restores_the_document() {
    let mut doc = Document::default();
    let l = doc.layers[0];
    let before = doc.add_node(l, line("Old", 5.0)).unwrap();
    let mut cmd = AddNodeCmd::with_mirrors(l, line("A", 1.0), vec![line("A (H-Mirrored)", 1.0)], "Add Path".to_string());
    assert_eq!(cmd.inserted_id(), None);
    cmd.apply(&mut doc);
    let first = cmd.inserted_id().unwrap();
    assert_eq!(names(&doc, l), vec!["Old", "A", "A (H-Mirrored)"]);
    assert_eq!(doc.layer(l).unwrap().nodes[1], first);
    cmd.undo(&mut doc);
    assert_eq!(names(&doc, l), vec!["Old"]);
    assert_eq!(doc.layer(l).unwrap().nodes, vec![before]);
    assert_eq!(doc.node_count(), 1);
    assert_eq!(cmd.label(), "Add Path");
    // Applying again puts both back.
    cmd.apply(&mut doc);
    assert_eq!(doc.node_count(), 3);
}

#[test]
fn delete_then_undo_brings_nodes_back_on_their_layers() {
    let mut doc = Document::default();
    let bottom = doc.layers[0];
    let top = doc.add_layer(Layer::new("Top".to_string()));
    let a = doc.add_node(bottom, line("A", 1.0)).unwrap();
    let b = doc.add_node(top, line("B", 2.0)).unwrap();
    let c = doc.add_node(top, line("C", 3.0)).unwrap();
    let mut stack: CommandStack<DeleteNodesCmd> = CommandStack::new();
    stack.push(DeleteNodesCmd::new(vec![a, b]), &mut doc);
    assert_eq!(stack.undo_label(), Some("Delete"));
    assert!(doc.node(a).is_none());
    assert!(doc.node(b).is_none());
    assert_eq!(doc.layer(top).unwrap().nodes, vec![c]);
    assert!(doc.layer(bottom).unwrap().nodes.is_empty());
    assert!(stack.undo(&mut doc));
    assert_eq!(names(&doc, bottom), vec!["A"]);
    assert_eq!(names(&doc, top), vec!["C", "B"]);
    assert!(doc.node(c).is_some());
    assert_eq!(doc.node_count(), 3);
}

#[test]
fn deleting_unknown_ids_changes_nothing() {
    let mut doc = Document::default();
    let l = doc.layers[0];
    let a = doc.add_node(l, line("A", 1.0)).unwrap();
    let mut cmd = DeleteNodesCmd::new(vec![a]);
    cmd.apply(&mut doc);
    let mut again = DeleteNodesCmd::new(vec![a]);
    again.apply(&mut doc);
    assert_eq!(doc.node_count(), 0);
    again.undo(&mut doc);
    assert_eq!(doc.node_count(), 0);
    cmd.undo(&mut doc);
    assert_eq!(names(&doc, l), vec!["A"]);
}

#[test]
fn redo_of_a_mirrored_add_lists_the_nodes_in_their_order() {
    let mut doc = Document::default();
    let l = doc.layers[0];
    let mut cmd = AddNodeCmd::with_mirrors(
        l,
        line("A", 1.0),
        vec![line("A (H-Mirrored)", 1.0), line("A (V-Mirrored)", 1.0)],
        "Add Path".to_string(),
    );
    cmd.apply(&mut doc);
    assert_eq!(names(&doc, l), vec!["A", "A (H-Mirrored)", "A (V-Mirrored)"]);
    cmd.undo(&mut doc);
    assert!(names(&doc, l).is_empty());
    cmd.apply(&mut doc);
    assert_eq!(names(&doc, l), vec!["A", "A (H-Mirrored)", "A (V-Mirrored)"]);
    let first = cmd.inserted_id().unwrap();
    assert_eq!(doc.node(first).unwrap().name, "A");
    assert_eq!(doc.node_count(), 3);
}

#[test]
fn adding_to_a_missing_layer_stores_nothing() {
    let mut doc = Document::default();
    let gone = doc.add_layer(Layer::new("Gone".to_string()));
    doc.remove_layer(gone);
    let mut cmd = AddNodeCmd::new(gone, line("A", 1.0), "Add A".to_string());
    cmd.apply(&mut doc);
    assert_eq!(doc.node_count(), 0);
    assert_eq!(cmd.inserted_id(), None);
}

#[test]
fn redo_of_a_single_add_gives_back_the_node() {
    let mut doc = Document::default();
    let l = doc.layers[0];
    let mut stack: CommandStack<AddNodeCmd> = CommandStack::new();
    stack.push(AddNodeCmd::new(l, line("A", 1.0), "Add A".to_string()), &mut doc);
    stack.undo(&mut doc);
    stack.redo(&mut doc);
    assert_eq!(names(&doc, l), vec!["A"]);
}

#[test]
fn resizing_an_image_and_undoing() {
    let bytes = {
        let img = image::RgbaImage::new(2, 2);
        let mut out = std::io::Cursor::new(Vec::new());
        img.write_to(&mut out, image::ImageFormat::Png).unwrap();
        out.into_inner()
    };
    let mut doc = Document::default();
    let l = doc.layers[0];
    let image = ImageData::from_bytes(bytes).unwrap();
    let node = Node::image(
        "Image".to_string(),
        ImageNode { position: v(0.0, 0.0), size: v(2.0, 2.0), style: Default::default(), image },
    );
    let id = doc.add_node(l, node).unwrap();
    let mut stack: CommandStack<ResizeImageCmd> = CommandStack::new();
    stack.push(ResizeImageCmd::new(id, v(0.0, 0.0), v(2.0, 2.0), v(-1.0, 1.0), v(8.0, 4.0)), &mut doc);
    assert_eq!(stack.undo_label(), Some("Resize Image"));
    let NodeKind::Image(img) = &doc.node(id).unwrap().kind else { panic!() };
    assert_eq!((img.position, img.size), (v(-1.0, 1.0), v(8.0, 4.0)));
    stack.undo(&mut doc);
    let NodeKind::Image(img) = &doc.node(id).unwrap().kind else { panic!() };
    assert_eq!((img.position, img.size), (v(0.0, 0.0), v(2.0, 2.0)));
    // Redo repeats the resize.
    assert!(stack.redo(&mut doc));
    let NodeKind::Image(img) = &doc.node(id).unwrap().kind else { panic!() };
    assert_eq!((img.position, img.size), (v(-1.0, 1.0), v(8.0, 4.0)));
    assert!(stack.can_undo() && !stack.can_redo());
    // A resize aimed at a path changes nothing.
    let p = doc.add_node(l, line("P", 3.0)).unwrap();
    let mut cmd = ResizeImageCmd::new(p, v(0.0, 0.0), v(1.0, 1.0), v(5.0, 5.0), v(1.0, 1.0));
    cmd.apply(&mut doc);
    let NodeKind::Path(pn) = &doc.node(p).unwrap().kind else { panic!() };
    assert_eq!(pn.path.anchors[1].pos, v(3.0, 3.0));
}

#[test]
fn scaling_a_path_and_undoing() {
    let mut doc = Document::default();
    let l = doc.layers[0];
    let id = doc.add_node(l, line("P", 1.0)).unwrap();
    let from = vec![Anchor::corner(v(0.0, 0.0)), Anchor::corner(v(1.0, 1.0))];
    let to = vec![Anchor::corner(v(0.0, 0.0)), Anchor::corner(v(2.0, 4.0))];
    let mut stack: CommandStack<ResizePathCmd> = CommandStack::new();
    stack.push(ResizePathCmd::new(id, from, to), &mut doc);
    assert_eq!(stack.undo_label(), Some("Scale Shape"));
    let NodeKind::Path(pn) = &doc.node(id).unwrap().kind else { panic!() };
    assert_eq!(pn.path.anchors[1].pos, v(2.0, 4.0));
    stack.undo(&mut doc);
    let NodeKind::Path(pn) = &doc.node(id).unwrap().kind else { panic!() };
    assert_eq!(pn.path.anchors[1].pos, v(1.0, 1.0));
    assert_eq!(names(&doc, l), vec!["P"]);
}

#[test]
fn test_resize_path_command() {
    let mut doc = Document::default();
    let layer_id = doc.layers[0];
    let path = Path {
        anchors: vec![Anchor::corner(v(10.0, 10.0)), Anchor::corner(v(20.0, 20.0))],
        closed: false,
    };
    let path_node = PathNode { path, ..PathNode::default() };
    let node_id = doc.add_node(layer_id, Node::path("Line".to_string(), path_node)).unwrap();
    let from_anchors = vec![Anchor::corner(v(10.0, 10.0)), Anchor::corner(v(20.0, 20.0))];
    let to_anchors = vec![Anchor::corner(v(20.0, 20.0)), Anchor::corner(v(40.0, 40.0))];
    let mut cmd = ResizePathCmd::new(node_id, from_anchors, to_anchors);
    cmd.apply(&mut doc);
    let NodeKind::Path(pn) = &doc.node(node_id).unwrap().kind else { panic!() };
    assert_eq!(pn.path.anchors[0].pos, v(20.0, 20.0));
    assert_eq!(pn.path.anchors[1].pos, v(40.0, 40.0));
    cmd.undo(&mut doc);
    let NodeKind::Path(pn) = &doc.node(node_id).unwrap().kind else { panic!() };
    assert_eq!(pn.path.anchors[0].pos, v(10.0, 10.0));
    assert_eq!(pn.path.anchors[1].pos, v(20.0, 20.0));
}

#[test]
fn push_undo_redo_of_a_scaling_leaves_the_scaled_path() {
    let mut doc = Document::default();
    let l = doc.layers[0];
    let id = doc.add_node(l, line("P", 1.0)).unwrap();
    let from = vec![Anchor::corner(v(0.0, 0.0)), Anchor::corner(v(1.0, 1.0))];
    let to = vec![Anchor::corner(v(0.0, 0.0)), Anchor::corner(v(3.0, 6.0))];
    let mut stack: CommandStack<ResizePathCmd> = CommandStack::new();
    stack.push(ResizePathCmd::new(id, from, to), &mut doc);
    assert!(stack.undo(&mut doc));
    let NodeKind::Path(pn) = &doc.node(id).unwrap().kind else { panic!() };
    assert_eq!(pn.path.anchors[1].pos, v(1.0, 1.0));
    assert!(stack.redo(&mut doc));
    let NodeKind::Path(pn) = &doc.node(id).unwrap().kind else { panic!() };
    assert_eq!(pn.path.anchors[1].pos, v(3.0, 6.0));
    assert!(stack.can_undo());
    assert!(!stack.can_redo());
    assert_eq!(stack.undo_label(), Some("Scale Shape"));
    assert_eq!(names(&doc, l), vec!["P"]);
}

#[test]
fn a_second_undo_of_a_delete_adds_nothing() {
    let mut doc = Document::default();
    let l = doc.layers[0];
    let a = doc.add_node(l, line("A", 1.0)).unwrap();
    doc.add_node(l, line("B", 2.0)).unwrap();
    let mut cmd = DeleteNodesCmd::new(vec![a]);
    cmd.apply(&mut doc);
    assert_eq!(doc.node_count(), 1);
    cmd.undo(&mut doc);
    assert_eq!(doc.node_count(), 2);
    assert_eq!(names(&doc, l), vec!["B", "A"]);
    cmd.undo(&mut doc);
    assert_eq!(doc.node_count(), 2);
    assert_eq!(names(&doc, l), vec!["B", "A"]);
}
