use illuminator::combine::{record_nodes, remove_recorded, restore_recorded, CombineOutcome, Combination};
use illuminator::doc::{Document, Layer, Node};
use illuminator::path::{Path, PathNode};
use illuminator::style::Vec2;

fn v(x: f64, y: f64) -> Vec2 {
    Vec2 { x: x.to_bits(), y: y.to_bits() }
}

fn rect(name: &str, x0: f64, x1: f64) -> Node {
    let path = Path::rectangle(v(x0, x0), v(x1, x1));
    Node::path(name.to_string(), PathNode { path, ..PathNode::default() })
}

fn names(doc: &Document, layer: illuminator::arena::LayerId) -> Vec<String> {
    doc.layer(layer)
        .unwrap()
        .nodes
        .iter()
        .map(|id| doc.node(*id).unwrap().name.clone())
        .collect()
}

#[test]
fn recording_keeps_listed_nodes_in_order_with_their_layers() {
    let mut doc = Document::default();
    let l = doc.layers[0];
    let a = doc.add_node(l, rect("Rect 0", 0.0, 10.0)).unwrap();
    let b = doc.add_node(l, rect("Rect 1", 5.0, 15.0)).unwrap();
    let gone = doc.add_node(l, rect("Gone", 1.0, 2.0)).unwrap();
    doc.remove_node(gone);
    let recorded = record_nodes(&doc, &vec![b, gone, a]);
    assert_eq!(recorded.len(), 2);
    assert_eq!(recorded[0].0, b);
    assert_eq!(recorded[0].1.name, "Rect 1");
    assert_eq!(recorded[0].2, l);
    assert_eq!(recorded[1].0, a);
    assert_eq!(recorded[1].1.name, "Rect 0");
}

#[test]
fn removing_and_restoring_recorded_nodes() {
    let mut doc = Document::default();
    let bottom = doc.layers[0];
    let top = doc.add_layer(Layer::new("Top".to_string()));
    let a = doc.add_node(bottom, rect("Rect 0", 0.0, 10.0)).unwrap();
    let b = doc.add_node(top, rect("Rect 1", 5.0, 15.0)).unwrap();
    let c = doc.add_node(top, rect("Keep", 20.0, 30.0)).unwrap();
    let recorded = record_nodes(&doc, &vec![a, b]);
    remove_recorded(&mut doc, &recorded);
    assert!(doc.node(a).is_none());
    assert!(doc.node(b).is_none());
    assert_eq!(doc.node_count(), 1);
    let shape = doc.add_node(bottom, rect("Combined Shape", 5.0, 10.0)).unwrap();
    assert_eq!(names(&doc, bottom), vec!["Combined Shape"]);
    // Undo: the combined shape goes, the recorded nodes come back on their layers.
    doc.remove_node(shape);
    restore_recorded(&mut doc, &recorded);
    assert_eq!(doc.node_count(), 3);
    assert_eq!(names(&doc, bottom), vec!["Rect 0"]);
    assert_eq!(names(&doc, top), vec!["Keep", "Rect 1"]);
    assert!(doc.node(c).is_some());
}

#[test]
fn a_repeated_id_is_recorded_and_restored_twice() {
    let mut doc = Document::default();
    let l = doc.layers[0];
    let a = doc.add_node(l, rect("A", 0.0, 1.0)).unwrap();
    let recorded = record_nodes(&doc, &vec![a, a]);
    assert_eq!(recorded.len(), 2);
    remove_recorded(&mut doc, &recorded);
    assert_eq!(doc.node_count(), 0);
    restore_recorded(&mut doc, &recorded);
    assert_eq!(names(&doc, l), vec!["A", "A"]);
}

#[test]
fn combining_replaces_the_shapes_and_undo_gives_them_back() {
    let mut doc = Document::default();
    let l = doc.layers[0];
    let a = doc.add_node(l, rect("Rect 0", 0.0, 10.0)).unwrap();
    let b = doc.add_node(l, rect("Rect 1", 5.0, 15.0)).unwrap();
    let mut c = Combination::new();
    c.combine(&mut doc, &vec![a, b], l, CombineOutcome::Replace(rect("Combined Shape", 5.0, 10.0)));
    assert_eq!(c.target_layer_id, Some(l));
    assert_eq!(c.original_nodes.len(), 2);
    let made = c.created_node_id.unwrap();
    assert_eq!(names(&doc, l), vec!["Combined Shape"]);
    assert_eq!(c.created_node.as_ref().unwrap().name, "Combined Shape");
    c.undo(&mut doc);
    assert!(doc.node(made).is_none());
    assert!(c.created_node_id.is_none());
    assert_eq!(names(&doc, l), vec!["Rect 0", "Rect 1"]);
    assert_eq!(doc.node_count(), 2);
}

#[test]
fn keeping_or_removing_per_the_outcome() {
    let mut doc = Document::default();
    let l = doc.layers[0];
    let a = doc.add_node(l, rect("A", 0.0, 1.0)).unwrap();
    let b = doc.add_node(l, rect("B", 5.0, 6.0)).unwrap();
    let mut keep = Combination::new();
    keep.combine(&mut doc, &vec![a, b], l, CombineOutcome::Keep);
    assert_eq!(doc.node_count(), 2);
    assert_eq!(keep.original_nodes.len(), 2);
    assert!(keep.created_node_id.is_none());
    let mut remove = Combination::new();
    remove.combine(&mut doc, &vec![a, b], l, CombineOutcome::Remove);
    assert_eq!(doc.node_count(), 0);
    remove.undo(&mut doc);
    assert_eq!(names(&doc, l), vec!["A", "B"]);
}

#[test]
fn applying_again_re_adds_the_kept_copy() {
    let mut doc = Document::default();
    let l = doc.layers[0];
    let a = doc.add_node(l, rect("A", 0.0, 1.0)).unwrap();
    let b = doc.add_node(l, rect("B", 0.5, 2.0)).unwrap();
    let mut c = Combination::new();
    c.combine(&mut doc, &vec![a, b], l, CombineOutcome::Replace(rect("Combined Shape", 0.0, 2.0)));
    c.apply_again(&mut doc);
    assert!(c.created_node.is_none());
    assert_eq!(names(&doc, l), vec!["Combined Shape", "Combined Shape"]);
}
