use std::hash::{Hash, Hasher};
use illuminator::doc::{Document, Layer, LayerKind, Node, NodeKind, CURRENT_VERSION};
use illuminator::image::{ImageData, ImageNode};
use illuminator::io::{accept_loaded, IoError};
use illuminator::path::{Anchor, Path, PathNode};
use illuminator::style::{BlendMode, Style, Vec2, F32_HALF, F32_ONE};
use illuminator::text::TextNode;

fn v(x: f64, y: f64) -> Vec2 {
    Vec2 { x: x.to_bits(), y: y.to_bits() }
}

fn line(name: &str, a: (f64, f64), b: (f64, f64)) -> Node {
    let path = Path { anchors: vec![Anchor::corner(v(a.0, a.1)), Anchor::corner(v(b.0, b.1))], closed: false };
    Node::path(name.to_string(), PathNode { path, ..PathNode::default() })
}

fn png_bytes(w: u32, h: u32) -> Vec<u8> {
    let img = image::RgbaImage::new(w, h);
    let mut out = std::io::Cursor::new(Vec::new());
    img.write_to(&mut out, image::ImageFormat::Png).unwrap();
    out.into_inner()
}

#[test]
fn new_document_has_one_empty_layer() {
    let doc = Document::default();
    assert_eq!(doc.version, CURRENT_VERSION);
    assert_eq!(doc.version, 1);
    assert_eq!(doc.title, "Untitled");
    assert_eq!(doc.layers.len(), 1);
    assert_eq!(doc.layer_count(), 1);
    assert_eq!(doc.node_count(), 0);
    assert!(doc.artboards.is_empty());
    let layer = doc.layer(doc.layers[0]).unwrap();
    assert_eq!(layer.name, "Layer 1");
    assert!(layer.visible);
    assert!(!layer.locked);
    assert_eq!(layer.opacity, F32_ONE);
    assert_eq!(layer.blend, BlendMode::Normal);
    assert_eq!(layer.kind, LayerKind::Normal);
    assert!(layer.nodes.is_empty());
}

#[test]
fn new_layer_goes_on_top() {
    let mut doc = Document::default();
    let first = doc.layers[0];
    let id = doc.add_layer(Layer::new("Top".to_string()));
    assert_eq!(doc.layers, vec![id, first]);
    assert_eq!(doc.layer(id).unwrap().name, "Top");
}

#[test]
fn reference_layer_is_locked_and_dimmed() {
    let layer = Layer::reference("Ref".to_string());
    assert!(layer.locked);
    assert!(layer.visible);
    assert_eq!(layer.opacity, F32_HALF);
    assert_eq!(layer.opacity, 0.5f32.to_bits());
    assert_eq!(layer.blend, BlendMode::Multiply);
    assert!(layer.kind.is_reference());
    assert!(!LayerKind::Normal.is_reference());
}

#[test]
fn add_node_lists_it_on_top_of_its_layer() {
    let mut doc = Document::default();
    let l = doc.layers[0];
    let a = doc.add_node(l, line("A", (0.0, 0.0), (1.0, 1.0))).unwrap();
    let b = doc.add_node(l, line("B", (0.0, 0.0), (2.0, 2.0))).unwrap();
    assert_ne!(a, b);
    assert_eq!(doc.layer(l).unwrap().nodes, vec![a, b]);
    assert_eq!(doc.node(b).unwrap().name, "B");
    assert_eq!(doc.layer_of(a), Some(l));
}

#[test]
fn add_node_to_missing_layer_stores_nothing() {
    let mut doc = Document::default();
    let gone = doc.add_layer(Layer::new("Gone".to_string()));
    doc.remove_layer(gone);
    assert!(doc.add_node(gone, line("Orphan", (0.0, 0.0), (1.0, 0.0))).is_none());
    assert_eq!(doc.node_count(), 0);
    assert!(doc.node_ids().is_empty());
}

#[test]
fn remove_node_takes_it_off_its_layer() {
    let mut doc = Document::default();
    let l = doc.layers[0];
    let a = doc.add_node(l, line("A", (0.0, 0.0), (1.0, 1.0))).unwrap();
    let b = doc.add_node(l, line("B", (0.0, 0.0), (2.0, 2.0))).unwrap();
    let removed = doc.remove_node(a).unwrap();
    assert_eq!(removed.name, "A");
    assert_eq!(doc.layer(l).unwrap().nodes, vec![b]);
    assert!(doc.node(a).is_none());
    assert!(doc.remove_node(a).is_none());
    assert_eq!(doc.layer_of(a), None);
}

#[test]
fn remove_layer_removes_its_nodes() {
    let mut doc = Document::default();
    let keep = doc.layers[0];
    let other = doc.add_layer(Layer::new("Other".to_string()));
    let a = doc.add_node(other, line("A", (0.0, 0.0), (1.0, 1.0))).unwrap();
    let b = doc.add_node(keep, line("B", (0.0, 0.0), (1.0, 1.0))).unwrap();
    let layer = doc.remove_layer(other).unwrap();
    assert_eq!(layer.name, "Other");
    assert_eq!(doc.layers, vec![keep]);
    assert!(doc.node(a).is_none());
    assert!(doc.node(b).is_some());
    assert!(doc.remove_layer(other).is_none());
}

#[test]
fn node_constructors_keep_their_parts() {
    let text = Node::text("T".to_string(), TextNode::default());
    assert!(matches!(text.kind, NodeKind::Text(ref t) if t.font_size == 24.0f64.to_bits() && t.text.is_empty()));
    let rect = Path::rectangle(v(0.0, 0.0), v(10.0, 20.0));
    assert!(rect.closed);
    let corners: Vec<Vec2> = rect.anchors.iter().map(|a| a.pos).collect();
    assert_eq!(corners, vec![v(0.0, 0.0), v(10.0, 0.0), v(10.0, 20.0), v(0.0, 20.0)]);
    let s = Anchor::smooth_with(v(1.0, 2.0), v(3.0, -4.0));
    assert!(s.smooth);
    assert_eq!(s.in_handle, v(-3.0, 4.0));
}

#[test]
fn image_bytes_are_checked_and_kept() {
    let bytes = png_bytes(3, 2);
    let data = ImageData::from_bytes(bytes.clone()).unwrap();
    assert_eq!(data.width, 3);
    assert_eq!(data.height, 2);
    assert_eq!(data.bytes, bytes);
    let mut again = data.clone();
    again.hash = 0;
    again.recompute_hash();
    assert_eq!(again.hash, data.hash);
    assert!(ImageData::from_bytes(b"not an image".to_vec()).is_err());
    let mut truncated = bytes.clone();
    truncated.truncate(20);
    assert!(ImageData::from_bytes(truncated).is_err());
}

#[test]
fn loaded_documents_from_newer_versions_are_refused() {
    let mut doc = Document::default();
    doc.version = CURRENT_VERSION + 1;
    match accept_loaded(doc) {
        Err(IoError::UnsupportedVersion(v)) => assert_eq!(v, 2),
        _ => panic!("expected a version error"),
    }
}

#[test]
fn loaded_documents_get_their_image_keys_recomputed() {
    let mut doc = Document::default();
    let l = doc.layers[0];
    let mut data = ImageData::from_bytes(png_bytes(1, 1)).unwrap();
    let key = data.hash;
    data.hash = 0;
    let node = Node::image(
        "Image".to_string(),
        ImageNode { position: v(0.0, 0.0), size: v(1.0, 1.0), style: Style::default(), image: data },
    );
    let id = doc.add_node(l, node).unwrap();
    let doc = accept_loaded(doc).unwrap();
    match &doc.node(id).unwrap().kind {
        NodeKind::Image(img) => assert_eq!(img.image.hash, key),
        _ => panic!("expected an image"),
    }
}

#[test]
fn recompute_hash_sets_the_hash_of_the_bytes() {
    let bytes = png_bytes(2, 1);
    let mut data = ImageData::from_bytes(bytes.clone()).unwrap();
    let mut h = std::collections::hash_map::DefaultHasher::new();
    bytes.as_slice().hash(&mut h);
    let expected = h.finish();
    assert_eq!(data.hash, expected);
    data.hash = expected.wrapping_add(1);
    data.recompute_hash();
    assert_eq!(data.hash, expected);
    assert_eq!(data.bytes, bytes);
}
