use illuminator::doc::{Document, Layer, Node};
use illuminator::path::{Anchor, Path, PathNode};
use illuminator::selection::Selection;
use illuminator::strings::{decimal_string, numbered};
use illuminator::style::{Color, GradientStop, LineCap, LineJoin, Paint, Vec2};
use illuminator::svg::{
    export_order, hex_color, image_mime, present_nodes, sanitise_id, segment_pairs,
    selection_layers, split_lines, visible_layers, ExportOptions,
};
use illuminator::text::FontFamily;

fn v(x: f64, y: f64) -> Vec2 {
    Vec2 { x: x.to_bits(), y: y.to_bits() }
}

fn line(name: &str, x: f64) -> Node {
    let path = Path { anchors: vec![Anchor::corner(v(0.0, 0.0)), Anchor::corner(v(x, x))], closed: false };
    Node::path(name.to_string(), PathNode { path, ..PathNode::default() })
}

#[test]
fn ids_keep_only_safe_characters() {
    assert_eq!(sanitise_id("Layer 1"), "Layer_1");
    assert_eq!(sanitise_id("a-b_c.d/é"), "a-b_c_d_é");
    assert_eq!(sanitise_id(""), "");
}

#[test]
fn colours_are_lower_case_hex() {
    assert_eq!(hex_color(255, 0, 16), "#ff0010");
    assert_eq!(hex_color(0, 0, 0), "#000000");
    assert_eq!(hex_color(171, 205, 239), "#abcdef");
}

#[test]
fn image_mime_follows_the_signature() {
    assert_eq!(image_mime(&[0x89, 0x50, 0x4e, 0x47, 0x0d]), "image/png");
    assert_eq!(image_mime(&[0xff, 0xd8, 0xff, 0xe0]), "image/jpeg");
    assert_eq!(image_mime(b"GIF8"), "image/png");
    assert_eq!(image_mime(&[]), "image/png");
}

#[test]
fn path_segments_open_and_closed() {
    assert_eq!(segment_pairs(3, false), vec![(0, 1), (1, 2)]);
    assert_eq!(segment_pairs(3, true), vec![(0, 1), (1, 2), (2, 0)]);
    assert_eq!(segment_pairs(1, true), vec![(0, 0)]);
    assert!(segment_pairs(0, true).is_empty());
}

#[test]
fn text_splits_into_lines() {
    assert_eq!(split_lines("a\nbc\n"), vec!["a", "bc", ""]);
    assert_eq!(split_lines(""), vec![""]);
    assert_eq!(split_lines("one"), vec!["one"]);
}

#[test]
fn svg_attribute_values() {
    assert_eq!(FontFamily::Monospace.svg_family(), "monospace");
    assert_eq!(FontFamily::Proportional.svg_family(), "sans-serif");
    assert_eq!(LineCap::Butt.svg_value(), None);
    assert_eq!(LineCap::Round.svg_value(), Some("round"));
    assert_eq!(LineJoin::Bevel.svg_value(), Some("bevel"));
    assert_eq!(LineJoin::Miter.svg_value(), None);
}

#[test]
fn export_skips_hidden_and_reference_layers() {
    let mut doc = Document::default();
    let bottom = doc.layers[0];
    let reference = doc.add_layer(Layer::reference("Ref".to_string()));
    let hidden = doc.add_layer(Layer::new("Hidden".to_string()));
    let top = doc.add_layer(Layer::new("Top".to_string()));
    doc.layer_mut(hidden).visible = false;
    let opts = ExportOptions::default();
    assert!(!opts.include_reference_layers);
    assert!(opts.indent);
    assert_eq!(visible_layers(&doc, false), vec![top, bottom]);
    assert_eq!(export_order(&doc, &opts), vec![bottom, top]);
    let with_refs = ExportOptions { include_reference_layers: true, indent: false };
    assert_eq!(export_order(&doc, &with_refs), vec![bottom, reference, top]);
}

#[test]
fn selection_export_keeps_only_selected_nodes() {
    let mut doc = Document::default();
    let l = doc.layers[0];
    let _n1 = doc.add_node(l, line("Node 1", 5.0)).unwrap();
    let n2 = doc.add_node(l, line("Node 2", 15.0)).unwrap();
    assert_eq!(present_nodes(&doc, l).len(), 2);
    let mut sel = Selection::new();
    sel.insert(n2);
    let plan = selection_layers(&doc, &sel);
    assert_eq!(plan.len(), 1);
    assert_eq!(plan[0].0, l);
    assert_eq!(plan[0].1, vec![n2]);
}

#[test]
fn decimal_numbers() {
    assert_eq!(decimal_string(0), "0");
    assert_eq!(decimal_string(907), "907");
    assert_eq!(numbered("Layer ", 12), "Layer 12");
}

#[test]
fn paints_export_with_one_colour() {
    let red = Color::rgb(1.0f32.to_bits(), 0, 0);
    assert_eq!(Paint::Solid(red).export_color(), red);
    let stops = vec![GradientStop { offset: 0, color: red }, GradientStop { offset: 1.0f32.to_bits(), color: Color::white() }];
    let g = Paint::LinearGradient { start: v(0.0, 0.0), end: v(1.0, 0.0), stops };
    assert_eq!(g.export_color(), red);
    let empty = Paint::RadialGradient { center: v(0.0, 0.0), radius: 1.0f64.to_bits(), stops: vec![] };
    assert_eq!(empty.export_color(), Color::black());
}
