use illuminator::command::CommandStack;
use illuminator::doc::{Document, Layer, Node, NodeKind};
use illuminator::editing::{
    add_numbered_layer, add_reference_layer, artboard_name, click_select, delete_active_layer,
    direct_press_select, drag_handle, first_layer_or_new, history_entry, image_command,
    outline_target, pick_order, press_select, process_events, select_all,
    select_last_of_layer, selectable_nodes, text_command, window_title, TextEvent,
};
use illuminator::edits::AddNodeCmd;
use illuminator::image::ImageData;
use illuminator::path::{Anchor, Path, PathNode};
use illuminator::pen::{self, DrawDefaults, PenState};
use illuminator::selection::Selection;
use illuminator::style::{Color, Paint, Vec2};
use illuminator::symmetry::{flip_vec, mirror_node, reflect_node};
use illuminator::text::TextNode;
use illuminator::tools::{key_name, BooleanOp, Corner, HandlePart, ShapeKind, SymmetryMode, ToolKind};

fn v(x: f64, y: f64) -> Vec2 {
    Vec2 { x: x.to_bits(), y: y.to_bits() }
}

fn line(name: &str, x: f64) -> Node {
    let path = Path { anchors: vec![Anchor::corner(v(0.0, 0.0)), Anchor::corner(v(x, x))], closed: false };
    Node::path(name.to_string(), PathNode { path, ..PathNode::default() })
}

fn sorted(mut ids: Vec<illuminator::arena::NodeId>) -> Vec<u64> {
    let mut keys: Vec<u64> = ids.drain(..).map(|i| i.key_value()).collect();
    keys.sort();
    keys
}

#[test]
fn tool_names_icons_and_keys() {
    let all = ToolKind::all();
    assert_eq!(all.len(), 8);
    assert_eq!(all[0], ToolKind::Select);
    assert_eq!(ToolKind::Pen.label(), "Pen");
    assert_eq!(ToolKind::DirectSelect.label(), "Direct Select");
    assert_eq!(ToolKind::Text.icon(), "T");
    assert_eq!(ToolKind::Rectangle.shortcut(), 'M');
    assert_eq!(ToolKind::Artboard.shortcut(), 'O');
    let keys: Vec<char> = all.iter().map(|t| t.shortcut()).collect();
    assert_eq!(keys, vec!['V', 'A', 'P', 'T', 'M', 'L', 'H', 'O']);
    assert_eq!(BooleanOp::Subtract.label(), "Subtract Shapes");
    assert_eq!(key_name(ToolKind::Pen.shortcut()), "P");
    assert_eq!(key_name(ToolKind::DirectSelect.shortcut()), "A");
    assert_eq!(key_name(ToolKind::Artboard.shortcut()), "?");
}

#[test]
fn corners_and_their_opposites() {
    for c in [Corner::NW, Corner::NE, Corner::SE, Corner::SW] {
        assert_eq!(c.opposite().opposite(), c);
        assert_ne!(c.opposite(), c);
    }
    assert_eq!(Corner::NE.opposite(), Corner::SW);
    assert_eq!(Corner::SE.world_pos(v(1.0, 2.0), v(3.0, 4.0)), v(3.0, 4.0));
    assert_eq!(Corner::NE.world_pos(v(1.0, 2.0), v(3.0, 4.0)), v(3.0, 2.0));
}

#[test]
fn pen_click_and_drag_place_anchors() {
    let mut p: Option<PenState> = None;
    pen::on_click(&mut p, v(1.0, 1.0));
    assert_eq!(p.as_ref().unwrap().anchors.len(), 1);
    assert!(!p.as_ref().unwrap().dragging);
    pen::on_drag_start(&mut p, v(5.0, 1.0));
    assert!(p.as_ref().unwrap().dragging);
    pen::on_drag_update(&mut p, v(2.0, 3.0), false);
    let last = *p.as_ref().unwrap().anchors.last().unwrap();
    assert_eq!(last.pos, v(5.0, 1.0));
    assert_eq!(last.out_handle, v(2.0, 3.0));
    assert_eq!(last.in_handle, v(-2.0, -3.0));
    assert!(last.smooth);
    pen::on_drag_update(&mut p, v(4.0, 0.0), true);
    let last = *p.as_ref().unwrap().anchors.last().unwrap();
    assert_eq!(last.out_handle, v(4.0, 0.0));
    assert_eq!(last.in_handle, v(-2.0, -3.0));
    assert!(!last.smooth);
    pen::on_drag_end(&mut p);
    assert!(!p.as_ref().unwrap().dragging);
    // No drag in progress: updates are ignored.
    pen::on_drag_update(&mut p, v(9.0, 9.0), false);
    assert_eq!(p.as_ref().unwrap().anchors.last().unwrap().out_handle, v(4.0, 0.0));
}

#[test]
fn pen_backspace_and_cancel() {
    let mut p: Option<PenState> = None;
    pen::on_click(&mut p, v(0.0, 0.0));
    pen::on_click(&mut p, v(1.0, 0.0));
    pen::remove_last_anchor(&mut p);
    assert_eq!(p.as_ref().unwrap().anchors.len(), 1);
    pen::remove_last_anchor(&mut p);
    assert!(p.is_none());
    pen::on_click(&mut p, v(0.0, 0.0));
    pen::cancel(&mut p);
    assert!(p.is_none());
    assert!(PenState::default().is_empty());
}

#[test]
fn pen_finish_needs_two_anchors() {
    let doc = Document::default();
    let l = doc.layers[0];
    let mut p: Option<PenState> = None;
    pen::on_click(&mut p, v(0.0, 0.0));
    assert!(pen::finish(&mut p, false, DrawDefaults::default(), l, SymmetryMode::Off).is_none());
    assert!(p.is_none());
    assert!(pen::finish(&mut p, true, DrawDefaults::default(), l, SymmetryMode::Off).is_none());
}

#[test]
fn pen_finish_builds_a_closed_shape_with_mirrors() {
    let mut doc = Document::default();
    let l = doc.layers[0];
    let mut p: Option<PenState> = None;
    pen::on_click(&mut p, v(1.0, 2.0));
    pen::on_click(&mut p, v(3.0, 4.0));
    pen::on_click(&mut p, v(5.0, 0.0));
    let cmd = pen::finish(&mut p, true, DrawDefaults::default(), l, SymmetryMode::Dual).unwrap();
    assert!(p.is_none());
    let mut stack: CommandStack<AddNodeCmd> = CommandStack::new();
    stack.push(cmd, &mut doc);
    assert_eq!(stack.undo_label(), Some("Add Closed Path"));
    let ids = doc.layer(l).unwrap().nodes.clone();
    let got: Vec<String> = ids.iter().map(|id| doc.node(*id).unwrap().name.clone()).collect();
    assert_eq!(got, vec!["Shape", "Shape (H-Mirrored)", "Shape (V-Mirrored)", "Shape (HV-Mirrored)"]);
    let NodeKind::Path(orig) = &doc.node(ids[0]).unwrap().kind else { panic!() };
    assert!(orig.path.closed);
    assert_eq!(orig.style.fill, Some(Paint::Solid(Color::rgb(0.85f32.to_bits(), 0.85f32.to_bits(), 0.85f32.to_bits()))));
    assert_eq!(orig.style.stroke.as_ref().unwrap().width, 1.0f64.to_bits());
    let NodeKind::Path(hv) = &doc.node(ids[3]).unwrap().kind else { panic!() };
    assert_eq!(hv.path.anchors[1].pos, v(-3.0, -4.0));
    let NodeKind::Path(h) = &doc.node(ids[1]).unwrap().kind else { panic!() };
    assert_eq!(h.path.anchors[1].pos, v(-3.0, 4.0));
    let mut sel = Selection::new();
    let last = select_last_of_layer(&doc, l, &mut sel);
    assert_eq!(last, Some(ids[3]));
    assert_eq!(sel.to_vec(), vec![ids[3]]);
}

#[test]
fn open_pen_path_has_no_fill() {
    let doc = Document::default();
    let l = doc.layers[0];
    let mut p: Option<PenState> = None;
    pen::on_click(&mut p, v(0.0, 0.0));
    pen::on_click(&mut p, v(10.0, 0.0));
    let cmd = pen::finish(&mut p, false, DrawDefaults::default(), l, SymmetryMode::Off).unwrap();
    let mut doc = doc;
    let mut stack: CommandStack<AddNodeCmd> = CommandStack::new();
    stack.push(cmd, &mut doc);
    assert_eq!(stack.undo_label(), Some("Add Path"));
    let id = doc.layer(l).unwrap().nodes[0];
    let node = doc.node(id).unwrap();
    assert_eq!(node.name, "Path");
    let NodeKind::Path(pn) = &node.kind else { panic!() };
    assert!(pn.style.fill.is_none());
    assert!(!pn.path.closed);
}

#[test]
fn shapes_are_named_after_their_kind() {
    let mut doc = Document::default();
    let l = doc.layers[0];
    let rect = Path::rectangle(v(0.0, 0.0), v(2.0, 2.0));
    let cmd = pen::shape_command(ShapeKind::Rect, rect, DrawDefaults::default(), l, SymmetryMode::Horizontal);
    let mut stack: CommandStack<AddNodeCmd> = CommandStack::new();
    stack.push(cmd, &mut doc);
    assert_eq!(stack.undo_label(), Some("Add Rectangle"));
    let ids = doc.layer(l).unwrap().nodes.clone();
    assert_eq!(ids.len(), 2);
    assert_eq!(doc.node(ids[1]).unwrap().name, "Rectangle (H-Mirrored)");
    assert_eq!(ShapeKind::Ellipse.shape_name(), "Ellipse");
}

#[test]
fn mirror_copies_follow_the_symmetry_mode() {
    let node = line("L", 2.0);
    assert!(mirror_node(&node, SymmetryMode::Off, v(0.0, 0.0)).is_empty());
    let v_copies = mirror_node(&node, SymmetryMode::Vertical, v(0.0, 0.0));
    assert_eq!(v_copies.len(), 1);
    assert_eq!(v_copies[0].name, "L (V-Mirrored)");
    let NodeKind::Path(p) = &v_copies[0].kind else { panic!() };
    assert_eq!(p.path.anchors[1].pos, v(2.0, -2.0));
    assert_eq!(SymmetryMode::Dual.copies().len(), 3);
}

#[test]
fn reflecting_twice_restores_paths_and_text() {
    let mut node = line("L", 3.0);
    reflect_node(&mut node, true, true, v(0.0, 0.0));
    let NodeKind::Path(p) = &node.kind else { panic!() };
    assert_eq!(p.path.anchors[1].pos, v(-3.0, -3.0));
    reflect_node(&mut node, true, true, v(0.0, 0.0));
    let NodeKind::Path(p) = &node.kind else { panic!() };
    assert_eq!(p.path.anchors[1].pos, v(3.0, 3.0));
    let mut t = Node::text("T".to_string(), TextNode { position: v(4.0, -1.5), ..TextNode::default() });
    reflect_node(&mut t, true, false, v(0.0, 0.0));
    let NodeKind::Text(tn) = &t.kind else { panic!() };
    assert_eq!(tn.position, v(-4.0, -1.5));
    assert_eq!(flip_vec(v(0.0, 1.0), true, false).x, (-0.0f64).to_bits());
}

#[test]
fn reflected_images_take_the_given_corner() {
    let bytes = {
        let img = image::RgbaImage::new(1, 1);
        let mut out = std::io::Cursor::new(Vec::new());
        img.write_to(&mut out, image::ImageFormat::Png).unwrap();
        out.into_inner()
    };
    let data = ImageData::from_bytes(bytes).unwrap();
    let doc = Document::default();
    let cmd = image_command(v(1.0, 2.0), v(10.0, 20.0), data, doc.layers[0]);
    let mut doc = doc;
    let mut stack: CommandStack<AddNodeCmd> = CommandStack::new();
    stack.push(cmd, &mut doc);
    assert_eq!(stack.undo_label(), Some("Place Image"));
    let id = doc.layers.iter().map(|l| doc.layer(*l).unwrap().nodes[0]).next().unwrap();
    let node = doc.node(id).unwrap();
    assert_eq!(node.name, "Image");
    let copies = mirror_node(node, SymmetryMode::Horizontal, v(-11.0, -22.0));
    let NodeKind::Image(img) = &copies[0].kind else { panic!() };
    assert_eq!(img.position, v(-11.0, 2.0));
    assert_eq!(img.size, v(10.0, 20.0));
}

#[test]
fn dragging_a_handle_of_a_smooth_anchor() {
    let a = Anchor::smooth_with(v(0.0, 0.0), v(1.0, 0.0));
    let r = drag_handle(a, HandlePart::Out, v(2.0, 1.0), true, false);
    assert_eq!(r.out_handle, v(2.0, 1.0));
    assert_eq!(r.in_handle, v(-2.0, -1.0));
    assert!(r.smooth);
    let r = drag_handle(a, HandlePart::In, v(0.0, 5.0), true, true);
    assert_eq!(r.in_handle, v(0.0, 5.0));
    assert_eq!(r.out_handle, v(1.0, 0.0));
    assert!(!r.smooth);
    let c = Anchor::corner(v(0.0, 0.0));
    let r = drag_handle(c, HandlePart::Out, v(3.0, 3.0), false, false);
    assert_eq!(r.out_handle, v(3.0, 3.0));
    assert_eq!(r.in_handle, v(0.0, 0.0));
    assert!(!r.smooth);
}

#[test]
fn clicks_and_presses_change_the_selection() {
    let mut doc = Document::default();
    let l = doc.layers[0];
    let a = doc.add_node(l, line("A", 1.0)).unwrap();
    let b = doc.add_node(l, line("B", 1.0)).unwrap();
    let mut sel = Selection::new();
    click_select(&mut sel, Some(a), false);
    assert_eq!(sel.to_vec(), vec![a]);
    click_select(&mut sel, Some(b), true);
    assert_eq!(sel.len(), 2);
    click_select(&mut sel, Some(a), true);
    assert_eq!(sel.to_vec(), vec![b]);
    click_select(&mut sel, None, true);
    assert_eq!(sel.to_vec(), vec![b]);
    click_select(&mut sel, None, false);
    assert!(sel.is_empty());

    assert!(press_select(&mut sel, Some(a), false));
    assert_eq!(sel.to_vec(), vec![a]);
    assert!(press_select(&mut sel, Some(b), true));
    assert_eq!(sel.len(), 2);
    assert!(press_select(&mut sel, Some(a), false));
    assert_eq!(sel.len(), 2);
    assert!(!press_select(&mut sel, None, false));
    assert!(sel.is_empty());

    direct_press_select(&mut sel, Some(a), false);
    direct_press_select(&mut sel, Some(a), false);
    assert_eq!(sel.to_vec(), vec![a]);
    direct_press_select(&mut sel, Some(b), true);
    assert_eq!(sel.len(), 2);
    direct_press_select(&mut sel, None, false);
    assert!(sel.is_empty());
}

#[test]
fn select_all_skips_hidden_and_locked_layers() {
    let mut doc = Document::default();
    let bottom = doc.layers[0];
    let locked = doc.add_layer(Layer::reference("Ref".to_string()));
    let top = doc.add_layer(Layer::new("Top".to_string()));
    let a = doc.add_node(bottom, line("A", 1.0)).unwrap();
    let b = doc.add_node(bottom, line("B", 1.0)).unwrap();
    let _r = doc.add_node(locked, line("R", 1.0)).unwrap();
    let t = doc.add_node(top, line("T", 1.0)).unwrap();
    assert_eq!(selectable_nodes(&doc), vec![t, a, b]);
    assert_eq!(pick_order(&doc), vec![t, b, a]);
    let mut sel = Selection::new();
    select_all(&doc, &mut sel);
    assert_eq!(sorted(sel.to_vec()), sorted(vec![t, a, b]));
    doc.layer_mut(top).visible = false;
    select_all(&doc, &mut sel);
    assert_eq!(sorted(sel.to_vec()), sorted(vec![a, b]));
}

#[test]
fn typing_into_a_text_node() {
    let mut doc = Document::default();
    let l = doc.layers[0];
    let defaults = DrawDefaults { fill: None, stroke: None, stroke_width: 1.0f64.to_bits() };
    let mut stack: CommandStack<AddNodeCmd> = CommandStack::new();
    stack.push(text_command(v(3.0, 4.0), defaults, l), &mut doc);
    assert_eq!(stack.undo_label(), Some("Add Text"));
    let mut sel = Selection::new();
    let id = select_last_of_layer(&doc, l, &mut sel).unwrap();
    let mut editing = Some(id);
    let events = vec![
        TextEvent::Text("Hi".to_string()),
        TextEvent::Text("!x".to_string()),
        TextEvent::Backspace,
        TextEvent::Enter { shift: true },
        TextEvent::Text("yo".to_string()),
    ];
    assert!(process_events(&mut doc, &mut editing, &mut sel, &events));
    assert_eq!(editing, Some(id));
    let NodeKind::Text(t) = &doc.node(id).unwrap().kind else { panic!() };
    assert_eq!(t.text, "Hi!\nyo");
    assert_eq!(t.position, v(3.0, 4.0));
    assert_eq!(t.font_size, 24.0f64.to_bits());
    assert_eq!(t.color, Color::black());
    assert!(!process_events(&mut doc, &mut editing, &mut sel, &vec![TextEvent::Enter { shift: false }]));
    assert_eq!(editing, None);
    assert!(doc.node(id).is_some());
    assert!(!process_events(&mut doc, &mut editing, &mut sel, &vec![TextEvent::Text("z".to_string())]));
}

#[test]
fn finishing_an_empty_text_removes_it() {
    let mut doc = Document::default();
    let l = doc.layers[0];
    let mut stack: CommandStack<AddNodeCmd> = CommandStack::new();
    stack.push(text_command(v(0.0, 0.0), DrawDefaults::default(), l), &mut doc);
    let mut sel = Selection::new();
    let id = select_last_of_layer(&doc, l, &mut sel).unwrap();
    let NodeKind::Text(t) = &doc.node(id).unwrap().kind else { panic!() };
    assert_eq!(t.color, Color::black());
    let mut editing = Some(id);
    let events = vec![TextEvent::Text("a".to_string()), TextEvent::Backspace, TextEvent::Escape];
    assert!(process_events(&mut doc, &mut editing, &mut sel, &events));
    assert_eq!(editing, None);
    assert!(doc.node(id).is_none());
    assert!(doc.layer(l).unwrap().nodes.is_empty());
    assert!(sel.is_empty());
}

#[test]
fn layer_commands() {
    let mut doc = Document::default();
    let first = doc.layers[0];
    let id = add_numbered_layer(&mut doc);
    assert_eq!(doc.layer(id).unwrap().name, "Layer 2");
    let r = add_reference_layer(&mut doc);
    assert_eq!(doc.layer(r).unwrap().name, "Reference");
    assert!(doc.layer(r).unwrap().locked);
    let a = doc.add_node(id, line("A", 1.0)).unwrap();
    let b = doc.add_node(first, line("B", 1.0)).unwrap();
    let mut sel = Selection::new();
    sel.insert(a);
    sel.insert(b);
    let mut active = id;
    assert!(delete_active_layer(&mut doc, &mut active, &mut sel));
    assert_eq!(active, r);
    assert_eq!(sel.to_vec(), vec![b]);
    assert!(doc.node(a).is_none());
    let mut active = r;
    assert!(delete_active_layer(&mut doc, &mut active, &mut sel));
    assert_eq!(active, first);
    assert!(!delete_active_layer(&mut doc, &mut active, &mut sel));
    assert_eq!(doc.layers, vec![first]);
    assert_eq!(artboard_name(&doc), "Artboard 1");
    assert_eq!(first_layer_or_new(&mut doc), first);
    doc.remove_layer(first);
    let fresh = first_layer_or_new(&mut doc);
    assert_eq!(doc.layers, vec![fresh]);
    assert_eq!(doc.layer(fresh).unwrap().name, "Layer 1");
}

#[test]
fn titles_and_menu_entries() {
    assert_eq!(window_title(None, "Untitled", false), "Untitled — Illuminator");
    assert_eq!(window_title(Some("logo.ilm"), "Untitled", true), "*logo.ilm — Illuminator");
    assert_eq!(history_entry("Undo", Some("Add Path")), "Undo Add Path");
    assert_eq!(history_entry("Redo", None), "Redo");
}

#[test]
fn outline_needs_a_single_selected_path() {
    let mut doc = Document::default();
    let l = doc.layers[0];
    let a = doc.add_node(l, line("A", 1.0)).unwrap();
    let t = doc.add_node(l, Node::text("T".to_string(), TextNode::default())).unwrap();
    let mut sel = Selection::new();
    assert_eq!(outline_target(&doc, &sel), None);
    sel.insert(a);
    assert_eq!(outline_target(&doc, &sel), Some(a));
    sel.insert(t);
    assert_eq!(outline_target(&doc, &sel), None);
    sel.remove(a);
    assert_eq!(outline_target(&doc, &sel), None);
}

#[test]
fn shift_clicking_twice_gives_back_the_selection() {
    let mut doc = Document::default();
    let l = doc.layers[0];
    let a = doc.add_node(l, line("A", 1.0)).unwrap();
    let b = doc.add_node(l, line("B", 1.0)).unwrap();
    let mut sel = Selection::new();
    click_select(&mut sel, Some(a), false);
    click_select(&mut sel, Some(b), true);
    click_select(&mut sel, Some(b), true);
    assert_eq!(sel.to_vec(), vec![a]);
    click_select(&mut sel, Some(a), true);
    click_select(&mut sel, Some(a), true);
    assert_eq!(sel.to_vec(), vec![a]);
}

#[test]
fn click_then_backspace_gives_back_the_anchors() {
    let mut p: Option<PenState> = None;
    pen::on_click(&mut p, v(0.0, 0.0));
    pen::on_drag_start(&mut p, v(1.0, 0.0));
    pen::on_drag_update(&mut p, v(0.5, 0.5), false);
    pen::on_drag_end(&mut p);
    let before: Vec<Anchor> = p.as_ref().unwrap().anchors.clone();
    pen::on_click(&mut p, v(7.0, 7.0));
    pen::remove_last_anchor(&mut p);
    assert_eq!(p.as_ref().unwrap().anchors, before);
}
