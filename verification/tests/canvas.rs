use illuminator::doc::{Document, Node, NodeKind};
use illuminator::image::{ImageData, ImageNode};
use illuminator::interaction::{drag_handle_to, drag_start, end_drag, track, CornerHit, Interaction, Press};
use illuminator::path::{Anchor, Path, PathNode};
use illuminator::selection::Selection;
use illuminator::style::{Style, Vec2};
use illuminator::tools::{Corner, HandlePart, ShapeKind, ToolKind};

fn v(x: f64, y: f64) -> Vec2 {
    Vec2 { x: x.to_bits(), y: y.to_bits() }
}

fn press(world: Vec2) -> Press {
    Press {
        world,
        snapped: world,
        screen: v(100.0, 100.0),
        shift: false,
        alt: false,
        handle: None,
        anchor: None,
        corner: None,
        node: None,
    }
}

fn curve() -> Node {
    let path = Path {
        anchors: vec![Anchor::smooth_with(v(0.0, 0.0), v(1.0, 0.0)), Anchor::corner(v(4.0, 4.0))],
        closed: false,
    };
    Node::path("Curve".to_string(), PathNode { path, ..PathNode::default() })
}

#[test]
fn shape_and_artboard_drags_follow_the_cursor() {
    let doc = Document::default();
    let mut sel = Selection::new();
    let mut state = Interaction::Idle;
    drag_start(ToolKind::Ellipse, &press(v(1.0, 2.0)), &doc, &mut sel, &mut state);
    track(&mut state, v(5.0, 6.0), v(0.0, 0.0));
    match &state {
        Interaction::DrawingShape { kind, start_world: start, current_world: current } => {
            assert_eq!(*kind, ShapeKind::Ellipse);
            assert_eq!(*start, v(1.0, 2.0));
            assert_eq!(*current, v(5.0, 6.0));
        }
        _ => panic!("expected a shape drag"),
    }
    let done = end_drag(&mut state);
    assert!(matches!(done, Interaction::DrawingShape { .. }));
    assert!(matches!(state, Interaction::Idle));
    drag_start(ToolKind::Artboard, &press(v(0.0, 0.0)), &doc, &mut sel, &mut state);
    assert!(matches!(state, Interaction::DrawingArtboard { .. }));
    drag_start(ToolKind::Hand, &press(v(0.0, 0.0)), &doc, &mut sel, &mut state);
    assert!(matches!(state, Interaction::DrawingArtboard { .. }));
}

#[test]
fn select_press_moves_a_node_or_starts_a_marquee() {
    let mut doc = Document::default();
    let l = doc.layers[0];
    let a = doc.add_node(l, curve()).unwrap();
    let mut sel = Selection::new();
    let mut state = Interaction::Idle;
    let mut p = press(v(1.0, 1.0));
    p.node = Some(a);
    drag_start(ToolKind::Select, &p, &doc, &mut sel, &mut state);
    assert!(matches!(state, Interaction::MovingSelection { .. }));
    assert_eq!(sel.to_vec(), vec![a]);
    drag_start(ToolKind::Select, &press(v(9.0, 9.0)), &doc, &mut sel, &mut state);
    match &state {
        Interaction::Marquee { start_screen: start, current_screen: current } => {
            assert_eq!(*start, v(100.0, 100.0));
            assert_eq!(*current, v(100.0, 100.0));
        }
        _ => panic!("expected a marquee"),
    }
    assert!(sel.is_empty());
    track(&mut state, v(0.0, 0.0), v(120.0, 130.0));
    assert!(matches!(state, Interaction::Marquee { current_screen, .. } if current_screen == v(120.0, 130.0)));
}

#[test]
fn select_press_on_a_corner_starts_a_resize() {
    let mut doc = Document::default();
    let l = doc.layers[0];
    let bytes = {
        let img = image::RgbaImage::new(4, 2);
        let mut out = std::io::Cursor::new(Vec::new());
        img.write_to(&mut out, image::ImageFormat::Png).unwrap();
        out.into_inner()
    };
    let image = ImageData::from_bytes(bytes).unwrap();
    let id = doc
        .add_node(l, Node::image("Image".to_string(), ImageNode { position: v(0.0, 0.0), size: v(4.0, 2.0), style: Style::default(), image }))
        .unwrap();
    let mut sel = Selection::new();
    sel.insert(id);
    let mut p = press(v(4.0, 2.0));
    p.corner = Some(CornerHit { node_id: id, corner: Corner::SE, min: v(0.0, 0.0), max: v(4.0, 2.0), size: v(4.0, 2.0), aspect: 2.0f64.to_bits() });
    let mut state = Interaction::Idle;
    drag_start(ToolKind::Select, &p, &doc, &mut sel, &mut state);
    match &state {
        Interaction::ResizingImage { node_id, corner, anchor_world: pinned, original_position, original_size, aspect, original_anchors } => {
            assert_eq!(*node_id, id);
            assert_eq!(*corner, Corner::SE);
            assert_eq!(*pinned, v(0.0, 0.0));
            assert_eq!(*original_position, v(0.0, 0.0));
            assert_eq!(*original_size, v(4.0, 2.0));
            assert_eq!(*aspect, 2.0f64.to_bits());
            assert!(original_anchors.is_none());
        }
        _ => panic!("expected a resize"),
    }
    assert_eq!(sel.to_vec(), vec![id]);
}

#[test]
fn direct_select_drags_handles_and_anchors() {
    let mut doc = Document::default();
    let l = doc.layers[0];
    let id = doc.add_node(l, curve()).unwrap();
    let mut sel = Selection::new();
    sel.insert(id);
    let mut state = Interaction::Idle;
    let mut p = press(v(1.0, 0.0));
    p.handle = Some((id, 0, HandlePart::Out));
    drag_start(ToolKind::DirectSelect, &p, &doc, &mut sel, &mut state);
    match &state {
        Interaction::MovingHandle { start_in, start_out, was_smooth, break_symmetry, .. } => {
            assert_eq!(*start_in, v(-1.0, -0.0));
            assert_eq!(*start_out, v(1.0, 0.0));
            assert!(*was_smooth);
            assert!(!*break_symmetry);
        }
        _ => panic!("expected a handle drag"),
    }
    drag_handle_to(&mut doc, &state, v(2.0, 3.0));
    let NodeKind::Path(pn) = &doc.node(id).unwrap().kind else { panic!() };
    assert_eq!(pn.path.anchors[0].out_handle, v(2.0, 3.0));
    assert_eq!(pn.path.anchors[0].in_handle, v(-2.0, -3.0));
    assert_eq!(pn.path.anchors[1].pos, v(4.0, 4.0));

    let mut q = press(v(4.0, 4.0));
    q.anchor = Some((id, 1));
    drag_start(ToolKind::DirectSelect, &q, &doc, &mut sel, &mut state);
    match &state {
        Interaction::MovingAnchors { items, last_world: last, accumulated } => {
            assert_eq!(items, &vec![(id, 1)]);
            assert_eq!(*last, v(4.0, 4.0));
            assert_eq!(*accumulated, v(0.0, 0.0));
        }
        _ => panic!("expected an anchor drag"),
    }
    // Not a handle drag: the document stays as it is.
    drag_handle_to(&mut doc, &state, v(9.0, 9.0));
    let NodeKind::Path(pn) = &doc.node(id).unwrap().kind else { panic!() };
    assert_eq!(pn.path.anchors[0].out_handle, v(2.0, 3.0));

    let mut r = press(v(50.0, 50.0));
    r.shift = true;
    drag_start(ToolKind::DirectSelect, &r, &doc, &mut sel, &mut state);
    assert_eq!(sel.to_vec(), vec![id]);
    assert!(matches!(state, Interaction::MovingAnchors { .. }));
}
