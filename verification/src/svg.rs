//! The decisions behind SVG export: which layers and nodes are written, in
//! what order, and the names, ids and attribute values they get.

use vstd::prelude::*;
use crate::arena::{LayerId, NodeId};
use crate::doc::{Document, LayerKind};
use crate::selection::Selection;
use crate::strings::push_char;
use crate::style::{Color, GradientStop, LineCap, LineJoin, Paint, Vec2, F32_ONE, F32_ZERO};
use crate::text::FontFamily;

verus! {

/// Options controlling SVG export.
#[derive(Clone, Copy, Debug, PartialEq, Eq, Structural)]
pub struct ExportOptions {
    /// When `false` (default), reference layers are left out.
    pub include_reference_layers: bool,
    /// Pretty-print with indentation.
    pub indent: bool,
}

impl Default for ExportOptions {
    fn default() -> (o: ExportOptions)
        ensures
            !o.include_reference_layers,
            o.indent,
    {
        ExportOptions { include_reference_layers: false, indent: true }
    }
}

/// Whether `char::is_alphanumeric` holds of `c` (Unicode Alphabetic or Numeric).
pub uninterp spec fn alphanumeric(c: char) -> bool;

/// `char::is_alphanumeric`.
#[verifier::external_body]
fn is_alphanumeric(c: char) -> (b: bool)
    ensures
        b == alphanumeric(c),
{
    c.is_alphanumeric()
}

/// A character as it may stand in an SVG id: kept when alphanumeric, `_`
/// or `-`, otherwise `_`.
pub open spec fn id_char(c: char) -> char {
    if alphanumeric(c) || c == '_' || c == '-' { c } else { '_' }
}

/// `name` made fit to be an SVG element id.
pub fn sanitise_id(name: &str) -> (s: String)
    ensures
        s@ == name@.map_values(|c: char| id_char(c)),
{
    let mut s = String::new();
    let ghost f = |c: char| id_char(c);
    for c in it: name.chars()
        invariant
            it.seq() == name@,
            s@ == name@.take(it.index() as int).map_values(f),
            f == (|c: char| id_char(c)),
    {
        let keep = is_alphanumeric(c) || c == '_' || c == '-';
        let ghost before = s@;
        if keep {
            push_char(&mut s, c);
        } else {
            push_char(&mut s, '_');
        }
        proof {
            let i = it.index() as int;
            assert(name@.take(i + 1) =~= name@.take(i).push(c));
            assert(name@.take(i + 1).map_values(f) =~= name@.take(i).map_values(f).push(f(c)));
        }
    }
    assert(name@.take(name@.len() as int) =~= name@);
    s
}

/// Layer `l` of `d` is written: it exists, is visible, and is not a
/// reference layer unless those are included.
pub open spec fn exported(d: Document, l: LayerId, include_reference_layers: bool) -> bool {
    &&& d.layer_map().dom().contains(l)
    &&& d.layer_map()[l].visible
    &&& (include_reference_layers || !(d.layer_map()[l].kind is Reference))
}

/// The layers an export writes, topmost first (the order of `doc.layers`).
/// The same layers bound the exported view box.
pub fn visible_layers(doc: &Document, include_reference_layers: bool) -> (r: Vec<LayerId>)
    ensures
        r@ == doc.layers@.filter(|l: LayerId| exported(*doc, l, include_reference_layers)),
{
    let ghost p = |l: LayerId| exported(*doc, l, include_reference_layers);
    let mut r: Vec<LayerId> = Vec::new();
    let mut i: usize = 0;
    while i < doc.layers.len()
        invariant
            i <= doc.layers@.len(),
            r@ == doc.layers@.take(i as int).filter(p),
            p == (|l: LayerId| exported(*doc, l, include_reference_layers)),
        decreases doc.layers@.len() - i,
    {
        let id = doc.layers[i];
        proof {
            reveal_with_fuel(Seq::<LayerId>::filter, 1);
            assert(doc.layers@.take(i + 1).drop_last() =~= doc.layers@.take(i as int));
            assert(doc.layers@.take(i + 1).last() == id);
        }
        match doc.layer(id) {
            Some(layer) => {
                if layer.visible && (include_reference_layers || !layer.kind.is_reference()) {
                    r.push(id);
                }
            },
            None => {},
        }
        i += 1;
    }
    assert(doc.layers@.take(doc.layers@.len() as int) =~= doc.layers@);
    r
}

/// The layers an export writes in paint order: bottom first (SVG paints in
/// document order, and `layers[0]` is the topmost layer).
pub fn export_order(doc: &Document, opts: &ExportOptions) -> (r: Vec<LayerId>)
    ensures
        r@ == doc.layers@.filter(|l: LayerId| exported(*doc, l, opts.include_reference_layers)).reverse(),
{
    let top_first = visible_layers(doc, opts.include_reference_layers);
    let mut r: Vec<LayerId> = Vec::new();
    let mut i: usize = top_first.len();
    while i > 0
        invariant
            i <= top_first@.len(),
            r@.len() + i == top_first@.len(),
            forall|j: int| 0 <= j < r@.len() ==> r@[j] == top_first@[top_first@.len() - 1 - j],
        decreases i,
    {
        i -= 1;
        r.push(top_first[i]);
    }
    assert(r@ =~= top_first@.reverse());
    r
}

/// The nodes a layer lists that the document holds, in paint order.
pub fn present_nodes(doc: &Document, layer: LayerId) -> (r: Vec<NodeId>)
    requires
        doc.layer_map().dom().contains(layer),
    ensures
        r@ == doc.layer_map()[layer].nodes@.filter(|n: NodeId| doc.node_map().dom().contains(n)),
{
    let l = doc.layer(layer).unwrap();
    let ghost p = |n: NodeId| doc.node_map().dom().contains(n);
    let mut r: Vec<NodeId> = Vec::new();
    let mut i: usize = 0;
    while i < l.nodes.len()
        invariant
            i <= l.nodes@.len(),
            *l == doc.layer_map()[layer],
            r@ == l.nodes@.take(i as int).filter(p),
            p == (|n: NodeId| doc.node_map().dom().contains(n)),
        decreases l.nodes@.len() - i,
    {
        let id = l.nodes[i];
        proof {
            reveal_with_fuel(Seq::<NodeId>::filter, 1);
            assert(l.nodes@.take(i + 1).drop_last() =~= l.nodes@.take(i as int));
            assert(l.nodes@.take(i + 1).last() == id);
        }
        if doc.node(id).is_some() {
            r.push(id);
        }
        i += 1;
    }
    assert(l.nodes@.take(l.nodes@.len() as int) =~= l.nodes@);
    r
}

/// What a selection export writes, layer by layer (topmost first): every
/// existing layer that lists a selected node, with the selected nodes it
/// lists, in paint order.
pub open spec fn selection_plan(d: Document, sel: Set<NodeId>, ls: Seq<LayerId>) -> Seq<(LayerId, Seq<NodeId>)>
    decreases ls.len(),
{
    if ls.len() == 0 {
        seq![]
    } else {
        let rest = selection_plan(d, sel, ls.drop_last());
        let l = ls.last();
        if d.layer_map().dom().contains(l) {
            let picked = d.layer_map()[l].nodes@.filter(|n: NodeId| sel.contains(n));
            if picked.len() > 0 {
                rest.push((l, picked))
            } else {
                rest
            }
        } else {
            rest
        }
    }
}

/// The view of a plan with vectors.
pub open spec fn plan_view(p: Seq<(LayerId, Vec<NodeId>)>) -> Seq<(LayerId, Seq<NodeId>)> {
    p.map_values(|e: (LayerId, Vec<NodeId>)| (e.0, e.1@))
}

/// The selected nodes of layer `l`, in paint order.
fn selected_in_layer(doc: &Document, l: LayerId, selection: &Selection) -> (r: Vec<NodeId>)
    requires
        doc.layer_map().dom().contains(l),
    ensures
        r@ == doc.layer_map()[l].nodes@.filter(|n: NodeId| selection@.contains(n)),
{
    let layer = doc.layer(l).unwrap();
    let ghost p = |n: NodeId| selection@.contains(n);
    let mut r: Vec<NodeId> = Vec::new();
    let mut i: usize = 0;
    while i < layer.nodes.len()
        invariant
            i <= layer.nodes@.len(),
            *layer == doc.layer_map()[l],
            r@ == layer.nodes@.take(i as int).filter(p),
            p == (|n: NodeId| selection@.contains(n)),
        decreases layer.nodes@.len() - i,
    {
        let id = layer.nodes[i];
        proof {
            reveal_with_fuel(Seq::<NodeId>::filter, 1);
            assert(layer.nodes@.take(i + 1).drop_last() =~= layer.nodes@.take(i as int));
            assert(layer.nodes@.take(i + 1).last() == id);
        }
        if selection.contains(id) {
            r.push(id);
        }
        i += 1;
    }
    assert(layer.nodes@.take(layer.nodes@.len() as int) =~= layer.nodes@);
    r
}

/// The layers and nodes an export of `selection` writes; see `selection_plan`.
/// (An empty selection exports the whole document instead.)
pub fn selection_layers(doc: &Document, selection: &Selection) -> (r: Vec<(LayerId, Vec<NodeId>)>)
    ensures
        plan_view(r@) == selection_plan(*doc, selection@, doc.layers@),
{
    let mut r: Vec<(LayerId, Vec<NodeId>)> = Vec::new();
    let mut i: usize = 0;
    while i < doc.layers.len()
        invariant
            i <= doc.layers@.len(),
            plan_view(r@) == selection_plan(*doc, selection@, doc.layers@.take(i as int)),
        decreases doc.layers@.len() - i,
    {
        let id = doc.layers[i];
        let ghost t1 = doc.layers@.take(i + 1);
        proof {
            assert(t1.drop_last() =~= doc.layers@.take(i as int));
            assert(t1.last() == id);
        }
        let ghost before = r@;
        if doc.layer(id).is_some() {
            let picked = selected_in_layer(doc, id, selection);
            if picked.len() > 0 {
                r.push((id, picked));
                assert(plan_view(r@) =~= plan_view(before).push((id, picked@)));
            }
        }
        i += 1;
    }
    assert(doc.layers@.take(doc.layers@.len() as int) =~= doc.layers@);
    r
}

/// The MIME type an embedded image is written with, from its first bytes.
pub open spec fn spec_image_mime(bytes: Seq<u8>) -> Seq<char> {
    if bytes.len() >= 4 && bytes[0] == 0x89 && bytes[1] == 0x50 && bytes[2] == 0x4e && bytes[3] == 0x47 {
        "image/png"@
    } else if bytes.len() >= 2 && bytes[0] == 0xff && bytes[1] == 0xd8 {
        "image/jpeg"@
    } else {
        "image/png"@
    }
}

/// PNG signature → `image/png`, JPEG signature → `image/jpeg`, anything
/// else falls back to `image/png`.
pub fn image_mime(bytes: &[u8]) -> (m: &'static str)
    ensures
        m@ == spec_image_mime(bytes@),
{
    if bytes.len() >= 4 && bytes[0] == 0x89 && bytes[1] == 0x50 && bytes[2] == 0x4e && bytes[3] == 0x47 {
        "image/png"
    } else if bytes.len() >= 2 && bytes[0] == 0xff && bytes[1] == 0xd8 {
        "image/jpeg"
    } else {
        "image/png"
    }
}

/// Lower-case hexadecimal digit of `d` (`d < 16`).
pub open spec fn hex_digit(d: u8) -> char {
    if d < 10 {
        (('0' as u8) + d) as char
    } else {
        (('a' as u8) + (d - 10)) as char
    }
}

fn hex_char(d: u8) -> (c: char)
    requires
        d < 16,
    ensures
        c == hex_digit(d),
{
    if d < 10 {
        ((48u8 + d) as char)
    } else {
        ((97u8 + (d - 10)) as char)
    }
}

/// The SVG colour `#rrggbb` (lower-case hex) of three channel bytes.
pub fn hex_color(r: u8, g: u8, b: u8) -> (s: String)
    ensures
        s@ == seq!['#', hex_digit(r / 16), hex_digit(r % 16), hex_digit(g / 16), hex_digit(g % 16),
            hex_digit(b / 16), hex_digit(b % 16)],
{
    let mut s = String::new();
    push_char(&mut s, '#');
    push_char(&mut s, hex_char(r / 16));
    push_char(&mut s, hex_char(r % 16));
    push_char(&mut s, hex_char(g / 16));
    push_char(&mut s, hex_char(g % 16));
    push_char(&mut s, hex_char(b / 16));
    push_char(&mut s, hex_char(b % 16));
    assert(s@ =~= seq!['#', hex_digit(r / 16), hex_digit(r % 16), hex_digit(g / 16), hex_digit(g % 16),
        hex_digit(b / 16), hex_digit(b % 16)]);
    s
}

/// The segments of a path of `n` anchors: each joins anchor `i` to the next,
/// and a closed path has one more joining the last anchor to the first.
pub fn segment_pairs(n: usize, closed: bool) -> (r: Vec<(usize, usize)>)
    ensures
        r@.len() == (if n == 0 { 0 } else if closed { n as int } else { n - 1 }),
        forall|i: int| 0 <= i < r@.len() ==> #[trigger] r@[i] == (i as usize, ((i + 1) % (n as int)) as usize),
{
    let mut r: Vec<(usize, usize)> = Vec::new();
    if n == 0 {
        return r;
    }
    let segments = if closed { n } else { n - 1 };
    let mut i: usize = 0;
    while i < segments
        invariant
            segments == (if closed { n } else { (n - 1) as usize }),
            n > 0,
            i <= segments,
            r@.len() == i,
            forall|j: int| 0 <= j < i ==> #[trigger] r@[j] == (j as usize, ((j + 1) % (n as int)) as usize),
        decreases segments - i,
    {
        let next = if i + 1 == n { 0 } else { i + 1 };
        proof {
            let a = (i + 1) as int;
            let m = n as int;
            if a == m {
                vstd::arithmetic::div_mod::lemma_mod_self_0(m);
            } else {
                vstd::arithmetic::div_mod::lemma_small_mod(a as nat, m as nat);
            }
        }
        assert(next == ((i + 1) as int % (n as int)) as usize);
        r.push((i, next));
        i += 1;
    }
    r
}

impl FontFamily {
    pub open spec fn spec_svg_family(self) -> Seq<char> {
        match self {
            FontFamily::Proportional => "sans-serif"@,
            FontFamily::Monospace => "monospace"@,
        }
    }

    /// The SVG `font-family` the family is written as.
    pub fn svg_family(self) -> (s: &'static str)
        ensures
            s@ == self.spec_svg_family(),
    {
        match self {
            FontFamily::Proportional => "sans-serif",
            FontFamily::Monospace => "monospace",
        }
    }
}

impl LineCap {
    /// The `stroke-linecap` written for the cap; none for butt (SVG's default).
    pub fn svg_value(self) -> (s: Option<&'static str>)
        ensures
            s is None <==> self == LineCap::Butt,
            s matches Some(v) ==> v@ == (if self == LineCap::Round { "round"@ } else { "square"@ }),
    {
        match self {
            LineCap::Butt => None,
            LineCap::Round => Some("round"),
            LineCap::Square => Some("square"),
        }
    }
}

impl LineJoin {
    /// The `stroke-linejoin` written for the join; none for miter (SVG's default).
    pub fn svg_value(self) -> (s: Option<&'static str>)
        ensures
            s is None <==> self == LineJoin::Miter,
            s matches Some(v) ==> v@ == (if self == LineJoin::Round { "round"@ } else { "bevel"@ }),
    {
        match self {
            LineJoin::Miter => None,
            LineJoin::Round => Some("round"),
            LineJoin::Bevel => Some("bevel"),
        }
    }
}

/// Joining `lines` with newlines.
pub open spec fn joined(lines: Seq<Seq<char>>) -> Seq<char>
    decreases lines.len(),
{
    if lines.len() == 0 {
        seq![]
    } else if lines.len() == 1 {
        lines[0]
    } else {
        joined(lines.drop_last()) + seq!['\n'] + lines.last()
    }
}

/// The lines of a text (what `str::split('\n')` gives): joined with newlines
/// they give back the text, and none holds a newline.
pub fn split_lines(text: &str) -> (r: Vec<String>)
    ensures
        r@.len() >= 1,
        joined(r@.map_values(|s: String| s@)) == text@,
        forall|i: int| 0 <= i < r@.len() ==> !(#[trigger] r@[i])@.contains('\n'),
{
    let mut done: Vec<String> = Vec::new();
    let mut cur = String::new();
    let ghost f = |s: String| s@;
    for c in it: text.chars()
        invariant
            it.seq() == text@,
            f == (|s: String| s@),
            joined(done@.map_values(f).push(cur@)) == text@.take(it.index() as int),
            !cur@.contains('\n'),
            forall|i: int| 0 <= i < done@.len() ==> !(#[trigger] done@[i])@.contains('\n'),
    {
        let ghost k = it.index() as int;
        assert(text@.take(k + 1) =~= text@.take(k).push(c));
        if c == '\n' {
            let mut fresh = String::new();
            std::mem::swap(&mut fresh, &mut cur);
            let ghost prev = done@.map_values(f);
            done.push(fresh);
            proof {
                assert(done@.map_values(f) =~= prev.push(fresh@));
                let full = done@.map_values(f).push(cur@);
                assert(cur@ =~= Seq::<char>::empty());
                assert(full.drop_last() =~= prev.push(fresh@));
                assert(joined(full) == joined(prev.push(fresh@)) + seq!['\n'] + cur@);
                assert(prev.push(fresh@).drop_last() =~= prev);
                if prev.len() == 0 {
                    assert(joined(prev.push(fresh@)) == fresh@);
                } else {
                    assert(joined(prev.push(fresh@)) == joined(prev) + seq!['\n'] + fresh@);
                }
                assert(joined(full) =~= text@.take(k + 1));
            }
        } else {
            let ghost before = cur@;
            push_char(&mut cur, c);
            proof {
                let full0 = done@.map_values(f).push(before);
                let full1 = done@.map_values(f).push(cur@);
                assert(full1.drop_last() =~= full0.drop_last());
                assert(!cur@.contains('\n')) by {
                    if cur@.contains('\n') {
                        let j = choose|j: int| 0 <= j < cur@.len() && cur@[j] == '\n';
                        assert(before[j] == '\n');
                    }
                }
                if done@.len() == 0 {
                    assert(joined(full1) == cur@);
                    assert(joined(full0) == before);
                } else {
                    assert(joined(full1) == joined(full1.drop_last()) + seq!['\n'] + cur@);
                    assert(joined(full0) == joined(full0.drop_last()) + seq!['\n'] + before);
                }
                assert(joined(full1) =~= text@.take(k + 1));
            }
        }
    }
    let ghost prev = done@.map_values(f);
    done.push(cur);
    assert(done@.map_values(f) =~= prev.push(cur@));
    assert(text@.take(text@.len() as int) =~= text@);
    done
}


/// The single colour a paint is written with: a solid paint's colour, a
/// gradient's first stop (black when it has none).
pub open spec fn spec_export_color(p: Paint) -> Color {
    match p {
        Paint::Solid(c) => c,
        Paint::LinearGradient { stops, .. } => if stops@.len() > 0 {
            stops@[0].color
        } else {
            Color { r: F32_ZERO, g: F32_ZERO, b: F32_ZERO, a: F32_ONE }
        },
        Paint::RadialGradient { stops, .. } => if stops@.len() > 0 {
            stops@[0].color
        } else {
            Color { r: F32_ZERO, g: F32_ZERO, b: F32_ZERO, a: F32_ONE }
        },
    }
}

impl Paint {
    pub fn export_color(&self) -> (c: Color)
        ensures
            c == spec_export_color(*self),
    {
        match self {
            Paint::Solid(c) => *c,
            Paint::LinearGradient { stops, .. } => if stops.len() > 0 { stops[0].color } else { Color::black() },
            Paint::RadialGradient { stops, .. } => if stops.len() > 0 { stops[0].color } else { Color::black() },
        }
    }
}

/// The colour a paint exports as: a solid paint its colour, a gradient its
/// first stop's colour (opaque black when it has no stop), the same for a
/// linear and a radial gradient with the same stops.
pub proof fn law_export_color(c: Color, start: Vec2, end: Vec2, center: Vec2, radius: u64, stops: Vec<GradientStop>)
    ensures
        spec_export_color(Paint::Solid(c)) == c,
        stops@.len() > 0 ==> spec_export_color(Paint::LinearGradient { start, end, stops }) == stops@[0].color,
        stops@.len() > 0 ==> spec_export_color(Paint::RadialGradient { center, radius, stops }) == stops@[0].color,
        stops@.len() == 0 ==> spec_export_color(Paint::RadialGradient { center, radius, stops })
            == (Color { r: F32_ZERO, g: F32_ZERO, b: F32_ZERO, a: F32_ONE }),
        spec_export_color(Paint::LinearGradient { start, end, stops })
            == spec_export_color(Paint::RadialGradient { center, radius, stops }),
{
}

/// A selection export leaves no selected node out and puts nothing else
/// in: every selected node that a layer of `ls` lists is in that layer's
/// entry, and every entry names a layer of `ls` that exists, with only
/// selected nodes that it lists, in its paint order.
pub proof fn law_selection_plan(d: Document, sel: Set<NodeId>, ls: Seq<LayerId>)
    ensures
        forall|l: LayerId, n: NodeId| #![trigger ls.contains(l), d.layer_map()[l].nodes@.contains(n), sel.contains(n)]
            ls.contains(l) && d.layer_map().dom().contains(l) && d.layer_map()[l].nodes@.contains(n) && sel.contains(n)
            ==> exists|i: int| 0 <= i < selection_plan(d, sel, ls).len()
                && (#[trigger] selection_plan(d, sel, ls)[i]).0 == l
                && selection_plan(d, sel, ls)[i].1.contains(n),
        forall|i: int| #![trigger selection_plan(d, sel, ls)[i]] 0 <= i < selection_plan(d, sel, ls).len() ==> {
            let (l, ns) = selection_plan(d, sel, ls)[i];
            &&& ls.contains(l)
            &&& d.layer_map().dom().contains(l)
            &&& ns.len() > 0
            &&& ns == d.layer_map()[l].nodes@.filter(|n: NodeId| sel.contains(n))
        },
        forall|i: int, j: int| 0 <= i < j < selection_plan(d, sel, ls).len() ==> exists|a: int, b: int|
            0 <= a < b < ls.len() && ls[a] == (#[trigger] selection_plan(d, sel, ls)[i]).0
                && ls[b] == (#[trigger] selection_plan(d, sel, ls)[j]).0,
    decreases ls.len(),
{
    if ls.len() > 0 {
        let p = ls.drop_last();
        law_selection_plan(d, sel, p);
        let rest = selection_plan(d, sel, p);
        let plan = selection_plan(d, sel, ls);
        let last = ls.last();
        assert(ls[ls.len() - 1] == last);
        assert forall|y: LayerId| p.contains(y) implies ls.contains(y) by {
            let j = choose|j: int| 0 <= j < p.len() && p[j] == y;
            assert(ls[j] == y);
        }
        assert forall|i: int| 0 <= i < rest.len() implies plan[i] == rest[i] by {}
        assert forall|l: LayerId, n: NodeId| #![trigger ls.contains(l), d.layer_map()[l].nodes@.contains(n), sel.contains(n)]
            ls.contains(l) && d.layer_map().dom().contains(l) && d.layer_map()[l].nodes@.contains(n) && sel.contains(n)
            implies exists|i: int| 0 <= i < plan.len() && (#[trigger] plan[i]).0 == l && plan[i].1.contains(n) by {
            if l == last {
                let nodes = d.layer_map()[l].nodes@;
                let k = choose|k: int| 0 <= k < nodes.len() && nodes[k] == n;
                nodes.lemma_filter_contains(|m: NodeId| sel.contains(m), k);
                let picked = nodes.filter(|m: NodeId| sel.contains(m));
                assert(picked.len() > 0);
                assert(plan[plan.len() - 1] == (l, picked));
            } else {
                let j = choose|j: int| 0 <= j < ls.len() && ls[j] == l;
                assert(j < p.len());
                assert(p[j] == l);
                assert(p.contains(l));
                let i = choose|i: int| 0 <= i < rest.len() && (#[trigger] rest[i]).0 == l && rest[i].1.contains(n);
                assert(plan[i] == rest[i]);
            }
        }
        assert forall|i: int| #![trigger plan[i]] 0 <= i < plan.len() implies {
            let (l, ns) = plan[i];
            &&& ls.contains(l)
            &&& d.layer_map().dom().contains(l)
            &&& ns.len() > 0
            &&& ns == d.layer_map()[l].nodes@.filter(|n: NodeId| sel.contains(n))
        } by {
            if i < rest.len() {
                assert(plan[i] == rest[i]);
                assert(rest[i] == rest[i]);
                assert(p.contains(rest[i].0));
            }
        }
        assert forall|i: int, j: int| 0 <= i < j < plan.len() implies exists|a: int, b: int|
            0 <= a < b < ls.len() && ls[a] == (#[trigger] plan[i]).0 && ls[b] == (#[trigger] plan[j]).0 by {
            if j < rest.len() {
                assert(plan[i] == rest[i] && plan[j] == rest[j]);
                let (a, b) = choose|a: int, b: int| 0 <= a < b < p.len() && p[a] == (#[trigger] rest[i]).0
                    && p[b] == (#[trigger] rest[j]).0;
                assert(ls[a] == p[a] && ls[b] == p[b]);
            } else {
                assert(plan[i] == rest[i]);
                assert(p.contains(rest[i].0));
                let a = choose|a: int| 0 <= a < p.len() && p[a] == rest[i].0;
                assert(ls[a] == p[a]);
                assert(plan[j].0 == last);
                assert(ls[ls.len() - 1] == plan[j].0);
            }
        }
    }
}

} // verus!
