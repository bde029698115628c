//! What happens to a document read from a `.ilm` file before it is used.

use vstd::prelude::*;
use crate::arena::NodeId;
use crate::doc::{Document, Node, NodeKind, CURRENT_VERSION};
use crate::image::hashed_from;

verus! {

#[verifier::external_type_specification]
#[verifier::external_body]
pub struct ExStdIoError(std::io::Error);

#[verifier::external_type_specification]
#[verifier::external_body]
pub struct ExJsonError(serde_json::Error);

/// Why a document could not be saved or opened.
#[derive(Debug)]
pub enum IoError {
    Io(std::io::Error),
    Json(serde_json::Error),
    /// The file was written by a newer format version.
    UnsupportedVersion(u32),
    Svg(String),
}

/// `b` is `a` with, at most, its image's texture-cache key changed.
pub open spec fn same_but_hash(a: Node, b: Node) -> bool {
    &&& a.name@ == b.name@
    &&& match (a.kind, b.kind) {
        (NodeKind::Image(x), NodeKind::Image(y)) => {
            &&& x.position == y.position
            &&& x.size == y.size
            &&& x.style == y.style
            &&& x.image.bytes@ == y.image.bytes@
            &&& x.image.width == y.image.width
            &&& x.image.height == y.image.height
        },
        (ka, kb) => ka == kb,
    }
}

/// An image node's texture-cache key is the hash of its bytes; any other
/// node qualifies as it is.
pub open spec fn image_hashed(n: Node) -> bool {
    n.kind matches NodeKind::Image(img) ==> hashed_from(img.image.bytes@, img.image.hash)
}

/// Recompute the texture-cache key of every image node from its bytes
/// (the keys are not stored in files).
pub fn rehash_images(doc: &mut Document)
    ensures
        final(doc).node_map().dom() == old(doc).node_map().dom(),
        forall|n: NodeId| #[trigger] final(doc).node_map().dom().contains(n)
            ==> same_but_hash(old(doc).node_map()[n], final(doc).node_map()[n]),
        forall|n: NodeId| #[trigger] final(doc).node_map().dom().contains(n)
            ==> image_hashed(final(doc).node_map()[n]),
        final(doc).layer_map() == old(doc).layer_map(),
        final(doc).layers@ == old(doc).layers@,
        final(doc).same_meta(old(doc)),
        old(doc).wf() ==> final(doc).wf(),
{
    let ids = doc.node_ids();
    let ghost d0 = *old(doc);
    let mut i: usize = 0;
    while i < ids.len()
        invariant
            i <= ids@.len(),
            ids@.to_set() == d0.node_map().dom(),
            d0 == *old(doc),
            doc.node_map().dom() == d0.node_map().dom(),
            forall|n: NodeId| #[trigger] doc.node_map().dom().contains(n)
                ==> same_but_hash(d0.node_map()[n], doc.node_map()[n]),
            forall|j: int| 0 <= j < i ==> image_hashed(#[trigger] doc.node_map()[ids@[j]]),
            doc.layer_map() == d0.layer_map(),
            doc.layers@ == d0.layers@,
            doc.same_meta(&d0),
        decreases ids@.len() - i,
    {
        let id = ids[i];
        assert(ids@.to_set().contains(id));
        let ghost dp = *doc;
        let node = doc.node_mut(id);
        match &mut node.kind {
            NodeKind::Image(img) => {
                img.image.recompute_hash();
            },
            _ => {},
        }
        proof {
            assert(doc.node_map().dom() =~= dp.node_map().dom());
            assert forall|n: NodeId| #[trigger] doc.node_map().dom().contains(n)
                implies same_but_hash(d0.node_map()[n], doc.node_map()[n]) by {
                if n == id {
                    assert(same_but_hash(d0.node_map()[n], dp.node_map()[n]));
                }
            }
            assert(image_hashed(doc.node_map()[id]));
            assert forall|j: int| 0 <= j < i + 1 implies image_hashed(#[trigger] doc.node_map()[ids@[j]]) by {
                if ids@[j] != id {
                    assert(image_hashed(dp.node_map()[ids@[j]]));
                }
            }
        }
        i += 1;
    }
    proof {
        assert forall|n: NodeId| #[trigger] doc.node_map().dom().contains(n)
            implies image_hashed(doc.node_map()[n]) by {
            assert(ids@.to_set().contains(n));
            let j = choose|j: int| 0 <= j < ids@.len() && ids@[j] == n;
            assert(image_hashed(doc.node_map()[ids@[j]]));
        }
        if d0.wf() {
            assert forall|l: crate::arena::LayerId, n: NodeId| #[trigger] doc.owns(l, n)
                implies doc.node_map().dom().contains(n) by {
                assert(d0.owns(l, n));
            }
            assert forall|l1: crate::arena::LayerId, l2: crate::arena::LayerId, n: NodeId|
                #[trigger] doc.owns(l1, n) && #[trigger] doc.owns(l2, n) implies l1 == l2 by {
                assert(d0.owns(l1, n) && d0.owns(l2, n));
            }
        }
    }
}

/// Accept a document just parsed from a file: refuse one written by a newer
/// format version, otherwise recompute its image keys.
pub fn accept_loaded(doc: Document) -> (r: Result<Document, IoError>)
    ensures
        r is Err <==> doc.version > CURRENT_VERSION,
        r matches Err(e) ==> e == IoError::UnsupportedVersion(doc.version),
        r matches Ok(d) ==> {
            &&& d.node_map().dom() == doc.node_map().dom()
            &&& forall|n: NodeId| #[trigger] d.node_map().dom().contains(n)
                ==> same_but_hash(doc.node_map()[n], d.node_map()[n])
            &&& forall|n: NodeId| #[trigger] d.node_map().dom().contains(n) ==> image_hashed(d.node_map()[n])
            &&& d.layer_map() == doc.layer_map()
            &&& d.layers@ == doc.layers@
            &&& d.same_meta(&doc)
            &&& doc.wf() ==> d.wf()
        },
{
    if doc.version > CURRENT_VERSION {
        return Err(IoError::UnsupportedVersion(doc.version));
    }
    let mut doc = doc;
    rehash_images(&mut doc);
    Ok(doc)
}

} // verus!
