//! Raster image node.
//!
//! `ImageData` owns the encoded bytes as given (PNG / JPEG / WEBP / BMP); they
//! are never re-encoded. Renderers decode on first use and cache a texture
//! keyed by `hash`.

use std::collections::hash_map::DefaultHasher;
use std::hash::{Hash, Hasher};
use vstd::prelude::*;
use vstd::std_specs::hash::DefaultHasherAdditionalSpecFns;
use crate::style::{Style, Vec2};

verus! {

#[verifier::external_type_specification]
#[verifier::external_body]
pub struct ExImageError(::image::ImageError);

/// Why an image could not be placed.
#[derive(Debug)]
pub enum ImageDecodeError {
    Decode(::image::ImageError),
    UnknownFormat,
}

/// `bytes` begins with `prefix`.
pub open spec fn starts_with(bytes: Seq<u8>, prefix: Seq<u8>) -> bool {
    prefix.len() <= bytes.len() && bytes.subrange(0, prefix.len() as int) == prefix
}

/// Whether `image::guess_format` recognises the signature at the start of
/// `bytes`: one of the magic byte sequences of its table (PNG, JPEG, GIF,
/// WebP, TIFF, DDS, BMP, ICO, HDR, AVIF, OpenEXR, QOI, PNM, farbfeld). The
/// WebP entry leaves four bytes free (after `RIFF`), the AVIF entry two.
pub open spec fn known_image_signature(bytes: Seq<u8>) -> bool {
    ||| starts_with(bytes, seq![0x89u8, 0x50, 0x4e, 0x47, 0x0d, 0x0a, 0x1a, 0x0a])
    ||| starts_with(bytes, seq![0xffu8, 0xd8, 0xff])
    ||| starts_with(bytes, seq![0x47u8, 0x49, 0x46, 0x38, 0x39, 0x61])
    ||| starts_with(bytes, seq![0x47u8, 0x49, 0x46, 0x38, 0x37, 0x61])
    ||| (starts_with(bytes, seq![0x52u8, 0x49, 0x46, 0x46]) && 12 <= bytes.len()
        && bytes.subrange(8, 12) == seq![0x57u8, 0x45, 0x42, 0x50])
    ||| starts_with(bytes, seq![0x4du8, 0x4d, 0x00, 0x2a])
    ||| starts_with(bytes, seq![0x49u8, 0x49, 0x2a, 0x00])
    ||| starts_with(bytes, seq![0x44u8, 0x44, 0x53, 0x20])
    ||| starts_with(bytes, seq![0x42u8, 0x4d])
    ||| starts_with(bytes, seq![0x00u8, 0x00, 0x01, 0x00])
    ||| starts_with(bytes, seq![0x23u8, 0x3f, 0x52, 0x41, 0x44, 0x49, 0x41, 0x4e, 0x43, 0x45])
    ||| (starts_with(bytes, seq![0x00u8, 0x00]) && 12 <= bytes.len()
        && bytes.subrange(4, 12) == seq![0x66u8, 0x74, 0x79, 0x70, 0x61, 0x76, 0x69, 0x66])
    ||| starts_with(bytes, seq![0x76u8, 0x2f, 0x31, 0x01])
    ||| starts_with(bytes, seq![0x71u8, 0x6f, 0x69, 0x66])
    ||| (starts_with(bytes, seq![0x50u8]) && 2 <= bytes.len() && 0x31 <= bytes[1] <= 0x37)
    ||| starts_with(bytes, seq![0x66u8, 0x61, 0x72, 0x62, 0x66, 0x65, 0x6c, 0x64])
}

/// The pixel size that `image::load_from_memory` decodes from `bytes`, if it decodes.
pub uninterp spec fn decoded_size(bytes: Seq<u8>) -> Option<(u32, u32)>;

/// Calls `image::guess_format`, which compares the leading bytes with its
/// table of magic byte sequences; claims that it succeeds exactly when one of
/// them matches.
#[verifier::external_body]
fn guess_format(bytes: &[u8]) -> (r: Result<(), ::image::ImageError>)
    ensures
        r.is_ok() == known_image_signature(bytes@),
{
    match ::image::guess_format(bytes) {
        Ok(_) => Ok(()),
        Err(e) => Err(e),
    }
}

/// Calls `image::load_from_memory` and reads the decoded width and height;
/// claims they are a function of the bytes alone.
#[verifier::external_body]
fn load_size(bytes: &[u8]) -> (r: Result<(u32, u32), ::image::ImageError>)
    ensures
        r.is_ok() == decoded_size(bytes@).is_some(),
        r matches Ok(size) ==> decoded_size(bytes@) == Some(size),
{
    match ::image::load_from_memory(bytes) {
        Ok(img) => Ok((img.width(), img.height())),
        Err(e) => Err(e),
    }
}

/// Feeds `bytes` into `h` through `<[u8] as Hash>::hash`, which writes a
/// length prefix and then the bytes in one write. Claims just that: two more
/// writes, the second the bytes themselves. The prefix encodes the length
/// as a `usize`, so its bytes depend on the machine and are left open.
#[verifier::external_body]
fn hash_slice(bytes: &[u8], h: &mut DefaultHasher)
    ensures
        exists|p: Seq<u8>| final(h)@ == old(h)@.push(p).push(bytes@),
{
    bytes.hash(h)
}

/// `hash` is what a fresh `DefaultHasher` finishes with after a length
/// prefix `p` (left open) and then `bytes` were written to it.
pub open spec fn hashed_from(bytes: Seq<u8>, hash: u64) -> bool {
    exists|p: Seq<u8>| hash == DefaultHasher::spec_finish(seq![p, bytes])
}

/// Hash of an image's bytes, used as a texture-cache key.
fn hash_bytes(bytes: &[u8]) -> (r: u64)
    ensures
        hashed_from(bytes@, r),
{
    let mut h = DefaultHasher::new();
    hash_slice(bytes, &mut h);
    proof {
        let p = choose|p: Seq<u8>| h@ == Seq::<Seq<u8>>::empty().push(p).push(bytes@);
        assert(h@ =~= seq![p, bytes@]);
    }
    h.finish()
}

/// Raw image payload: encoded bytes plus decoded pixel size.
#[derive(Clone, Debug)]
pub struct ImageData {
    pub bytes: Vec<u8>,
    pub width: u32,
    pub height: u32,
    /// Texture-cache key, recomputed from `bytes` (never persisted).
    pub hash: u64,
}

impl ImageData {
    /// Check the bytes' format and read the pixel size; keep the bytes as given.
    pub fn from_bytes(bytes: Vec<u8>) -> (r: Result<ImageData, ImageDecodeError>)
        ensures
            r.is_ok() <==> known_image_signature(bytes@) && decoded_size(bytes@).is_some(),
            r matches Ok(d) ==> d.bytes@ == bytes@ && decoded_size(bytes@) == Some(
                (d.width, d.height),
            ) && hashed_from(bytes@, d.hash),
            r matches Err(e) ==> e is Decode,
    {
        match guess_format(bytes.as_slice()) {
            Ok(()) => {},
            Err(e) => return Err(ImageDecodeError::Decode(e)),
        }
        match load_size(bytes.as_slice()) {
            Ok((width, height)) => {
                let hash = hash_bytes(bytes.as_slice());
                Ok(ImageData { bytes, width, height, hash })
            },
            Err(e) => Err(ImageDecodeError::Decode(e)),
        }
    }

    /// Refresh `hash` from `bytes`; nothing else changes.
    pub fn recompute_hash(&mut self)
        ensures
            final(self).bytes@ == old(self).bytes@,
            final(self).width == old(self).width,
            final(self).height == old(self).height,
            hashed_from(old(self).bytes@, final(self).hash),
    {
        self.hash = hash_bytes(self.bytes.as_slice());
    }
}

/// An axis-aligned raster placement; `position` is the world-space top-left
/// and `size` the placed size in world units.
#[derive(Clone, Debug)]
pub struct ImageNode {
    pub position: Vec2,
    pub size: Vec2,
    pub style: Style,
    pub image: ImageData,
}

} // verus!
