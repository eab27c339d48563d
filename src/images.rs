//! Registered images, reference counted and addressed by id.
use std::collections::HashMap;
use std::sync::Arc;
use vstd::prelude::*;

verus! {

broadcast use vstd::std_specs::hash::group_hash_axioms;

#[verifier::external_type_specification]
#[verifier::external_body]
pub struct ExImageData(peniko::ImageData);

/// Layout of the pixel bytes handed to `register`.
#[derive(Clone, Copy, PartialEq, Eq, Debug, Structural)]
pub enum PixelFormat {
    /// 32-bit RGBA with 8-bit channels.
    Rgba8,
    /// 32-bit BGRA with 8-bit channels.
    Bgra8,
}

/// How the pixels encode alpha.
#[derive(Clone, Copy, PartialEq, Eq, Debug, Structural)]
pub enum AlphaType {
    /// Straight (unpremultiplied) alpha.
    Alpha,
    /// Colours premultiplied by alpha.
    AlphaPremultiplied,
}

/// Why an image operation was refused.
#[derive(Clone, PartialEq, Eq, Debug)]
pub enum ImageError {
    /// The bytes could not be decoded as an image; the decoder's message.
    Decode(String),
    /// Only RGBA8 pixels are accepted.
    UnsupportedFormat,
    /// The pixel data is not `width * height * 4` bytes long.
    InvalidLength { expected: u128, actual: usize },
    /// No image is registered under this id.
    NotFound(i32),
    /// Every id has been handed out.
    IdsExhausted,
    /// The reference count cannot grow any further.
    RefcountOverflow,
}

/// A registered image with its reference count.
pub struct ImageEntry {
    pub image: peniko::ImageData,
    pub refcount: usize,
    pub width: u32,
    pub height: u32,
}

/// Relies on `peniko::Blob::new` and the `peniko::ImageData` fields: packs the pixels,
/// format, alpha handling and size into an image value; nothing is checked.
#[verifier::external_body]
fn make_image(
    pixels: Vec<u8>,
    width: u32,
    height: u32,
    format: PixelFormat,
    alpha_type: AlphaType,
) -> peniko::ImageData {
    peniko::ImageData {
        data: peniko::Blob::new(Arc::new(pixels)),
        format: match format {
            PixelFormat::Rgba8 => peniko::ImageFormat::Rgba8,
            PixelFormat::Bgra8 => peniko::ImageFormat::Bgra8,
        },
        alpha_type: match alpha_type {
            AlphaType::Alpha => peniko::ImageAlphaType::Alpha,
            AlphaType::AlphaPremultiplied => peniko::ImageAlphaType::AlphaPremultiplied,
        },
        width,
        height,
    }
}

/// The RGBA8 pixels, width and height that decoding `bytes` as an encoded image gives,
/// or `None` when they cannot be decoded.
pub uninterp spec fn decoded_rgba8(bytes: Seq<u8>) -> Option<(Seq<u8>, u32, u32)>;

/// The byte length RGBA8 pixel data of this size must have.
pub open spec fn rgba8_len(width: u32, height: u32) -> int {
    width as int * height as int * 4
}

/// Images by id. Ids are handed out in increasing order from 0 and never reused.
pub struct ImageManager {
    images: HashMap<i32, ImageEntry>,
    next_id: i32,
}

impl ImageManager {
    /// The registered images by id.
    pub closed spec fn view(&self) -> Map<i32, ImageEntry> {
        self.images@
    }

    /// The id the next registration will get.
    pub closed spec fn next_id(&self) -> int {
        self.next_id as int
    }

    /// Every registered id is below the next one and every count is at least one.
    pub open spec fn wf(&self) -> bool {
        &&& 0 <= self.next_id()
        &&& forall|k: i32| #[trigger] self@.contains_key(k) ==> 0 <= k < self.next_id()
        &&& forall|k: i32| #[trigger] self@.contains_key(k) ==> self@[k].refcount >= 1
    }

    /// An empty cache whose first id will be 0.
    pub fn new() -> (r: Self)
        ensures
            r.wf(),
            r@ == Map::<i32, ImageEntry>::empty(),
            r.next_id() == 0,
    {
        ImageManager { images: HashMap::new(), next_id: 0 }
    }

    /// Registers a copy of `pixels` as a `width` by `height` image with one reference and
    /// returns its id. Only RGBA8 data of exactly `width * height * 4` bytes is accepted.
    pub fn register(
        &mut self,
        pixels: &[u8],
        width: u32,
        height: u32,
        format: PixelFormat,
        alpha_type: AlphaType,
    ) -> (r: Result<i32, ImageError>)
        requires
            old(self).wf(),
        ensures
            final(self).wf(),
            format != PixelFormat::Rgba8 ==> r == Err::<i32, ImageError>(
                ImageError::UnsupportedFormat,
            ),
            format == PixelFormat::Rgba8 && pixels@.len() != rgba8_len(width, height) ==> r == Err::<
                i32,
                ImageError,
            >(
                ImageError::InvalidLength {
                    expected: rgba8_len(width, height) as u128,
                    actual: pixels@.len() as usize,
                },
            ),
            format == PixelFormat::Rgba8 && pixels@.len() == rgba8_len(width, height)
                && old(self).next_id() == i32::MAX ==> r == Err::<i32, ImageError>(
                ImageError::IdsExhausted,
            ),
            format == PixelFormat::Rgba8 && pixels@.len() == rgba8_len(width, height)
                && old(self).next_id() < i32::MAX ==> ({
                &&& r == Ok::<i32, ImageError>(old(self).next_id() as i32)
                &&& final(self).next_id() == old(self).next_id() + 1
                &&& final(self)@.dom() == old(self)@.dom().insert(old(self).next_id() as i32)
                &&& forall|k: i32| #[trigger]
                    old(self)@.contains_key(k) ==> final(self)@[k] == old(self)@[k]
                &&& final(self)@[old(self).next_id() as i32].refcount == 1
                &&& final(self)@[old(self).next_id() as i32].width == width
                &&& final(self)@[old(self).next_id() as i32].height == height
            }),
            r is Err ==> final(self)@ == old(self)@ && final(self).next_id() == old(self).next_id(),
    {
        if format != PixelFormat::Rgba8 {
            return Err(ImageError::UnsupportedFormat);
        }
        proof {
            assert(width as u128 * height as u128 <= 0xffff_ffff_u128 * 0xffff_ffff_u128)
                by (nonlinear_arith);
        }
        let expected: u128 = width as u128 * height as u128 * 4;
        if pixels.len() as u128 != expected {
            return Err(ImageError::InvalidLength { expected, actual: pixels.len() });
        }
        if self.next_id == i32::MAX {
            return Err(ImageError::IdsExhausted);
        }
        let mut copy: Vec<u8> = Vec::new();
        let mut i: usize = 0;
        while i < pixels.len()
            invariant
                i <= pixels@.len(),
                copy@ == pixels@.subrange(0, i as int),
            decreases pixels@.len() - i,
        {
            copy.push(pixels[i]);
            i = i + 1;
            proof {
                assert(copy@ =~= pixels@.subrange(0, i as int));
            }
        }
        let image = make_image(copy, width, height, format, alpha_type);
        let id = self.next_id;
        self.next_id = id + 1;
        self.images.insert(id, ImageEntry { image, refcount: 1, width, height });
        proof {
            assert forall|k: i32| #[trigger] self@.contains_key(k) implies 0 <= k < self.next_id()
                && self@[k].refcount >= 1 by {
                if k != id {
                    assert(old(self)@.contains_key(k));
                }
            }
        }
        Ok(id)
    }

    /// Decodes an encoded image (PNG or JPEG) into RGBA8 pixels with its width and height.
    /// Relies on `image::guess_format` (the crate's built-in signature table),
    /// `image::load_from_memory_with_format`, `DynamicImage::to_rgba8` and
    /// `ImageBuffer::{dimensions, into_raw}`. With the format given explicitly no
    /// process-wide detection or decoding hook is consulted, so the result depends on the
    /// bytes alone; `to_rgba8` yields exactly four bytes per pixel.
    #[verifier::external_body]
    pub fn load_image_bytes(bytes: &[u8]) -> (r: Result<(Vec<u8>, u32, u32), String>)
        ensures
            match r {
                Ok((pixels, w, h)) => decoded_rgba8(bytes@) == Some((pixels@, w, h))
                    && pixels@.len() == rgba8_len(w, h),
                Err(_) => decoded_rgba8(bytes@) is None,
            },
    {
        let decode_error = |e: image::ImageError| format!("Failed to decode image: {}", e);
        let format = image::guess_format(bytes).map_err(decode_error)?;
        let img = image::load_from_memory_with_format(bytes, format).map_err(decode_error)?;
        let rgba = img.to_rgba8();
        let (width, height) = rgba.dimensions();
        Ok((rgba.into_raw(), width, height))
    }

    /// Decodes an encoded image and registers it as RGBA8 with straight alpha. Every
    /// decodable image is registered while ids are left.
    pub fn register_from_bytes(&mut self, bytes: &[u8]) -> (r: Result<i32, ImageError>)
        requires
            old(self).wf(),
        ensures
            final(self).wf(),
            decoded_rgba8(bytes@) is None ==> (r matches Err(ImageError::Decode(_))
                && final(self)@ == old(self)@ && final(self).next_id() == old(self).next_id()),
            decoded_rgba8(bytes@) matches Some((pixels, w, h)) ==> {
                &&& old(self).next_id() == i32::MAX ==> r == Err::<i32, ImageError>(
                    ImageError::IdsExhausted,
                ) && final(self)@ == old(self)@ && final(self).next_id() == old(self).next_id()
                &&& old(self).next_id() < i32::MAX ==> {
                    &&& r == Ok::<i32, ImageError>(old(self).next_id() as i32)
                    &&& final(self).next_id() == old(self).next_id() + 1
                    &&& final(self)@.dom() == old(self)@.dom().insert(old(self).next_id() as i32)
                    &&& forall|k: i32| #[trigger]
                        old(self)@.contains_key(k) ==> final(self)@[k] == old(self)@[k]
                    &&& final(self)@[old(self).next_id() as i32].refcount == 1
                    &&& final(self)@[old(self).next_id() as i32].width == w
                    &&& final(self)@[old(self).next_id() as i32].height == h
                }
            },
    {
        match Self::load_image_bytes(bytes) {
            Ok((pixels, width, height)) => {
                self.register(pixels.as_slice(), width, height, PixelFormat::Rgba8, AlphaType::Alpha)
            },
            Err(msg) => Err(ImageError::Decode(msg)),
        }
    }

    /// Adds a reference to image `id`.
    pub fn retain(&mut self, id: i32) -> (r: Result<(), ImageError>)
        requires
            old(self).wf(),
        ensures
            final(self).wf(),
            final(self).next_id() == old(self).next_id(),
            !old(self)@.contains_key(id) ==> r == Err::<(), ImageError>(ImageError::NotFound(id)),
            old(self)@.contains_key(id) && old(self)@[id].refcount == usize::MAX ==> r == Err::<
                (),
                ImageError,
            >(ImageError::RefcountOverflow),
            r is Err ==> final(self)@ == old(self)@,
            r is Ok ==> {
                &&& old(self)@.contains_key(id)
                &&& final(self)@ == old(self)@.insert(id, final(self)@[id])
                &&& final(self)@[id].refcount == old(self)@[id].refcount + 1
                &&& final(self)@[id].width == old(self)@[id].width
                &&& final(self)@[id].height == old(self)@[id].height
                &&& final(self)@[id].image == old(self)@[id].image
            },
            old(self)@.contains_key(id) && old(self)@[id].refcount < usize::MAX ==> r is Ok,
    {
        match self.images.remove(&id) {
            Some(entry) => {
                if entry.refcount == usize::MAX {
                    self.images.insert(id, entry);
                    proof {
                        assert(self.images@ =~= old(self).images@);
                        assert(self@ == old(self)@);
                    }
                    Err(ImageError::RefcountOverflow)
                } else {
                    let ImageEntry { image, refcount, width, height } = entry;
                    self.images.insert(id, ImageEntry { image, refcount: refcount + 1, width, height });
                    proof {
                        assert(self.images@ =~= old(self).images@.insert(id, self.images@[id]));
                        assert forall|k: i32| #[trigger] self@.contains_key(k) implies 0 <= k
                            < self.next_id() && self@[k].refcount >= 1 by {
                            assert(old(self)@.contains_key(k));
                        }
                    }
                    Ok(())
                }
            },
            None => {
                proof {
                    assert(self.images@ =~= old(self).images@);
                    assert(self@ == old(self)@);
                }
                Err(ImageError::NotFound(id))
            },
        }
    }

    /// Drops a reference to image `id`, removing the image when none is left. Returns
    /// whether it was removed.
    pub fn release(&mut self, id: i32) -> (r: Result<bool, ImageError>)
        requires
            old(self).wf(),
        ensures
            final(self).wf(),
            final(self).next_id() == old(self).next_id(),
            !old(self)@.contains_key(id) ==> r == Err::<bool, ImageError>(ImageError::NotFound(id))
                && final(self)@ == old(self)@,
            old(self)@.contains_key(id) && old(self)@[id].refcount == 1 ==> r == Ok::<
                bool,
                ImageError,
            >(true) && final(self)@ == old(self)@.remove(id),
            old(self)@.contains_key(id) && old(self)@[id].refcount > 1 ==> {
                &&& r == Ok::<bool, ImageError>(false)
                &&& final(self)@ == old(self)@.insert(id, final(self)@[id])
                &&& final(self)@[id].refcount == old(self)@[id].refcount - 1
                &&& final(self)@[id].width == old(self)@[id].width
                &&& final(self)@[id].height == old(self)@[id].height
                &&& final(self)@[id].image == old(self)@[id].image
            },
    {
        match self.images.remove(&id) {
            Some(entry) => {
                proof {
                    assert(old(self)@.contains_key(id));
                    assert(entry == old(self)@[id]);
                }
                if entry.refcount == 1 {
                    proof {
                        assert(self.images@ == old(self).images@.remove(id));
                        assert forall|k: i32| #[trigger] self@.contains_key(k) implies 0 <= k
                            < self.next_id() && self@[k].refcount >= 1 by {
                            assert(old(self)@.contains_key(k));
                        }
                    }
                    Ok(true)
                } else {
                    let ImageEntry { image, refcount, width, height } = entry;
                    self.images.insert(id, ImageEntry { image, refcount: refcount - 1, width, height });
                    proof {
                        assert(self.images@ =~= old(self).images@.insert(id, self.images@[id]));
                        assert forall|k: i32| #[trigger] self@.contains_key(k) implies 0 <= k
                            < self.next_id() && self@[k].refcount >= 1 by {
                            assert(old(self)@.contains_key(k));
                        }
                    }
                    Ok(false)
                }
            },
            None => {
                proof {
                    assert(self.images@ =~= old(self).images@);
                    assert(self@ == old(self)@);
                }
                Err(ImageError::NotFound(id))
            },
        }
    }

    /// The image registered under `id`.
    pub fn get(&self, id: i32) -> (r: Option<&peniko::ImageData>)
        ensures
            r is Some == self@.contains_key(id),
            r matches Some(img) ==> *img == self@[id].image,
    {
        match self.images.get(&id) {
            Some(entry) => Some(&entry.image),
            None => None,
        }
    }

    /// Width and height of image `id`.
    pub fn get_dimensions(&self, id: i32) -> (r: Option<(u32, u32)>)
        ensures
            r is Some == self@.contains_key(id),
            r matches Some(d) ==> d == (self@[id].width, self@[id].height),
    {
        match self.images.get(&id) {
            Some(entry) => Some((entry.width, entry.height)),
            None => None,
        }
    }

    /// Current reference count of image `id`.
    pub fn refcount(&self, id: i32) -> (r: Option<usize>)
        ensures
            r is Some == self@.contains_key(id),
            r matches Some(c) ==> c == self@[id].refcount,
    {
        match self.images.get(&id) {
            Some(entry) => Some(entry.refcount),
            None => None,
        }
    }

    /// Number of registered images.
    pub fn len(&self) -> (r: usize)
        ensures
            r == self@.len(),
    {
        self.images.len()
    }

    /// Whether no image is registered.
    pub fn is_empty(&self) -> (r: bool)
        ensures
            r == (self@.len() == 0),
    {
        self.images.len() == 0
    }
}

impl Default for ImageManager {
    fn default() -> (r: Self)
        ensures
            r.wf(),
            r@ == Map::<i32, ImageEntry>::empty(),
            r.next_id() == 0,
    {
        Self::new()
    }
}

} // verus!
