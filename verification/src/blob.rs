//! Blob images: a checkerboard rasteriser and the store that keeps its
//! results until they are resolved.

use std::collections::HashMap;
use vstd::prelude::*;
use vstd::arithmetic::div_mod::lemma_fundamental_div_mod_converse;

verus! {

/// Pixel formats an image may be described with.
#[derive(Clone, Copy, Debug, PartialEq, Eq, Structural)]
pub enum ImageFormat {
    Invalid,
    A8,
    RGB8,
    RGBA8,
    RGBAF32,
}

impl ImageFormat {
    /// The name of the format, as its debug form prints it.
    pub open spec fn name_view(self) -> Seq<char> {
        match self {
            ImageFormat::Invalid => "Invalid"@,
            ImageFormat::A8 => "A8"@,
            ImageFormat::RGB8 => "RGB8"@,
            ImageFormat::RGBA8 => "RGBA8"@,
            ImageFormat::RGBAF32 => "RGBAF32"@,
        }
    }

    /// The name of the format, as its debug form prints it.
    pub fn name(&self) -> (name: &'static str)
        ensures
            name@ == self.name_view(),
    {
        match self {
            ImageFormat::Invalid => "Invalid",
            ImageFormat::A8 => "A8",
            ImageFormat::RGB8 => "RGB8",
            ImageFormat::RGBA8 => "RGBA8",
            ImageFormat::RGBAF32 => "RGBAF32",
        }
    }
}


/// What a blob image is asked to be rendered as.
#[derive(Clone, Copy, Debug)]
pub struct BlobImageDescriptor {
    pub width: u32,
    pub height: u32,
    pub format: ImageFormat,
}

/// A rendered blob image: `data` holds the texels row by row.
#[derive(Debug)]
pub struct RasterizedBlobImage {
    pub data: Vec<u8>,
    pub width: u32,
    pub height: u32,
}

/// Why a blob image could not be had.
#[derive(Debug)]
pub enum BlobImageError {
    Oom,
    InvalidKey,
    InvalidData,
    Other(String),
}

/// The outcome of rendering a blob image.
pub type BlobImageResult = Result<RasterizedBlobImage, BlobImageError>;

/// A rendered image as a mathematical value.
pub struct RasterizedBlobImageView {
    pub data: Seq<u8>,
    pub width: u32,
    pub height: u32,
}

/// A blob image error as a mathematical value.
pub enum BlobImageErrorView {
    Oom,
    InvalidKey,
    InvalidData,
    Other(Seq<char>),
}

/// The outcome of rendering a blob image, as a mathematical value.
pub type BlobImageResultView = Result<RasterizedBlobImageView, BlobImageErrorView>;

impl View for RasterizedBlobImage {
    type V = RasterizedBlobImageView;

    open spec fn view(&self) -> RasterizedBlobImageView {
        RasterizedBlobImageView { data: self.data@, width: self.width, height: self.height }
    }
}

impl View for BlobImageError {
    type V = BlobImageErrorView;

    open spec fn view(&self) -> BlobImageErrorView {
        match self {
            BlobImageError::Oom => BlobImageErrorView::Oom,
            BlobImageError::InvalidKey => BlobImageErrorView::InvalidKey,
            BlobImageError::InvalidData => BlobImageErrorView::InvalidData,
            BlobImageError::Other(msg) => BlobImageErrorView::Other(msg@),
        }
    }
}

/// The mathematical value of a rendering outcome.
pub open spec fn result_view(result: BlobImageResult) -> BlobImageResultView {
    match result {
        Ok(image) => Ok(image@),
        Err(e) => Err(e@),
    }
}

/// Alpha of the checkerboard at pixel `(x, y)`: cells are 10 pixels wide,
/// and a pixel is opaque where exactly one of its coordinates lies in the
/// second half of a 20-pixel period.
pub open spec fn checker_alpha(x: int, y: int) -> u8 {
    if ((x % 20) >= 10) != ((y % 20) >= 10) {
        255
    } else {
        0
    }
}

/// Bytes per texel of the formats the checkerboard can be drawn in; 0 for
/// the others.
pub open spec fn bytes_per_texel(format: ImageFormat) -> nat {
    match format {
        ImageFormat::A8 => 1,
        ImageFormat::RGBA8 => 4,
        _ => 0,
    }
}

/// Channel `c` of a checkerboard texel of alpha `alpha`: grey `alpha`
/// with an opaque last channel in RGBA8, the alpha alone in A8.
pub open spec fn texel_channel(format: ImageFormat, alpha: u8, c: int) -> u8 {
    match format {
        ImageFormat::RGBA8 => if c == 3 { 255 } else { alpha },
        _ => alpha,
    }
}

/// Byte `i` of a row-major checkerboard `width` texels wide.
pub open spec fn checkerboard_byte(width: nat, format: ImageFormat, i: int) -> u8 {
    let bpp = bytes_per_texel(format) as int;
    let t = i / bpp;
    texel_channel(format, checker_alpha(t % (width as int), t / (width as int)), i % bpp)
}

/// The texels of a `width` by `height` checkerboard, row by row.
pub open spec fn checkerboard(width: nat, height: nat, format: ImageFormat) -> Seq<u8> {
    Seq::new(width * height * bytes_per_texel(format), |i: int| checkerboard_byte(width, format, i))
}

/// The message given for a format the checkerboard cannot be drawn in.
pub open spec fn unsupported_format_message(format: ImageFormat) -> Seq<char> {
    "Usupported image format "@ + format.name_view()
}

/// What rendering a checkerboard for `d` gives: an error for a format that
/// is neither A8 nor RGBA8 when the image has at least one pixel, the
/// checkerboard otherwise.
pub open spec fn checkerboard_result(d: BlobImageDescriptor) -> BlobImageResultView {
    if bytes_per_texel(d.format) == 0 && d.width > 0 && d.height > 0 {
        Err(BlobImageErrorView::Other(unsupported_format_message(d.format)))
    } else {
        Ok(
            RasterizedBlobImageView {
                data: checkerboard(d.width as nat, d.height as nat, d.format),
                width: d.width,
                height: d.height,
            },
        )
    }
}

/// Byte `c` of texel `(x, y)` sits at `(y * width + x) * bpp + c`.
pub proof fn lemma_checkerboard_byte_at(width: nat, format: ImageFormat, x: int, y: int, c: int)
    requires
        bytes_per_texel(format) > 0,
        0 <= x < width,
        0 <= y,
        0 <= c < bytes_per_texel(format),
    ensures
        checkerboard_byte(width, format, (y * width + x) * bytes_per_texel(format) + c)
            == texel_channel(format, checker_alpha(x, y), c),
{
    let bpp = bytes_per_texel(format) as int;
    let t = y * width + x;
    lemma_fundamental_div_mod_converse(t * bpp + c, bpp, t, c);
    lemma_fundamental_div_mod_converse(t, width as int, y, x);
}

/// Builds the error for a format the checkerboard cannot be drawn in.
fn unsupported_format(format: ImageFormat) -> (e: BlobImageError)
    ensures
        e@ == BlobImageErrorView::Other(unsupported_format_message(format)),
{
    let msg = String::from_str("Usupported image format ").concat(format.name());
    BlobImageError::Other(msg)
}

/// Renders the checkerboard for `descriptor`: 10-pixel cells, opaque where
/// exactly one coordinate lies in the second half of its 20-pixel period.
pub fn rasterize_checkerboard(descriptor: &BlobImageDescriptor) -> (result: BlobImageResult)
    requires
        descriptor.width * descriptor.height * 4 <= u32::MAX,
    ensures
        result_view(result) == checkerboard_result(*descriptor),
{
    let width = descriptor.width;
    let height = descriptor.height;
    let format = descriptor.format;
    let ghost w = width as int;
    let ghost bpp = bytes_per_texel(format) as int;
    assert(width * height <= width * height * 4) by (nonlinear_arith);
    let capacity = width * height * 4;
    let mut texels: Vec<u8> = Vec::with_capacity(capacity as usize);
    let mut y: u32 = 0;
    while y < height
        invariant
            y <= height,
            width == descriptor.width,
            height == descriptor.height,
            format == descriptor.format,
            w == width,
            bpp == bytes_per_texel(format),
            texels@ =~= Seq::new((y * w * bpp) as nat, |i: int| checkerboard_byte(w as nat, format, i)),
            bpp == 0 && width > 0 ==> y == 0,
        decreases height - y,
    {
        let mut x: u32 = 0;
        while x < width
            invariant
                x <= width,
                y < height,
                width == descriptor.width,
                height == descriptor.height,
                format == descriptor.format,
                w == width,
                bpp == bytes_per_texel(format),
                texels@ =~= Seq::new(
                    ((y * w + x) * bpp) as nat,
                    |i: int| checkerboard_byte(w as nat, format, i),
                ),
                bpp == 0 ==> x == 0,
            decreases width - x,
        {
            let alpha: u8 = if ((x % 20) >= 10) != ((y % 20) >= 10) {
                255
            } else {
                0
            };
            assert(alpha == checker_alpha(x as int, y as int));
            let ghost before = texels@;
            let ghost t = y * w + x;
            assert(0 <= t * bpp) by (nonlinear_arith)
                requires 0 <= t, 0 <= bpp;
            assert((t + 1) * bpp == t * bpp + bpp) by (nonlinear_arith);
            match format {
                ImageFormat::RGBA8 => {
                    texels.push(alpha);
                    texels.push(alpha);
                    texels.push(alpha);
                    texels.push(255);
                },
                ImageFormat::A8 => {
                    texels.push(alpha);
                },
                _ => {
                    return Err(unsupported_format(format));
                },
            }
            proof {
                assert forall|i: int| t * bpp <= i < (t + 1) * bpp implies #[trigger] texels@[i]
                    == checkerboard_byte(w as nat, format, i) by {
                    lemma_checkerboard_byte_at(w as nat, format, x as int, y as int, i - t * bpp);
                }
                assert(texels@ =~= Seq::new(
                    ((y * w + x + 1) * bpp) as nat,
                    |i: int| checkerboard_byte(w as nat, format, i),
                ));
            }
            x = x + 1;
        }
        assert((y * w + w) * bpp == (y + 1) * w * bpp) by (nonlinear_arith);
        y = y + 1;
    }
    assert(height * w * bpp == w * height * bpp) by (nonlinear_arith);
    assert(texels@ =~= checkerboard(width as nat, height as nat, format));
    Ok(RasterizedBlobImage { data: texels, width, height })
}

/// Names an image: a namespace and an id within it.
#[derive(Clone, Copy, Debug, PartialEq, Eq, Structural)]
pub struct ImageKey {
    pub namespace: u32,
    pub id: u32,
}

impl ImageKey {
    /// The key packed into one integer: namespace in the high half.
    pub open spec fn slot(self) -> u64 {
        (self.namespace as int * 0x1_0000_0000 + self.id as int) as u64
    }

    /// The key packed into one integer: namespace in the high half.
    pub fn to_slot(&self) -> (slot: u64)
        ensures
            slot == self.slot(),
    {
        let ns = self.namespace as u64;
        assert(ns * 0x1_0000_0000 <= 0xffff_ffff_0000_0000) by (nonlinear_arith)
            requires ns <= 0xffff_ffff;
        ns * 0x1_0000_0000 + self.id as u64
    }
}

/// Two keys that pack to the same integer are the same key.
pub proof fn lemma_slot_injective(a: ImageKey, b: ImageKey)
    ensures
        a.slot() == b.slot() ==> a == b,
{
    if a.slot() == b.slot() {
        assert(0 <= a.namespace as int * 0x1_0000_0000) by (nonlinear_arith);
        assert(a.namespace as int * 0x1_0000_0000 <= 0xffff_ffff_0000_0000) by (nonlinear_arith)
            requires a.namespace <= 0xffff_ffff;
        assert(b.namespace as int * 0x1_0000_0000 <= 0xffff_ffff_0000_0000) by (nonlinear_arith)
            requires b.namespace <= 0xffff_ffff;
        assert(0 <= b.namespace as int * 0x1_0000_0000) by (nonlinear_arith);
        let x = a.slot() as int;
        lemma_fundamental_div_mod_converse(x, 0x1_0000_0000, a.namespace as int, a.id as int);
        lemma_fundamental_div_mod_converse(x, 0x1_0000_0000, b.namespace as int, b.id as int);
    }
}

/// The store after a request for `key` has been rendered for `d`.
pub open spec fn requested(
    images: Map<ImageKey, BlobImageResultView>,
    key: ImageKey,
    d: BlobImageDescriptor,
) -> Map<ImageKey, BlobImageResultView> {
    images.insert(key, checkerboard_result(d))
}

/// What resolving `key` gives: the stored outcome, or `InvalidKey` where
/// none is stored.
pub open spec fn resolved_result(
    images: Map<ImageKey, BlobImageResultView>,
    key: ImageKey,
) -> BlobImageResultView {
    if images.contains_key(key) {
        images[key]
    } else {
        Err(BlobImageErrorView::InvalidKey)
    }
}

/// Renders blob images as checkerboards and keeps each outcome, under the
/// key it was asked for, until it is resolved.
pub struct FakeBlobImageRenderer {
    images: HashMap<u64, BlobImageResult>,
}

impl View for FakeBlobImageRenderer {
    type V = Map<ImageKey, BlobImageResultView>;

    /// The stored outcomes, by key.
    closed spec fn view(&self) -> Map<ImageKey, BlobImageResultView> {
        Map::new(
            |k: ImageKey| self.images@.contains_key(k.slot()),
            |k: ImageKey| result_view(self.images@[k.slot()]),
        )
    }
}

impl FakeBlobImageRenderer {
    /// A renderer that holds no outcome.
    pub fn new() -> (r: Self)
        ensures
            r@ == Map::<ImageKey, BlobImageResultView>::empty(),
    {
        let r = FakeBlobImageRenderer { images: HashMap::new() };
        assert(r@ =~= Map::<ImageKey, BlobImageResultView>::empty());
        r
    }

    /// Renders the checkerboard for `descriptor` and stores the outcome
    /// under `key`, in place of any outcome stored there before.
    pub fn request_blob_image(&mut self, key: ImageKey, descriptor: &BlobImageDescriptor)
        requires
            descriptor.width * descriptor.height * 4 <= u32::MAX,
        ensures
            final(self)@ == requested(old(self)@, key, *descriptor),
    {
        broadcast use vstd::std_specs::hash::group_hash_axioms;

        let result = rasterize_checkerboard(descriptor);
        let slot = key.to_slot();
        self.images.insert(slot, result);
        proof {
            assert forall|k: ImageKey| #[trigger] k.slot() == slot implies k == key by {
                lemma_slot_injective(k, key);
            }
            assert(self@ =~= requested(old(self)@, key, *descriptor));
        }
    }

    /// Hands out the outcome stored under `key` and forgets it; where none
    /// is stored, the outcome is the error `InvalidKey`.
    pub fn resolve_blob_image(&mut self, key: ImageKey) -> (result: BlobImageResult)
        ensures
            result_view(result) == resolved_result(old(self)@, key),
            final(self)@ == old(self)@.remove(key),
    {
        broadcast use vstd::std_specs::hash::group_hash_axioms;

        let slot = key.to_slot();
        let removed = self.images.remove(&slot);
        proof {
            assert forall|k: ImageKey| #[trigger] k.slot() == slot implies k == key by {
                lemma_slot_injective(k, key);
            }
            assert(self@ =~= old(self)@.remove(key));
        }
        match removed {
            Some(result) => result,
            None => Err(BlobImageError::InvalidKey),
        }
    }
}

/// Resolving a key right after a request for it gives the checkerboard
/// rendered for that request, and the store is left as it was without
/// that key.
pub proof fn law_resolve_returns_request(
    images: Map<ImageKey, BlobImageResultView>,
    key: ImageKey,
    d: BlobImageDescriptor,
)
    ensures
        resolved_result(requested(images, key, d), key) == checkerboard_result(d),
        requested(images, key, d).remove(key) == images.remove(key),
{
    assert(requested(images, key, d).remove(key) =~= images.remove(key));
}

/// An outcome is handed out once: resolving the same key again gives
/// `InvalidKey`.
pub proof fn law_resolve_consumes(images: Map<ImageKey, BlobImageResultView>, key: ImageKey)
    ensures
        resolved_result(images.remove(key), key) == Err::<RasterizedBlobImageView, BlobImageErrorView>(
            BlobImageErrorView::InvalidKey,
        ),
{
}

/// A request for one key leaves what every other key resolves to
/// unchanged.
pub proof fn law_request_keeps_other_keys(
    images: Map<ImageKey, BlobImageResultView>,
    key: ImageKey,
    other: ImageKey,
    d: BlobImageDescriptor,
)
    requires
        other != key,
    ensures
        resolved_result(requested(images, key, d), other) == resolved_result(images, other),
{
}

/// The checkerboard holds `bpp` bytes for each of its `width * height`
/// texels, and byte `c` of texel `(x, y)` is channel `c` of that texel.
pub proof fn law_checkerboard_layout(
    width: nat,
    height: nat,
    format: ImageFormat,
    x: int,
    y: int,
    c: int,
)
    requires
        bytes_per_texel(format) > 0,
        0 <= x < width,
        0 <= y < height,
        0 <= c < bytes_per_texel(format),
    ensures
        checkerboard(width, height, format).len() == width * height * bytes_per_texel(format),
        0 <= (y * width + x) * bytes_per_texel(format) + c < width * height * bytes_per_texel(format),
        checkerboard(width, height, format)[(y * width + x) * bytes_per_texel(format) + c]
            == texel_channel(format, checker_alpha(x, y), c),
{
    let bpp = bytes_per_texel(format) as int;
    let t = y * width + x;
    assert(0 <= t < width * height) by (nonlinear_arith)
        requires 0 <= x < width, 0 <= y < height, t == y * width + x;
    assert(0 <= t * bpp + c < width * height * bpp) by (nonlinear_arith)
        requires 0 <= t < width * height, 0 <= c < bpp;
    lemma_checkerboard_byte_at(width, format, x, y, c);
}

/// The pattern repeats every 20 pixels across and down, neighbouring
/// 10-pixel cells differ, and every alpha is fully clear or fully opaque.
pub proof fn law_checker_cells(x: int, y: int)
    requires
        0 <= x,
        0 <= y,
    ensures
        checker_alpha(x + 20, y) == checker_alpha(x, y),
        checker_alpha(x, y + 20) == checker_alpha(x, y),
        checker_alpha(x + 10, y) != checker_alpha(x, y),
        checker_alpha(x, y + 10) != checker_alpha(x, y),
        checker_alpha(x, y) == 0 || checker_alpha(x, y) == 255,
        (x < 10 && y < 10) ==> checker_alpha(x, y) == 0,
{
}

/// An RGBA8 checkerboard is grey and opaque: the first three channels of a
/// texel are equal and the last is 255.
pub proof fn law_rgba_opaque_grey(width: nat, height: nat, t: int)
    requires
        0 <= t < width * height,
    ensures
        checkerboard(width, height, ImageFormat::RGBA8)[4 * t + 3] == 255,
        checkerboard(width, height, ImageFormat::RGBA8)[4 * t]
            == checkerboard(width, height, ImageFormat::RGBA8)[4 * t + 1],
        checkerboard(width, height, ImageFormat::RGBA8)[4 * t + 1]
            == checkerboard(width, height, ImageFormat::RGBA8)[4 * t + 2],
{
    lemma_fundamental_div_mod_converse(4 * t, 4, t, 0);
    lemma_fundamental_div_mod_converse(4 * t + 1, 4, t, 1);
    lemma_fundamental_div_mod_converse(4 * t + 2, 4, t, 2);
    lemma_fundamental_div_mod_converse(4 * t + 3, 4, t, 3);
    assert(width * height * 4 == width * height * bytes_per_texel(ImageFormat::RGBA8));
}

/// The rendered outcome by format: A8 gives one alpha byte per pixel, RGBA8
/// four bytes per pixel (grey at the pixel's alpha, then 255), and every
/// other format fails with its name in the message, unless the image has
/// no pixel, in which case it is empty.
pub proof fn law_checkerboard_formats(d: BlobImageDescriptor, x: int, y: int)
    requires
        0 <= x < d.width,
        0 <= y < d.height,
    ensures
        d.format == ImageFormat::A8 ==> (checkerboard_result(d) matches Ok(img)
            && img.width == d.width && img.height == d.height
            && img.data.len() == d.width * d.height
            && img.data[y * d.width + x] == checker_alpha(x, y)),
        d.format == ImageFormat::RGBA8 ==> (checkerboard_result(d) matches Ok(img)
            && img.width == d.width && img.height == d.height
            && img.data.len() == d.width * d.height * 4
            && img.data[(y * d.width + x) * 4] == checker_alpha(x, y)
            && img.data[(y * d.width + x) * 4 + 1] == checker_alpha(x, y)
            && img.data[(y * d.width + x) * 4 + 2] == checker_alpha(x, y)
            && img.data[(y * d.width + x) * 4 + 3] == 255),
        (d.format != ImageFormat::A8 && d.format != ImageFormat::RGBA8) ==> checkerboard_result(d)
            == Err::<RasterizedBlobImageView, BlobImageErrorView>(
            BlobImageErrorView::Other("Usupported image format "@ + d.format.name_view()),
        ),
{
    let w = d.width as nat;
    let h = d.height as nat;
    if d.format == ImageFormat::A8 {
        law_checkerboard_layout(w, h, d.format, x, y, 0);
    } else if d.format == ImageFormat::RGBA8 {
        law_checkerboard_layout(w, h, d.format, x, y, 0);
        law_checkerboard_layout(w, h, d.format, x, y, 1);
        law_checkerboard_layout(w, h, d.format, x, y, 2);
        law_checkerboard_layout(w, h, d.format, x, y, 3);
    }
}

/// An image with no pixel renders as empty, whatever its format.
pub proof fn law_empty_image(d: BlobImageDescriptor)
    requires
        d.width == 0 || d.height == 0,
    ensures
        checkerboard_result(d) matches Ok(img) && img.data.len() == 0 && img.width == d.width
            && img.height == d.height,
{
    assert(d.width as nat * d.height as nat == 0) by (nonlinear_arith)
        requires d.width == 0 || d.height == 0;
    assert(d.width as nat * d.height as nat * bytes_per_texel(d.format) == 0) by (nonlinear_arith)
        requires d.width as nat * d.height as nat == 0;
}

} // verus!
