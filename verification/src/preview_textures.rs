//! Textures of the preview: upload form, alpha classes and the live goop mask.
use vstd::prelude::*;

use crate::preview;
use crate::preview::{
    ImageView, J3dMip, J3dTexturePreview, PreviewImage, PreviewTexture, TextureSampler, TextureView,
};
use crate::text;

verus! {

/// A colour value scaled by alpha, of 255, and rounded to the nearest integer.
pub open spec fn alpha_scaled(value: u8, alpha: u8) -> u8 {
    ((2 * value * alpha + 255) / 510) as u8
}

/// One byte of a picture with premultiplied alpha: alpha itself stays, an opaque pixel keeps its
/// colour and a fully transparent one loses it.
pub open spec fn premultiplied_byte(rgba: Seq<u8>, i: int) -> u8 {
    let alpha = rgba[i - i % 4 + 3];
    if i % 4 == 3 || alpha == 255 {
        rgba[i]
    } else if alpha == 0 {
        0
    } else {
        alpha_scaled(rgba[i], alpha)
    }
}

/// A picture with premultiplied alpha.
pub open spec fn premultiplied(rgba: Seq<u8>) -> Seq<u8> {
    Seq::new(rgba.len(), |i: int| premultiplied_byte(rgba, i))
}

/// `egui::ColorImage::from_rgba_unmultiplied`: each pixel through
/// `egui::Color32::from_rgba_unmultiplied`, which keeps alpha, keeps the colour of an opaque
/// pixel, clears that of a transparent one, and scales any other colour byte by alpha, of 255,
/// rounded to the nearest integer. The pixels come back as flat bytes.
#[verifier::external_body]
fn unmultiplied_pixels(width: usize, height: usize, rgba: &[u8]) -> (r: Vec<u8>)
    requires
        width * height * 4 == rgba@.len(),
    ensures
        r@.len() == rgba@.len(),
        forall|i: int|
            0 <= i < rgba@.len() ==> #[trigger] r@[i] == (if i % 4 == 3 || rgba@[i - i % 4 + 3]
                == 255 {
                rgba@[i]
            } else if rgba@[i - i % 4 + 3] == 0 {
                0
            } else {
                alpha_scaled(rgba@[i], rgba@[i - i % 4 + 3])
            }),
{
    let image = egui::ColorImage::from_rgba_unmultiplied([width, height], rgba);
    image.pixels.iter().flat_map(|pixel| pixel.to_array()).collect()
}

/// The bytes are a picture of this size, and not an empty one.
pub open spec fn is_picture(width: u16, height: u16, rgba: Seq<u8>) -> bool {
    rgba.len() == width * height * 4 && rgba.len() > 0
}

/// Some pixel is not quite opaque.
pub open spec fn has_alpha(rgba: Seq<u8>) -> bool {
    exists|p: int| 0 <= p < rgba.len() / 4 && #[trigger] alpha_of(rgba, p) < 245
}

/// Some pixel is neither quite opaque nor quite transparent.
pub open spec fn has_translucent_alpha(rgba: Seq<u8>) -> bool {
    exists|p: int| 0 <= p < rgba.len() / 4 && 12 < #[trigger] alpha_of(rgba, p) < 245
}

/// Alpha of a pixel.
pub open spec fn alpha_of(rgba: Seq<u8>, p: int) -> u8 {
    rgba[4 * p + 3]
}

/// The upload form of a picture.
pub open spec fn uploaded(width: u16, height: u16, rgba: Seq<u8>) -> ImageView {
    ImageView { width: width as nat, height: height as nat, pixels: premultiplied(rgba) }
}

/// The upload forms of the levels that are pictures.
pub open spec fn uploaded_mips(mips: Seq<J3dMip>) -> Seq<ImageView>
    decreases mips.len(),
{
    if mips.len() == 0 {
        Seq::empty()
    } else {
        let rest = uploaded_mips(mips.drop_last());
        let mip = mips.last();
        if is_picture(mip.width, mip.height, mip.rgba@) {
            rest.push(uploaded(mip.width, mip.height, mip.rgba@))
        } else {
            rest
        }
    }
}

/// A single white pixel.
pub open spec fn white_pixel() -> ImageView {
    ImageView { width: 1, height: 1, pixels: seq![255u8, 255u8, 255u8, 255u8] }
}

/// The preview form of a decoded texture: its levels, or the picture where no level is usable, or
/// a white pixel where the texture itself is no picture.
pub open spec fn preview_of(texture: J3dTexturePreview) -> TextureView {
    if is_picture(texture.width, texture.height, texture.rgba@) {
        let levels = uploaded_mips(texture.mips@);
        TextureView {
            mips: if levels.len() == 0 {
                seq![uploaded(texture.width, texture.height, texture.rgba@)]
            } else {
                levels
            },
            sampler: texture.sampler,
            has_alpha: has_alpha(texture.rgba@),
            has_translucent_alpha: has_translucent_alpha(texture.rgba@),
        }
    } else {
        TextureView {
            mips: seq![white_pixel()],
            sampler: texture.sampler,
            has_alpha: false,
            has_translucent_alpha: false,
        }
    }
}

fn holds_picture(width: u16, height: u16, rgba: &[u8]) -> (r: bool)
    ensures
        r == is_picture(width, height, rgba@),
{
    let expected: u64 = {
        proof {
            assert(width * height <= 0xffff * 0xffff) by (nonlinear_arith)
                requires
                    width <= 0xffff,
                    height <= 0xffff,
            ;
        }
        width as u64 * height as u64 * 4
    };
    rgba.len() as u64 == expected && expected > 0
}

fn upload(width: u16, height: u16, rgba: &[u8]) -> (r: PreviewImage)
    requires
        is_picture(width, height, rgba@),
    ensures
        r@ == uploaded(width, height, rgba@),
{
    let pixels = unmultiplied_pixels(width as usize, height as usize, rgba);
    proof {
        assert(pixels@ =~= premultiplied(rgba@));
    }
    PreviewImage { width: width as usize, height: height as usize, pixels }
}

fn scan_alpha(rgba: &[u8]) -> (r: (bool, bool))
    ensures
        r.0 == has_alpha(rgba@),
        r.1 == has_translucent_alpha(rgba@),
{
    let mut any: bool = false;
    let mut translucent: bool = false;
    let len: usize = rgba.len();
    let pixels: usize = len / 4;
    let mut p: usize = 0;
    while p < pixels
        invariant
            p <= pixels,
            pixels == len / 4,
            len == rgba@.len(),
            any == (exists|q: int| 0 <= q < p && #[trigger] alpha_of(rgba@, q) < 245),
            translucent == (exists|q: int| 0 <= q < p && 12 < #[trigger] alpha_of(rgba@, q) < 245),
        decreases pixels - p,
    {
        let alpha: u8 = rgba[4 * p + 3];
        proof {
            assert(alpha_of(rgba@, p as int) == alpha);
        }
        if alpha < 245 {
            any = true;
            if alpha > 12 {
                translucent = true;
            }
        }
        p += 1;
    }
    (any, translucent)
}

/// Appends decoded textures in their preview form and returns where they begin.
pub fn push_j3d_preview_textures(
    textures: &mut Vec<PreviewTexture>,
    source: &[J3dTexturePreview],
) -> (r: usize)
    ensures
        r == old(textures)@.len(),
        preview::texture_views(final(textures)@) == preview::texture_views(old(textures)@)
            + Seq::new(source@.len(), |i: int| preview_of(source@[i])),
{
    let texture_base: usize = textures.len();
    let mut i: usize = 0;
    while i < source.len()
        invariant
            i <= source.len(),
            preview::texture_views(textures@) =~= preview::texture_views(old(textures)@)
                + Seq::new(i as nat, |j: int| preview_of(source@[j])),
        decreases source.len() - i,
    {
        let texture = &source[i];
        let made = preview_texture(texture);
        let ghost before = preview::texture_views(textures@);
        textures.push(made);
        proof {
            assert(preview::texture_views(textures@) =~= before.push(preview_of(*texture)));
        }
        i += 1;
    }
    texture_base
}

/// A decoded texture in its preview form.
pub fn preview_texture(texture: &J3dTexturePreview) -> (r: PreviewTexture)
    ensures
        r@ == preview_of(*texture),
{
    if !holds_picture(texture.width, texture.height, texture.rgba.as_slice()) {
        let mut pixels: Vec<u8> = Vec::new();
        pixels.push(255);
        pixels.push(255);
        pixels.push(255);
        pixels.push(255);
        let image = PreviewImage { width: 1, height: 1, pixels };
        proof {
            assert(image@ =~= white_pixel());
        }
        let mut mips: Vec<PreviewImage> = Vec::new();
        mips.push(image);
        let r = PreviewTexture {
            mips,
            sampler: texture.sampler,
            has_alpha: false,
            has_translucent_alpha: false,
        };
        proof {
            assert(preview::image_views(r.mips@) =~= seq![white_pixel()]);
        }
        return r;
    }
    let (any, translucent) = scan_alpha(texture.rgba.as_slice());
    let mut mips: Vec<PreviewImage> = Vec::new();
    proof {
        assert(preview::image_views(mips@) =~= uploaded_mips(texture.mips@.take(0)));
    }
    let mut i: usize = 0;
    while i < texture.mips.len()
        invariant
            i <= texture.mips.len(),
            preview::image_views(mips@) == uploaded_mips(texture.mips@.take(i as int)),
        decreases texture.mips.len() - i,
    {
        let mip = &texture.mips[i];
        proof {
            assert(texture.mips@.take(i + 1).drop_last() =~= texture.mips@.take(i as int));
            assert(texture.mips@.take(i + 1).last() == *mip);
        }
        if holds_picture(mip.width, mip.height, mip.rgba.as_slice()) {
            let ghost before = preview::image_views(mips@);
            mips.push(upload(mip.width, mip.height, mip.rgba.as_slice()));
            proof {
                assert(preview::image_views(mips@) =~= before.push(mips@.last()@));
            }
        }
        i += 1;
    }
    proof {
        assert(texture.mips@.take(i as int) =~= texture.mips@);
        assert(preview::image_views(mips@).len() == mips@.len());
    }
    if mips.len() == 0 {
        mips.push(upload(texture.width, texture.height, texture.rgba.as_slice()));
        proof {
            assert(preview::image_views(mips@) =~= seq![
                uploaded(texture.width, texture.height, texture.rgba@),
            ]);
        }
    }
    PreviewTexture {
        mips,
        sampler: texture.sampler,
        has_alpha: any,
        has_translucent_alpha: translucent,
    }
}

/// Every texture of the preview has a picture.
pub proof fn law_preview_texture_has_a_picture(texture: J3dTexturePreview)
    ensures
        preview_of(texture).mips.len() > 0,
{
}

/// A translucent texture counts as one with alpha.
pub proof fn law_translucency_is_alpha(texture: J3dTexturePreview)
    ensures
        preview_of(texture).has_translucent_alpha ==> preview_of(texture).has_alpha,
{
    if is_picture(texture.width, texture.height, texture.rgba@) && has_translucent_alpha(
        texture.rgba@,
    ) {
        let p = choose|p: int|
            0 <= p < texture.rgba@.len() / 4 && 12 < #[trigger] alpha_of(texture.rgba@, p) < 245;
        assert(alpha_of(texture.rgba@, p) < 245);
    }
}

/// The sampler of a live mask: one level, no filtering between levels.
pub open spec fn single_level(sampler: TextureSampler) -> TextureSampler {
    TextureSampler {
        mipmap_enabled: false,
        do_edge_lod: false,
        bias_clamp: false,
        max_anisotropy: 0,
        min_lod: 0,
        max_lod: 0,
        lod_bias: 0,
        mipmap_count: 1,
        ..sampler
    }
}

/// The texture shares name and size with the live mask.
pub open spec fn is_mask_alias(
    texture: J3dTexturePreview,
    name: Seq<char>,
    width: u16,
    height: u16,
) -> bool {
    texture.name@ == name && texture.width == width && texture.height == height
}

/// The live mask applies: the first texture has its size.
pub open spec fn mask_applies(
    textures: Seq<J3dTexturePreview>,
    width: u16,
    height: u16,
) -> bool {
    textures.len() > 0 && textures[0].width == width && textures[0].height == height
}

/// A texture after the live mask was written: aliases of the first texture hold the mask in one
/// level, others are untouched.
pub open spec fn masked(
    texture: J3dTexturePreview,
    before: J3dTexturePreview,
    name: Seq<char>,
    width: u16,
    height: u16,
    rgba: Seq<u8>,
) -> bool {
    if is_mask_alias(before, name, width, height) {
        &&& texture.name == before.name
        &&& texture.width == before.width
        &&& texture.height == before.height
        &&& texture.rgba@ == rgba
        &&& texture.mips@.len() == 0
        &&& texture.sampler == single_level(before.sampler)
    } else {
        texture == before
    }
}

/// Writes the live goop mask into the first texture and every alias of it.
pub fn replace_pollution_mask_texture_aliases(
    textures: &mut Vec<J3dTexturePreview>,
    width: u16,
    height: u16,
    rgba: &[u8],
)
    ensures
        final(textures)@.len() == old(textures)@.len(),
        !mask_applies(old(textures)@, width, height) ==> final(textures)@ == old(textures)@,
        mask_applies(old(textures)@, width, height) ==> forall|i: int|
            0 <= i < old(textures)@.len() ==> masked(
                #[trigger] final(textures)@[i],
                old(textures)@[i],
                old(textures)@[0].name@,
                width,
                height,
                rgba@,
            ),
{
    if textures.len() == 0 || textures[0].width != width || textures[0].height != height {
        return;
    }
    let name = textures[0].name.clone();
    let mut i: usize = 0;
    while i < textures.len()
        invariant
            i <= textures.len(),
            textures@.len() == old(textures)@.len(),
            forall|j: int|
                0 <= j < i ==> masked(
                    #[trigger] textures@[j],
                    old(textures)@[j],
                    name@,
                    width,
                    height,
                    rgba@,
                ),
            forall|j: int| i <= j < textures@.len() ==> #[trigger] textures@[j] == old(textures)@[j],
        decreases textures.len() - i,
    {
        if text::same(textures[i].name.as_str(), name.as_str()) && textures[i].width == width
            && textures[i].height == height {
            let s = textures[i].sampler;
            let replaced = J3dTexturePreview {
                name: textures[i].name.clone(),
                width: textures[i].width,
                height: textures[i].height,
                rgba: crate::stage_edits::copy_bytes(rgba),
                mips: Vec::new(),
                sampler: TextureSampler {
                    format: s.format,
                    wrap_s: s.wrap_s,
                    wrap_t: s.wrap_t,
                    min_filter: s.min_filter,
                    mag_filter: s.mag_filter,
                    mipmap_enabled: false,
                    do_edge_lod: false,
                    bias_clamp: false,
                    max_anisotropy: 0,
                    min_lod: 0,
                    max_lod: 0,
                    lod_bias: 0,
                    mipmap_count: 1,
                },
            };
            textures.set(i, replaced);
        }
        i += 1;
    }
}

/// Four little-endian bytes.
pub open spec fn le32(bytes: Seq<u8>, at: int) -> int {
    bytes[at] + 0x100 * bytes[at + 1] + 0x1_0000 * bytes[at + 2] + 0x100_0000 * bytes[at + 3]
}

/// Two little-endian bytes.
pub open spec fn le16(bytes: Seq<u8>, at: int) -> int {
    bytes[at] + 0x100 * bytes[at + 1]
}

/// A 32-bit value read as signed.
pub open spec fn signed(value: int) -> int {
    if value >= 0x8000_0000 {
        value - 0x1_0000_0000
    } else {
        value
    }
}

/// Bytes of a bitmap row: the width rounded up to four.
pub open spec fn bitmap_stride(width: int) -> int {
    (width + 3) / 4 * 4
}

/// Height of a bitmap, whichever row comes first.
pub open spec fn bitmap_rows(height: int) -> int {
    if height < 0 {
        -height
    } else {
        height
    }
}

/// The bytes are an uncompressed 8-bit bitmap with all its rows, of a size that fits 16 bits.
pub open spec fn is_mask_bitmap(bytes: Seq<u8>) -> bool {
    let width = signed(le32(bytes, 18));
    let height = signed(le32(bytes, 22));
    &&& bytes.len() >= 34
    &&& bytes[0] == 0x42 && bytes[1] == 0x4d
    &&& le16(bytes, 26) == 1
    &&& le16(bytes, 28) == 8
    &&& le32(bytes, 30) == 0
    &&& 0 < width <= 0xffff
    &&& height != 0
    &&& bitmap_rows(height) <= 0xffff
    &&& le32(bytes, 10) + bitmap_stride(width) * bitmap_rows(height) <= bytes.len()
    &&& width * bitmap_rows(height) * 4 <= usize::MAX
}

/// The grey value at a pixel of a mask; rows of a positive height are stored bottom first.
pub open spec fn mask_value(bytes: Seq<u8>, x: int, y: int) -> u8 {
    let width = signed(le32(bytes, 18));
    let height = signed(le32(bytes, 22));
    let row = if height > 0 {
        bitmap_rows(height) - 1 - y
    } else {
        y
    };
    bytes[le32(bytes, 10) + row * bitmap_stride(width) + x]
}

/// The picture of a mask: every pixel grey, with alpha equal to its value.
pub open spec fn mask_picture(bytes: Seq<u8>) -> Seq<u8> {
    let width = signed(le32(bytes, 18));
    let rows = bitmap_rows(signed(le32(bytes, 22)));
    Seq::new(
        (width * rows * 4) as nat,
        |i: int| mask_value(bytes, (i / 4) % width, (i / 4) / width),
    )
}

fn read_le32(bytes: &[u8], at: usize) -> (r: u32)
    requires
        at + 4 <= bytes@.len(),
    ensures
        r == le32(bytes@, at as int),
{
    bytes[at] as u32 + 0x100 * bytes[at + 1] as u32 + 0x1_0000 * bytes[at + 2] as u32 + 0x100_0000
        * bytes[at + 3] as u32
}

fn read_le16(bytes: &[u8], at: usize) -> (r: u16)
    requires
        at + 2 <= bytes@.len(),
    ensures
        r == le16(bytes@, at as int),
{
    bytes[at] as u16 + 0x100 * bytes[at + 1] as u16
}

fn as_signed(value: u32) -> (r: i64)
    ensures
        r == signed(value as int),
{
    if value >= 0x8000_0000 {
        value as i64 - 0x1_0000_0000
    } else {
        value as i64
    }
}

proof fn lemma_pixel_position(x: int, y: int, width: int)
    requires
        0 <= x < width,
        0 <= y,
    ensures
        (y * width + x) % width == x,
        (y * width + x) / width == y,
{
    vstd::arithmetic::div_mod::lemma_fundamental_div_mod_converse(y * width + x, width, y, x);
}

proof fn lemma_row_fits(y: int, rows: int, width: int)
    requires
        0 <= y < rows,
        0 <= width,
    ensures
        y * width + width <= rows * width,
        0 <= y * width,
{
    assert(y * width + width <= rows * width) by (nonlinear_arith)
        requires
            0 <= y < rows,
            0 <= width,
    ;
    assert(0 <= y * width) by (nonlinear_arith)
        requires
            0 <= y,
            0 <= width,
    ;
}

/// Decodes a goop mask; `None` for anything but an uncompressed 8-bit bitmap with all its rows.
pub fn decode_pollution_bitmap_mask(bytes: &[u8]) -> (r: Option<(u16, u16, Vec<u8>)>)
    ensures
        match r {
            Some((width, height, rgba)) => is_mask_bitmap(bytes@) && width == signed(
                le32(bytes@, 18),
            ) && height == bitmap_rows(signed(le32(bytes@, 22))) && rgba@ == mask_picture(bytes@),
            None => !is_mask_bitmap(bytes@),
        },
{
    let len: usize = bytes.len();
    if len < 34 || bytes[0] != 0x42 || bytes[1] != 0x4d {
        return None;
    }
    let pixel_offset: u64 = read_le32(bytes, 10) as u64;
    let width: i64 = as_signed(read_le32(bytes, 18));
    let height: i64 = as_signed(read_le32(bytes, 22));
    if width <= 0 || height == 0 || read_le16(bytes, 26) != 1 || read_le16(bytes, 28) != 8
        || read_le32(bytes, 30) != 0 {
        return None;
    }
    let rows: i64 = if height < 0 {
        -height
    } else {
        height
    };
    if width > 0xffff || rows > 0xffff {
        return None;
    }
    let w: usize = width as usize;
    let h: usize = rows as usize;
    let stride: usize = (w + 3) / 4 * 4;
    proof {
        assert(stride * h <= 0x1_0002 * 0xffff) by (nonlinear_arith)
            requires
                0 <= stride <= 0x1_0002,
                0 <= h <= 0xffff,
        ;
        assert(w * h <= 0xffff * 0xffff) by (nonlinear_arith)
            requires
                0 <= w <= 0xffff,
                0 <= h <= 0xffff,
        ;
    }
    if pixel_offset + stride as u64 * h as u64 > len as u64 || w as u64 * h as u64 * 4
        > usize::MAX as u64 {
        return None;
    }
    let offset: usize = pixel_offset as usize;
    let mut rgba: Vec<u8> = Vec::new();
    let mut y: usize = 0;
    while y < h
        invariant
            y <= h,
            0 < w <= 0xffff,
            h <= 0xffff,
            w == width,
            h == rows,
            width == signed(le32(bytes@, 18)),
            height == signed(le32(bytes@, 22)),
            rows == bitmap_rows(height as int),
            stride == bitmap_stride(width as int),
            w <= stride,
            offset == le32(bytes@, 10),
            len == bytes@.len(),
            offset + stride * h <= len,
            rgba@.len() == 4 * (y * w),
            forall|i: int|
                0 <= i < rgba@.len() ==> #[trigger] rgba@[i] == mask_value(
                    bytes@,
                    (i / 4) % (w as int),
                    (i / 4) / (w as int),
                ),
        decreases h - y,
    {
        let source_y: usize = if height > 0 {
            h - 1 - y
        } else {
            y
        };
        proof {
            lemma_row_fits(source_y as int, h as int, stride as int);
            assert(source_y * stride <= h * stride);
            assert(h * stride == stride * h) by (nonlinear_arith);
        }
        let start: usize = offset + source_y * stride;
        let mut x: usize = 0;
        while x < w
            invariant
                x <= w,
                y < h,
                0 < w <= 0xffff,
                w == width,
                width == signed(le32(bytes@, 18)),
                height == signed(le32(bytes@, 22)),
                rows == bitmap_rows(height as int),
                h == rows,
                stride == bitmap_stride(width as int),
                w <= stride,
                offset == le32(bytes@, 10),
                len == bytes@.len(),
                source_y == (if height > 0 {
                    h - 1 - y
                } else {
                    y as int
                }),
                start == offset + source_y * stride,
                start + stride <= len,
                rgba@.len() == 4 * (y * w + x),
                forall|i: int|
                    0 <= i < rgba@.len() ==> #[trigger] rgba@[i] == mask_value(
                        bytes@,
                        (i / 4) % (w as int),
                        (i / 4) / (w as int),
                    ),
            decreases w - x,
        {
            let value: u8 = bytes[start + x];
            proof {
                lemma_pixel_position(x as int, y as int, w as int);
                assert(value == mask_value(bytes@, x as int, y as int));
            }
            rgba.push(value);
            rgba.push(value);
            rgba.push(value);
            rgba.push(value);
            x += 1;
        }
        proof {
            assert((y + 1) * w == y * w + w) by (nonlinear_arith);
        }
        y += 1;
    }
    proof {
        assert(h * w == w * h) by (nonlinear_arith);
        assert(rgba@ =~= mask_picture(bytes@));
    }
    Some((width as u16, rows as u16, rgba))
}

/// Every pixel of a decoded mask is grey, and its alpha is its grey value.
pub proof fn law_mask_is_grey(bytes: Seq<u8>, i: int)
    requires
        is_mask_bitmap(bytes),
        0 <= i < mask_picture(bytes).len(),
    ensures
        mask_picture(bytes).len() == signed(le32(bytes, 18)) * bitmap_rows(
            signed(le32(bytes, 22)),
        ) * 4,
        mask_picture(bytes)[i] == mask_picture(bytes)[i - i % 4],
        mask_picture(bytes)[i - i % 4] == mask_picture(bytes)[i - i % 4 + 3],
{
    let width = signed(le32(bytes, 18));
    let rows = bitmap_rows(signed(le32(bytes, 22)));
    assert(width * rows * 4 >= 0) by (nonlinear_arith)
        requires
            width > 0,
            rows >= 0,
    ;
    assert((i - i % 4) / 4 == i / 4);
    assert((i - i % 4 + 3) / 4 == i / 4);
    assert(i - i % 4 + 3 < width * rows * 4);
}

} // verus!
