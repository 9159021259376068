//! The integer side of the stage preview: which triangle uses which texture, material and packet.
//!
//! Positions, normals and texture coordinates stay with the application; a triangle here carries
//! what links it to the rest of the preview.
use vstd::prelude::*;

use crate::jdrama::VectorBits;
use crate::stage_edits;

verus! {

#[derive(Debug, Clone, Copy, PartialEq, Eq, Structural)]
pub struct J3dAlphaCompare {
    pub comp0: u8,
    pub ref0: u8,
    pub op: u8,
    pub comp1: u8,
    pub ref1: u8,
}

#[derive(Debug, Clone, Copy, PartialEq, Eq, Structural)]
pub struct J3dBlendMode {
    pub mode: u8,
    pub src_factor: u8,
    pub dst_factor: u8,
    pub logic_op: u8,
}

#[derive(Debug, Clone, Copy, PartialEq, Eq, Structural)]
pub struct J3dZMode {
    pub compare_enable: u8,
    pub func: u8,
    pub update_enable: u8,
}

#[derive(Debug, Clone, Copy, PartialEq, Eq, Structural)]
pub struct Rgba {
    pub r: u8,
    pub g: u8,
    pub b: u8,
    pub a: u8,
}

/// A TEV register colour.
#[derive(Debug, Clone, Copy, PartialEq, Eq, Structural)]
pub struct TevColor {
    pub r: i16,
    pub g: i16,
    pub b: i16,
    pub a: i16,
}

/// A material of the preview.
#[derive(Debug, Clone)]
pub struct J3dMaterial {
    pub name: String,
    pub material_index: usize,
    pub material_id: usize,
    pub texture_indices: [Option<usize>; 8],
    pub material_colors: [Rgba; 2],
    pub tev_colors: [TevColor; 4],
    pub tev_k_colors: [Rgba; 4],
    pub cull_mode: u8,
    pub alpha_compare: J3dAlphaCompare,
    pub blend_mode: J3dBlendMode,
    pub z_mode: J3dZMode,
    pub z_comp_loc: u8,
}

/// The abstract value of a material.
#[verifier::ext_equal]
pub struct MaterialView {
    pub name: Seq<char>,
    pub material_index: usize,
    pub material_id: usize,
    pub texture_indices: Seq<Option<usize>>,
    pub material_colors: Seq<Rgba>,
    pub tev_colors: Seq<TevColor>,
    pub tev_k_colors: Seq<Rgba>,
    pub cull_mode: u8,
    pub alpha_compare: J3dAlphaCompare,
    pub blend_mode: J3dBlendMode,
    pub z_mode: J3dZMode,
    pub z_comp_loc: u8,
}

impl View for J3dMaterial {
    type V = MaterialView;

    open spec fn view(&self) -> MaterialView {
        MaterialView {
            name: self.name@,
            material_index: self.material_index,
            material_id: self.material_id,
            texture_indices: self.texture_indices@,
            material_colors: self.material_colors@,
            tev_colors: self.tev_colors@,
            tev_k_colors: self.tev_k_colors@,
            cull_mode: self.cull_mode,
            alpha_compare: self.alpha_compare,
            blend_mode: self.blend_mode,
            z_mode: self.z_mode,
            z_comp_loc: self.z_comp_loc,
        }
    }
}

/// The abstract values of a list of materials.
pub open spec fn material_views(list: Seq<J3dMaterial>) -> Seq<MaterialView> {
    Seq::new(list.len(), |i: int| list[i]@)
}

impl J3dMaterial {
    /// A copy of the material.
    pub fn duplicate(&self) -> (r: J3dMaterial)
        ensures
            r@ == self@,
    {
        J3dMaterial {
            name: self.name.clone(),
            material_index: self.material_index,
            material_id: self.material_id,
            texture_indices: self.texture_indices,
            material_colors: self.material_colors,
            tev_colors: self.tev_colors,
            tev_k_colors: self.tev_k_colors,
            cull_mode: self.cull_mode,
            alpha_compare: self.alpha_compare,
            blend_mode: self.blend_mode,
            z_mode: self.z_mode,
            z_comp_loc: self.z_comp_loc,
        }
    }
}

/// When a triangle is drawn.
#[derive(Debug, Clone, Copy, PartialEq, Eq, Structural)]
pub enum PreviewRenderLayer {
    Sky,
    Main,
    Water,
    WaveFoam,
    IndirectWater,
    MirrorSurface,
    MirrorScene,
    Goop,
    Shadow,
    Heatwave,
    Particle,
    ParticleDistortion,
}

/// The colours of a triangle's corners.
#[derive(Debug, Clone, Copy, PartialEq, Eq, Structural)]
pub struct CornerColors {
    pub a: Rgba,
    pub b: Rgba,
    pub c: Rgba,
}

/// The two colour channels of a triangle.
#[derive(Debug, Clone, Copy, PartialEq, Eq, Structural)]
pub struct ColorChannels {
    pub first: Option<CornerColors>,
    pub second: Option<CornerColors>,
}

/// How the colours and the texture of a triangle are combined.
#[derive(Debug, Clone, Copy, PartialEq, Eq, Structural)]
pub enum J3dPreviewCombineMode {
    VertexOnly,
    TextureOnly,
    TextureModulateVertex,
    /// Another mode of a model file, which is passed on as it is.
    Other(u8),
}

/// How a triangle turns to the camera.
#[derive(Debug, Clone, Copy, PartialEq, Eq, Structural)]
pub enum J3dBillboardMode {
    /// It turns about the vertical axis and stays upright.
    YAxis,
    /// Another mode of a model file, which is passed on as it is.
    Other(u8),
}

/// The same colour at all corners.
pub open spec fn all_corners(color: Rgba) -> CornerColors {
    CornerColors { a: color, b: color, c: color }
}

/// The same colour at all corners.
pub fn one_color(color: Rgba) -> (r: CornerColors)
    ensures
        r == all_corners(color),
{
    CornerColors { a: color, b: color, c: color }
}

/// What links a triangle to the rest of the preview, and how it is coloured.
#[derive(Debug, Clone, Copy, PartialEq, Eq, Structural)]
pub struct PreviewTriangle {
    /// Position of the source triangle in its own geometry.
    pub source: usize,
    pub material_index: Option<usize>,
    pub packet_index: usize,
    pub model_index: usize,
    pub render_layer: PreviewRenderLayer,
    pub texture_index: Option<usize>,
    pub mask_texture_index: Option<usize>,
    pub cull_mode: Option<u8>,
    pub alpha_compare: Option<J3dAlphaCompare>,
    pub blend_mode: Option<J3dBlendMode>,
    pub z_mode: Option<J3dZMode>,
    pub z_comp_loc: Option<u8>,
    pub color_channels: ColorChannels,
    /// One colour for the whole triangle.
    pub color: Option<Rgba>,
    pub vertex_colors: Option<CornerColors>,
    pub combine_mode: J3dPreviewCombineMode,
    /// How it turns to the camera; the axes that it turns about belong to its geometry.
    pub billboard: Option<J3dBillboardMode>,
    pub particle_type: Option<u8>,
    pub particle_color_mode: Option<u8>,
    pub particle_environment_color: Option<Rgba>,
}

/// A material animation that drives a material.
#[derive(Debug, Clone, Copy, PartialEq, Eq, Structural)]
pub struct PreviewMaterialAnimationBinding {
    pub animation_index: usize,
    pub binding_index: usize,
}

/// How a texture is sampled. Level-of-detail values are the bit patterns of 32-bit floats.
#[derive(Debug, Clone, Copy, PartialEq, Eq, Structural)]
pub struct TextureSampler {
    pub format: u8,
    pub wrap_s: u8,
    pub wrap_t: u8,
    pub min_filter: u8,
    pub mag_filter: u8,
    pub mipmap_enabled: bool,
    pub do_edge_lod: bool,
    pub bias_clamp: bool,
    pub max_anisotropy: u8,
    pub min_lod: u32,
    pub max_lod: u32,
    pub lod_bias: u32,
    pub mipmap_count: u8,
}

/// A decoded image level, four bytes to a pixel.
#[derive(Debug)]
pub struct J3dMip {
    pub width: u16,
    pub height: u16,
    pub rgba: Vec<u8>,
}

/// A decoded texture.
#[derive(Debug)]
pub struct J3dTexturePreview {
    pub name: String,
    pub width: u16,
    pub height: u16,
    pub rgba: Vec<u8>,
    pub mips: Vec<J3dMip>,
    pub sampler: TextureSampler,
}

/// The abstract value of an image level.
#[verifier::ext_equal]
pub struct MipView {
    pub width: u16,
    pub height: u16,
    pub rgba: Seq<u8>,
}

/// The abstract value of a decoded texture.
#[verifier::ext_equal]
pub struct DecodedView {
    pub name: Seq<char>,
    pub width: u16,
    pub height: u16,
    pub rgba: Seq<u8>,
    pub mips: Seq<MipView>,
    pub sampler: TextureSampler,
}

impl View for J3dMip {
    type V = MipView;

    open spec fn view(&self) -> MipView {
        MipView { width: self.width, height: self.height, rgba: self.rgba@ }
    }
}

impl View for J3dTexturePreview {
    type V = DecodedView;

    open spec fn view(&self) -> DecodedView {
        DecodedView {
            name: self.name@,
            width: self.width,
            height: self.height,
            rgba: self.rgba@,
            mips: Seq::new(self.mips@.len(), |i: int| self.mips@[i]@),
            sampler: self.sampler,
        }
    }
}

/// The abstract values of a list of decoded textures.
pub open spec fn decoded_views(list: Seq<J3dTexturePreview>) -> Seq<DecodedView> {
    Seq::new(list.len(), |i: int| list[i]@)
}

fn copy_mips(mips: &[J3dMip]) -> (r: Vec<J3dMip>)
    ensures
        r@.len() == mips@.len(),
        forall|i: int| 0 <= i < mips@.len() ==> (#[trigger] r@[i])@ == mips@[i]@,
{
    let mut r: Vec<J3dMip> = Vec::new();
    let mut i: usize = 0;
    while i < mips.len()
        invariant
            i <= mips.len(),
            r@.len() == i,
            forall|j: int| 0 <= j < i ==> (#[trigger] r@[j])@ == mips@[j]@,
        decreases mips.len() - i,
    {
        let mip = &mips[i];
        r.push(
            J3dMip {
                width: mip.width,
                height: mip.height,
                rgba: stage_edits::copy_bytes(mip.rgba.as_slice()),
            },
        );
        i += 1;
    }
    r
}

impl J3dTexturePreview {
    /// A copy of the texture under another name.
    pub fn renamed(&self, name: &str) -> (r: J3dTexturePreview)
        ensures
            r@ == (DecodedView { name: name@, ..self@ }),
    {
        let r = J3dTexturePreview {
            name: name.to_owned(),
            width: self.width,
            height: self.height,
            rgba: stage_edits::copy_bytes(self.rgba.as_slice()),
            mips: copy_mips(self.mips.as_slice()),
            sampler: self.sampler,
        };
        proof {
            assert(r@ =~= DecodedView { name: name@, ..self@ });
        }
        r
    }
}

/// An image ready for upload: premultiplied alpha, four bytes to a pixel.
#[derive(Debug)]
pub struct PreviewImage {
    pub width: usize,
    pub height: usize,
    pub pixels: Vec<u8>,
}

/// The abstract value of an image.
#[verifier::ext_equal]
pub struct ImageView {
    pub width: nat,
    pub height: nat,
    pub pixels: Seq<u8>,
}

impl View for PreviewImage {
    type V = ImageView;

    open spec fn view(&self) -> ImageView {
        ImageView { width: self.width as nat, height: self.height as nat, pixels: self.pixels@ }
    }
}

/// A texture of the preview; its first level is the picture itself.
#[derive(Debug)]
pub struct PreviewTexture {
    pub mips: Vec<PreviewImage>,
    pub sampler: TextureSampler,
    pub has_alpha: bool,
    pub has_translucent_alpha: bool,
}

/// The abstract value of a texture of the preview.
#[verifier::ext_equal]
pub struct TextureView {
    pub mips: Seq<ImageView>,
    pub sampler: TextureSampler,
    pub has_alpha: bool,
    pub has_translucent_alpha: bool,
}

/// The abstract values of a list of images.
pub open spec fn image_views(list: Seq<PreviewImage>) -> Seq<ImageView> {
    Seq::new(list.len(), |i: int| list[i]@)
}

impl View for PreviewTexture {
    type V = TextureView;

    open spec fn view(&self) -> TextureView {
        TextureView {
            mips: image_views(self.mips@),
            sampler: self.sampler,
            has_alpha: self.has_alpha,
            has_translucent_alpha: self.has_translucent_alpha,
        }
    }
}

/// The abstract values of a list of textures.
pub open spec fn texture_views(list: Seq<PreviewTexture>) -> Seq<TextureView> {
    Seq::new(list.len(), |i: int| list[i]@)
}

/// The stage preview.
#[derive(Debug)]
pub struct ModelPreview {
    /// Model index of each drawn point.
    pub points: Vec<usize>,
    pub triangles: Vec<PreviewTriangle>,
    pub textures: Vec<PreviewTexture>,
    pub materials: Vec<J3dMaterial>,
    pub material_animation_bindings: Vec<Vec<PreviewMaterialAnimationBinding>>,
    pub bounds_min: VectorBits,
    pub bounds_max: VectorBits,
    pub camera_bounds_min: VectorBits,
    pub camera_bounds_max: VectorBits,
}

/// The geometry of one model as its loader decodes it.
#[derive(Debug)]
pub struct J3dGeometryPreview {
    pub triangles: Vec<PreviewTriangle>,
    pub textures: Vec<J3dTexturePreview>,
    pub materials: Vec<J3dMaterial>,
}

} // verus!
