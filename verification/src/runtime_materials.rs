//! Materials that the editor makes up for procedural surfaces.
use vstd::prelude::*;

use crate::preview::{
    J3dAlphaCompare, J3dBlendMode, J3dMaterial, J3dZMode, MaterialView, Rgba, TevColor,
};

verus! {

/// How a colour channel is lit.
#[derive(Debug, Clone, Copy, PartialEq, Eq, Structural)]
pub struct J3dColorChannel {
    pub enable: u8,
    pub mat_src: u8,
    pub light_mask: u8,
    pub diffuse_fn: u8,
    pub attenuation_fn: u8,
    pub amb_src: u8,
}

/// How a texture coordinate is made.
#[derive(Debug, Clone, Copy, PartialEq, Eq, Structural)]
pub struct J3dTexGen {
    pub gen_type: u8,
    pub source: u8,
    pub matrix: u8,
}

/// What a TEV stage reads.
#[derive(Debug, Clone, Copy, PartialEq, Eq, Structural)]
pub struct J3dTevOrder {
    pub tex_coord: Option<u8>,
    pub tex_map: Option<u8>,
    pub color_channel: u8,
}

/// Four inputs of a TEV combiner.
#[derive(Debug, Clone, Copy, PartialEq, Eq, Structural)]
pub struct TevInputs {
    pub a: u8,
    pub b: u8,
    pub c: u8,
    pub d: u8,
}

/// A TEV combiner.
#[derive(Debug, Clone, Copy, PartialEq, Eq, Structural)]
pub struct TevCombiner {
    pub inputs: TevInputs,
    pub op: u8,
    pub bias: u8,
    pub scale: u8,
    pub clamp: u8,
    pub register: u8,
}

/// A TEV stage without an indirect lookup.
#[derive(Debug, Clone, Copy, PartialEq, Eq, Structural)]
pub struct J3dTevStage {
    pub order: J3dTevOrder,
    pub color: TevCombiner,
    pub alpha: TevCombiner,
    pub konst_color: u8,
    pub konst_alpha: u8,
    pub raster_swap: u8,
    pub texture_swap: u8,
}

/// How a material is drawn beyond what links it to textures and pixel tests. Channels that are
/// not set keep the loader's default; there is no indirect lookup and no fog, no texture matrix,
/// and no channel of a texture or a raster colour is swapped.
#[derive(Debug)]
pub struct MaterialProgram {
    pub loader_flags: u32,
    pub lighting_enabled: bool,
    pub mode: u8,
    pub color_channel_count: u8,
    pub color_channels: Vec<J3dColorChannel>,
    pub tex_gen_count: u8,
    pub tex_gens: Vec<J3dTexGen>,
    pub tev_stages: Vec<J3dTevStage>,
    pub dither: u8,
}

/// A material that the editor makes up.
#[derive(Debug)]
pub struct RuntimeMaterial {
    pub material: J3dMaterial,
    pub program: MaterialProgram,
}

/// Opaque white.
pub open spec fn white() -> Rgba {
    Rgba { r: 255, g: 255, b: 255, a: 255 }
}

/// A TEV register colour.
pub open spec fn tev(r: i16, g: i16, b: i16, a: i16) -> TevColor {
    TevColor { r, g, b, a }
}

/// The texture coordinates that are passed through, one from each set.
pub open spec fn passed_coordinates() -> Seq<J3dTexGen> {
    Seq::new(8, |i: int| J3dTexGen { gen_type: 1, source: (4 + i) as u8, matrix: 60 })
}

/// One texture in the first slot.
pub open spec fn one_texture(texture: usize) -> Seq<Option<usize>> {
    Seq::new(
        8,
        |i: int|
            if i == 0 {
                Some(texture)
            } else {
                None
            },
    )
}

/// A combiner.
pub open spec fn combiner(a: u8, b: u8, c: u8, d: u8, scale: u8) -> TevCombiner {
    TevCombiner { inputs: TevInputs { a, b, c, d }, op: 0, bias: 0, scale, clamp: 1, register: 0 }
}

/// A stage that reads texture 0 through a coordinate and the first raster colour.
pub open spec fn stage(coordinate: u8, color: TevCombiner, alpha: TevCombiner) -> J3dTevStage {
    J3dTevStage {
        order: J3dTevOrder {
            tex_coord: Some(coordinate),
            tex_map: Some(0),
            color_channel: 4,
        },
        color,
        alpha,
        konst_color: 12,
        konst_alpha: 28,
        raster_swap: 0,
        texture_swap: 0,
    }
}

fn make_combiner(a: u8, b: u8, c: u8, d: u8, scale: u8) -> (r: TevCombiner)
    ensures
        r == combiner(a, b, c, d, scale),
{
    TevCombiner { inputs: TevInputs { a, b, c, d }, op: 0, bias: 0, scale, clamp: 1, register: 0 }
}

fn make_stage(coordinate: u8, color: TevCombiner, alpha: TevCombiner) -> (r: J3dTevStage)
    ensures
        r == stage(coordinate, color, alpha),
{
    J3dTevStage {
        order: J3dTevOrder {
            tex_coord: Some(coordinate),
            tex_map: Some(0),
            color_channel: 4,
        },
        color,
        alpha,
        konst_color: 12,
        konst_alpha: 28,
        raster_swap: 0,
        texture_swap: 0,
    }
}

fn make_coordinates() -> (r: Vec<J3dTexGen>)
    ensures
        r@ == passed_coordinates(),
{
    let mut r: Vec<J3dTexGen> = Vec::new();
    let mut i: u8 = 0;
    while i < 8
        invariant
            i <= 8,
            r@ == passed_coordinates().take(i as int),
        decreases 8 - i,
    {
        r.push(J3dTexGen { gen_type: 1, source: 4 + i, matrix: 60 });
        i += 1;
        proof {
            assert(r@ =~= passed_coordinates().take(i as int));
        }
    }
    proof {
        assert(passed_coordinates().take(8) =~= passed_coordinates());
    }
    r
}

/// The pixel tests of a made-up material.
#[derive(Debug, Clone, Copy, PartialEq, Eq, Structural)]
pub struct PixelTests {
    pub alpha_compare: J3dAlphaCompare,
    pub blend_mode: J3dBlendMode,
    pub z_mode: J3dZMode,
    pub z_comp_loc: u8,
}

/// The material of this name and place: one texture, no culling, white colours, and these pixel
/// tests.
pub open spec fn plain_view(
    name: Seq<char>,
    index: usize,
    texture: usize,
    tev_colors: Seq<TevColor>,
    tests: PixelTests,
) -> MaterialView {
    MaterialView {
        name,
        material_index: index,
        material_id: index,
        texture_indices: one_texture(texture),
        material_colors: seq![white(), white()],
        tev_colors,
        tev_k_colors: seq![white(), white(), white(), white()],
        cull_mode: 0,
        alpha_compare: tests.alpha_compare,
        blend_mode: tests.blend_mode,
        z_mode: tests.z_mode,
        z_comp_loc: tests.z_comp_loc,
    }
}

fn plain_material(
    name: String,
    index: usize,
    texture: usize,
    tev_colors: [TevColor; 4],
    tests: PixelTests,
) -> (r: J3dMaterial)
    ensures
        r@ == plain_view(name@, index, texture, tev_colors@, tests),
{
    let white = Rgba { r: 255, g: 255, b: 255, a: 255 };
    let mut texture_indices: [Option<usize>; 8] = [None, None, None, None, None, None, None, None];
    texture_indices[0] = Some(texture);
    proof {
        assert(texture_indices@ =~= one_texture(texture));
    }
    let material = J3dMaterial {
        name,
        material_index: index,
        material_id: index,
        texture_indices,
        material_colors: [white, white],
        tev_colors,
        tev_k_colors: [white, white, white, white],
        cull_mode: 0,
        alpha_compare: tests.alpha_compare,
        blend_mode: tests.blend_mode,
        z_mode: tests.z_mode,
        z_comp_loc: tests.z_comp_loc,
    };
    proof {
        assert(material.material_colors@ =~= seq![
            Rgba { r: 255, g: 255, b: 255, a: 255 },
            Rgba { r: 255, g: 255, b: 255, a: 255 },
        ]);
        assert(material.tev_k_colors@ =~= seq![
            Rgba { r: 255, g: 255, b: 255, a: 255 },
            Rgba { r: 255, g: 255, b: 255, a: 255 },
            Rgba { r: 255, g: 255, b: 255, a: 255 },
            Rgba { r: 255, g: 255, b: 255, a: 255 },
        ]);
    }
    material
}

/// The alpha test of the foam.
pub fn runtime_wave_alpha_compare() -> (r: J3dAlphaCompare)
    ensures
        r == (J3dAlphaCompare { comp0: 6, ref0: 0x55, op: 1, comp1: 3, ref1: 0x23 }),
{
    J3dAlphaCompare { comp0: 6, ref0: 0x55, op: 1, comp1: 3, ref1: 0x23 }
}

/// The blending of the foam.
pub fn runtime_wave_blend_mode() -> (r: J3dBlendMode)
    ensures
        r == (J3dBlendMode { mode: 1, src_factor: 4, dst_factor: 2, logic_op: 5 }),
{
    J3dBlendMode { mode: 1, src_factor: 4, dst_factor: 2, logic_op: 5 }
}

/// The depth test of the foam: it never covers what lies behind it.
pub fn runtime_wave_z_mode() -> (r: J3dZMode)
    ensures
        r == (J3dZMode { compare_enable: 1, func: 3, update_enable: 0 }),
{
    J3dZMode { compare_enable: 1, func: 3, update_enable: 0 }
}

/// The pixel tests of the foam.
pub open spec fn wave_tests() -> PixelTests {
    PixelTests {
        alpha_compare: J3dAlphaCompare { comp0: 6, ref0: 0x55, op: 1, comp1: 3, ref1: 0x23 },
        blend_mode: J3dBlendMode { mode: 1, src_factor: 4, dst_factor: 2, logic_op: 5 },
        z_mode: J3dZMode { compare_enable: 1, func: 3, update_enable: 0 },
        z_comp_loc: 1,
    }
}

/// A channel that takes its colour from the vertices.
pub open spec fn vertex_channel() -> J3dColorChannel {
    J3dColorChannel {
        enable: 0,
        mat_src: 1,
        light_mask: 0,
        diffuse_fn: 2,
        attenuation_fn: 2,
        amb_src: 1,
    }
}

/// The TEV register colours of the foam.
pub open spec fn wave_tev_colors() -> Seq<TevColor> {
    seq![tev(0xc2, 0xf2, 0xbe, 0), tev(0, 0, 0, 0x48), tev(0, 0, 0, 0x90), tev(0, 0, 0, 0)]
}

/// The program of the foam: two stages over one texture, both channels from the vertices.
pub open spec fn is_wave_program(program: MaterialProgram, loader_flags: u32) -> bool {
    &&& program.loader_flags == loader_flags
    &&& !program.lighting_enabled
    &&& program.mode == 4
    &&& program.color_channel_count == 1
    &&& program.color_channels@ == seq![vertex_channel(), vertex_channel()]
    &&& program.tex_gen_count == 2
    &&& program.tex_gens@ == passed_coordinates()
    &&& program.tev_stages@ == seq![
        stage(0, combiner(15, 15, 15, 15, 0), combiner(7, 4, 5, 7, 0)),
        stage(1, combiner(10, 15, 15, 15, 1), combiner(7, 4, 0, 7, 1)),
    ]
    &&& program.dither == 0
}

/// The material of the foam. The fade lies in the vertex alpha, so both channels read the
/// vertices.
pub fn runtime_wave_material(
    material_index: usize,
    texture_index: usize,
    loader_flags: u32,
) -> (r: RuntimeMaterial)
    ensures
        r.material@ == plain_view(
            "_runtime_wave"@,
            material_index,
            texture_index,
            wave_tev_colors(),
            wave_tests(),
        ),
        is_wave_program(r.program, loader_flags),
{
    let tests = PixelTests {
        alpha_compare: runtime_wave_alpha_compare(),
        blend_mode: runtime_wave_blend_mode(),
        z_mode: runtime_wave_z_mode(),
        z_comp_loc: 1,
    };
    let tev_colors: [TevColor; 4] = [
        TevColor { r: 0xc2, g: 0xf2, b: 0xbe, a: 0 },
        TevColor { r: 0, g: 0, b: 0, a: 0x48 },
        TevColor { r: 0, g: 0, b: 0, a: 0x90 },
        TevColor { r: 0, g: 0, b: 0, a: 0 },
    ];
    proof {
        assert(tev_colors@ =~= wave_tev_colors());
    }
    let material = plain_material(
        "_runtime_wave".to_owned(),
        material_index,
        texture_index,
        tev_colors,
        tests,
    );
    let channel = J3dColorChannel {
        enable: 0,
        mat_src: 1,
        light_mask: 0,
        diffuse_fn: 2,
        attenuation_fn: 2,
        amb_src: 1,
    };
    let mut color_channels: Vec<J3dColorChannel> = Vec::new();
    color_channels.push(channel);
    color_channels.push(channel);
    let mut tev_stages: Vec<J3dTevStage> = Vec::new();
    tev_stages.push(
        make_stage(0, make_combiner(15, 15, 15, 15, 0), make_combiner(7, 4, 5, 7, 0)),
    );
    tev_stages.push(
        make_stage(1, make_combiner(10, 15, 15, 15, 1), make_combiner(7, 4, 0, 7, 1)),
    );
    proof {
        assert(color_channels@ =~= seq![vertex_channel(), vertex_channel()]);
        assert(tev_stages@ =~= seq![
            stage(0, combiner(15, 15, 15, 15, 0), combiner(7, 4, 5, 7, 0)),
            stage(1, combiner(10, 15, 15, 15, 1), combiner(7, 4, 0, 7, 1)),
        ]);
    }
    let program = MaterialProgram {
        loader_flags,
        lighting_enabled: false,
        mode: 4,
        color_channel_count: 1,
        color_channels,
        tex_gen_count: 2,
        tex_gens: make_coordinates(),
        tev_stages,
        dither: 0,
    };
    RuntimeMaterial { material, program }
}

/// The pixel tests of a flag: no alpha test, opaque, with depth.
pub open spec fn flag_tests() -> PixelTests {
    PixelTests {
        alpha_compare: J3dAlphaCompare { comp0: 4, ref0: 0, op: 0, comp1: 4, ref1: 0 },
        blend_mode: J3dBlendMode { mode: 1, src_factor: 1, dst_factor: 0, logic_op: 5 },
        z_mode: J3dZMode { compare_enable: 1, func: 3, update_enable: 1 },
        z_comp_loc: 0,
    }
}

/// The pixel tests of a flag.
pub fn runtime_flag_tests() -> (r: PixelTests)
    ensures
        r == flag_tests(),
{
    PixelTests {
        alpha_compare: J3dAlphaCompare { comp0: 4, ref0: 0, op: 0, comp1: 4, ref1: 0 },
        blend_mode: J3dBlendMode { mode: 1, src_factor: 1, dst_factor: 0, logic_op: 5 },
        z_mode: J3dZMode { compare_enable: 1, func: 3, update_enable: 1 },
        z_comp_loc: 0,
    }
}

/// The program of a flag: one stage that shows the texture as it is.
pub open spec fn is_flag_program(program: MaterialProgram, loader_flags: u32) -> bool {
    &&& program.loader_flags == loader_flags
    &&& !program.lighting_enabled
    &&& program.mode == 1
    &&& program.color_channel_count == 0
    &&& program.color_channels@.len() == 0
    &&& program.tex_gen_count == 1
    &&& program.tex_gens@ == passed_coordinates()
    &&& program.tev_stages@ == seq![
        stage(0, combiner(8, 15, 15, 15, 0), combiner(4, 7, 7, 7, 0)),
    ]
    &&& program.dither == 0
}

/// The name of a flag's material.
pub open spec fn flag_material_name(resource: Seq<char>) -> Seq<char> {
    "_runtime_flag_"@ + resource
}

/// No TEV register colours.
pub open spec fn no_tev_colors() -> Seq<TevColor> {
    seq![tev(0, 0, 0, 0), tev(0, 0, 0, 0), tev(0, 0, 0, 0), tev(0, 0, 0, 0)]
}

/// The material of a flag.
pub fn runtime_flag_material(
    material_index: usize,
    texture_index: usize,
    resource_name: &str,
    loader_flags: u32,
) -> (r: RuntimeMaterial)
    ensures
        r.material@ == plain_view(
            flag_material_name(resource_name@),
            material_index,
            texture_index,
            no_tev_colors(),
            flag_tests(),
        ),
        is_flag_program(r.program, loader_flags),
{
    let none = TevColor { r: 0, g: 0, b: 0, a: 0 };
    let tev_colors: [TevColor; 4] = [none, none, none, none];
    proof {
        assert(tev_colors@ =~= no_tev_colors());
    }
    let mut name = "_runtime_flag_".to_owned();
    name.append(resource_name);
    let material = plain_material(
        name,
        material_index,
        texture_index,
        tev_colors,
        runtime_flag_tests(),
    );
    let mut tev_stages: Vec<J3dTevStage> = Vec::new();
    tev_stages.push(make_stage(0, make_combiner(8, 15, 15, 15, 0), make_combiner(4, 7, 7, 7, 0)));
    let program = MaterialProgram {
        loader_flags,
        lighting_enabled: false,
        mode: 1,
        color_channel_count: 0,
        color_channels: Vec::new(),
        tex_gen_count: 1,
        tex_gens: make_coordinates(),
        tev_stages,
        dither: 0,
    };
    RuntimeMaterial { material, program }
}

} // verus!
