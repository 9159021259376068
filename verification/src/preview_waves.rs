//! The foam around the camera: a fixed grid that fades towards its edge.
use vstd::prelude::*;

use crate::grids;
use crate::preview;
use crate::preview::{
    ColorChannels, CornerColors, J3dMaterial, J3dPreviewCombineMode, J3dTexturePreview,
    PreviewRenderLayer, PreviewTexture, PreviewTriangle, Rgba,
};
use crate::preview_assets;
use crate::preview_textures;
use crate::runtime_materials;
use crate::runtime_materials::MaterialProgram;
use crate::search;
use crate::single_precision;
use crate::single_precision::PLACES;
use crate::stage::{StageAsset, StageAssetKind};
use crate::text;

verus! {

/// Half the width of the foam.
pub const HALF_WAVE_SIZE: i32 = 2600;

/// The distance between two points of the foam.
pub const WAVE_GRID_SIZE: i32 = 200;

/// Strips of the foam, and points along each.
pub const WAVE_GRID_COUNT: usize = 26;

/// The foam of a stage.
#[derive(Debug)]
pub struct ProceduralWavePreview {
    pub triangles: Vec<PreviewTriangle>,
    pub source_vertices: usize,
    pub triangle_count: usize,
    pub program: Option<MaterialProgram>,
}

/// The greater of two distances.
pub open spec fn farther(x: int, z: int) -> int {
    let a = if x < 0 {
        -x
    } else {
        x
    };
    let b = if z < 0 {
        -z
    } else {
        z
    };
    if a < b {
        b
    } else {
        a
    }
}

/// How often a distance is doubled, as a factor, until it exceeds half the way to the edge.
pub open spec fn stretch(far: int) -> nat
    decreases 2600 - far,
{
    if far <= 0 || far >= 1300 {
        1
    } else {
        2 * stretch(2 * far)
    }
}

/// A distance in halves of the foam, in single precision: in parts of `stretch(far)` times two to
/// the power of 24.
pub open spec fn share(far: int) -> nat {
    single_precision::nearest((far * stretch(far) * PLACES) as nat, HALF_WAVE_SIZE as nat)
}

/// What is left of the way to the edge, in single precision: in parts of two to the power of 24.
pub open spec fn rest_of_way(far: int) -> nat {
    single_precision::nearest((stretch(far) * PLACES - share(far)) as nat, stretch(far))
}

/// The opacity of the foam at a distance: 255 times the rest of the way, in single precision and
/// rounded down.
pub open spec fn faded(far: int) -> int {
    if far >= HALF_WAVE_SIZE {
        0
    } else {
        single_precision::rounded(255 * rest_of_way(far)) as int / PLACES as int
    }
}

/// The opacity of the foam at a point: full at the camera, none at the edge.
pub open spec fn wave_alpha(x: int, z: int) -> int {
    faded(farther(x, z))
}

proof fn lemma_stretch(far: int)
    requires
        0 < far < 2600,
    ensures
        1 <= stretch(far) <= 2600,
        1300 <= far * stretch(far) < 2600,
    decreases 2600 - far,
{
    if far < 1300 {
        lemma_stretch(2 * far);
        let twice = stretch(2 * far);
        assert(far * (2 * twice) == (2 * far) * twice) by (nonlinear_arith);
        assert(2 * twice <= 2600) by (nonlinear_arith)
            requires
                far * (2 * twice) < 2600,
                far >= 1,
                twice >= 1,
        ;
    } else {
        assert(far * 1 == far);
    }
}

proof fn lemma_stretch_falls(far: int, farther: int)
    requires
        0 < far <= farther < 2600,
    ensures
        stretch(far) == stretch(farther) || stretch(far) >= 2 * stretch(farther),
    decreases 2600 - far,
{
    if far < 1300 {
        lemma_stretch(2 * far);
        if farther < 1300 {
            lemma_stretch_falls(2 * far, 2 * farther);
        }
    }
}

proof fn lemma_share(far: int)
    requires
        0 <= far < 2600,
    ensures
        share(far) <= PLACES,
        far > 0 ==> share(far) >= PLACES / 2,
        far == 0 ==> share(far) == 0,
        1 <= stretch(far) <= 2600,
{
    let c = PLACES as nat;
    let h = HALF_WAVE_SIZE as nat;
    if far > 0 {
        lemma_stretch(far);
        let n = (far * stretch(far) * PLACES) as nat;
        assert(n == far * stretch(far) * PLACES && n <= c * h) by (nonlinear_arith)
            requires
                n == (far * stretch(far) * PLACES) as nat,
                0 <= far * stretch(far) < 2600,
                c == PLACES,
                h == 2600,
        ;
        single_precision::lemma_nearest_keeps_order(n, h, c, 1);
        single_precision::lemma_nearest_is_exact(c, 1);
        let half = (PLACES / 2) as nat;
        assert(half * h <= n * 1) by (nonlinear_arith)
            requires
                n == far * stretch(far) * PLACES,
                1300 <= far * stretch(far),
                2 * half == PLACES,
                h == 2600,
        ;
        single_precision::lemma_nearest_keeps_order(half, 1, n, h);
        single_precision::lemma_nearest_is_exact(half, 1);
    } else {
        assert(0 * stretch(0) * PLACES == 0) by (nonlinear_arith);
    }
}

proof fn lemma_rest_falls(far: int, farther: int)
    requires
        0 <= far <= farther < 2600,
    ensures
        rest_of_way(farther) <= rest_of_way(far) <= PLACES,
{
    let c = PLACES as nat;
    let (a, b) = (stretch(far), stretch(farther));
    let (m, n) = (share(far), share(farther));
    lemma_share(far);
    lemma_share(farther);
    assert(a * PLACES >= m && b * PLACES >= n) by (nonlinear_arith)
        requires
            a >= 1,
            b >= 1,
            m <= PLACES,
            n <= PLACES,
    ;
    let left = (a * PLACES - m) as nat;
    let right = (b * PLACES - n) as nat;
    assert(left * 1 <= c * a) by (nonlinear_arith)
        requires
            left == a * PLACES - m,
            c == PLACES,
            m >= 0,
    ;
    single_precision::lemma_nearest_keeps_order(left, a, c, 1);
    single_precision::lemma_nearest_is_exact(c, 1);
    if far == 0 {
        assert(right * 1 <= c * b) by (nonlinear_arith)
            requires
                right == b * PLACES - n,
                c == PLACES,
                n >= 0,
        ;
        single_precision::lemma_nearest_keeps_order(right, b, c, 1);
        assert(left == c * 1);
        single_precision::lemma_nearest_is_exact(c, 1);
    } else {
        lemma_stretch_falls(far, farther);
        if a == b {
            let h = HALF_WAVE_SIZE as nat;
            let near_value = (far * a * PLACES) as nat;
            let far_value = (farther * a * PLACES) as nat;
            assert(near_value * h <= far_value * h) by (nonlinear_arith)
                requires
                    near_value == (far * a * PLACES) as nat,
                    far_value == (farther * a * PLACES) as nat,
                    0 <= far <= farther,
                    a >= 1,
                    h >= 1,
            ;
            single_precision::lemma_nearest_keeps_order(near_value, h, far_value, h);
        }
        assert(right * a <= left * b) by (nonlinear_arith)
            requires
                left == a * PLACES - m,
                right == b * PLACES - n,
                a == b && m <= n || a >= 2 * b && m <= PLACES && 2 * n >= PLACES,
                a >= 1,
                b >= 1,
        ;
        single_precision::lemma_nearest_keeps_order(right, b, left, a);
    }
}

proof fn lemma_faded_falls(far: int, farther: int)
    requires
        0 <= far <= farther,
    ensures
        0 <= faded(farther) <= faded(far) <= 255,
{
    let c = PLACES as int;
    if far < 2600 {
        lemma_rest_falls(far, far);
        let whole = (255 * PLACES) as nat;
        single_precision::lemma_rounding_keeps_order(255 * rest_of_way(far), whole);
        lemma_whole_is_exact();
        if farther < 2600 {
            lemma_rest_falls(far, farther);
            single_precision::lemma_rounding_keeps_order(
                255 * rest_of_way(farther),
                255 * rest_of_way(far),
            );
        }
    }
}

proof fn lemma_whole_is_exact()
    ensures
        single_precision::rounded((255 * PLACES) as nat) == 255 * PLACES,
{
    let whole = (255 * PLACES) as nat;
    assert(single_precision::last_place(whole) == 256) by {
        reveal_with_fuel(single_precision::last_place, 9);
    }
    single_precision::lemma_nearest_is_exact(0xff_0000, 256);
}

/// The opacity of the foam at a distance.
fn fade(far: u64) -> (r: u8)
    ensures
        r == faded(far as int),
        0 <= faded(far as int) <= 255,
{
    proof {
        lemma_faded_falls(far as int, far as int);
    }
    if far >= HALF_WAVE_SIZE as u64 {
        return 0;
    }
    let mut doubled: u64 = far;
    let mut factor: u64 = 1;
    while 0 < doubled && doubled < 1300
        invariant
            far < 2600,
            doubled < 2600,
            doubled == far * factor,
            stretch(far as int) == factor * stretch(doubled as int),
            1 <= factor <= 2600,
        decreases 2600 - doubled,
    {
        proof {
            assert(far > 0) by (nonlinear_arith)
                requires
                    doubled == far * factor,
                    doubled > 0,
                    far >= 0,
            ;
            lemma_stretch(far as int);
            lemma_stretch(2 * doubled as int);
            let inner = stretch(2 * doubled as int);
            assert(factor * (2 * inner) == (factor * 2) * inner) by (nonlinear_arith);
            assert(far * (factor * 2) == doubled * 2) by (nonlinear_arith)
                requires
                    doubled == far * factor,
            ;
            assert(factor * 2 <= stretch(far as int)) by (nonlinear_arith)
                requires
                    stretch(far as int) == (factor * 2) * inner,
                    inner >= 1,
            ;
        }
        doubled = doubled * 2;
        factor = factor * 2;
    }
    proof {
        lemma_share(far as int);
        assert(factor * 1 == factor);
        assert(factor == stretch(far as int));
        assert(doubled * PLACES == far * stretch(far as int) * PLACES);
        assert(factor * PLACES >= share(far as int)) by (nonlinear_arith)
            requires
                factor >= 1,
                share(far as int) <= PLACES,
        ;
        lemma_rest_falls(far as int, far as int);
    }
    let share: u64 = single_precision::nearest_quotient(doubled * PLACES, HALF_WAVE_SIZE as u64);
    let rest: u64 = single_precision::nearest_quotient(factor * PLACES - share, factor);
    (single_precision::round_integer(255 * rest) / PLACES) as u8
}

/// The colour of the foam at a point.
pub fn wave_vertex_color(x: i32, z: i32) -> (r: [u8; 4])
    ensures
        r@ == seq![0xc8u8, 0xc8u8, 0xffu8, wave_alpha(x as int, z as int) as u8],
        0 <= wave_alpha(x as int, z as int) <= 255,
{
    let a: i64 = if x < 0 {
        -(x as i64)
    } else {
        x as i64
    };
    let b: i64 = if z < 0 {
        -(z as i64)
    } else {
        z as i64
    };
    let far: i64 = if a < b {
        b
    } else {
        a
    };
    let alpha: u8 = fade(far as u64);
    let r: [u8; 4] = [0xc8, 0xc8, 0xff, alpha];
    proof {
        assert(r@ =~= seq![0xc8u8, 0xc8u8, 0xffu8, wave_alpha(x as int, z as int) as u8]);
    }
    r
}

/// Where a line of the grid lies.
pub fn wave_grid_offset(index: usize) -> (r: i32)
    requires
        index <= WAVE_GRID_COUNT,
    ensures
        r == WAVE_GRID_SIZE * index - HALF_WAVE_SIZE,
{
    index as i32 * WAVE_GRID_SIZE - HALF_WAVE_SIZE
}

/// The colour of the foam at a point.
pub open spec fn wave_color(x: int, z: int) -> Rgba {
    Rgba { r: 0xc8, g: 0xc8, b: 0xff, a: wave_alpha(x, z) as u8 }
}

/// The colour of the foam at a point of its grid; strips lie one behind the other.
pub open spec fn grid_color(at: grids::GridPoint) -> Rgba {
    wave_color(
        WAVE_GRID_SIZE * at.inner - HALF_WAVE_SIZE,
        WAVE_GRID_SIZE * at.outer - HALF_WAVE_SIZE,
    )
}

/// The colours of a triangle of the foam.
pub open spec fn grid_colors(triangle: grids::GridTriangle) -> CornerColors {
    CornerColors {
        a: grid_color(triangle.a),
        b: grid_color(triangle.b),
        c: grid_color(triangle.c),
    }
}

fn color_at(at: grids::GridPoint) -> (r: Rgba)
    requires
        at.outer <= WAVE_GRID_COUNT,
        at.inner <= WAVE_GRID_COUNT,
    ensures
        r == grid_color(at),
{
    let x: i32 = wave_grid_offset(at.inner);
    let z: i32 = wave_grid_offset(at.outer);
    let color = wave_vertex_color(x, z);
    proof {
        assert(color@[0] == 0xc8u8 && color@[1] == 0xc8u8 && color@[2] == 0xffu8);
        assert(color@[3] == wave_alpha(x as int, z as int) as u8);
    }
    Rgba { r: color[0], g: color[1], b: color[2], a: color[3] }
}

/// A triangle of the foam, between these points of its grid.
pub open spec fn wave_triangle(
    source: int,
    place: grids::GridTriangle,
    model: usize,
    packet: usize,
    material: usize,
    texture: usize,
) -> PreviewTriangle {
    PreviewTriangle {
        source: source as usize,
        material_index: Some(material),
        packet_index: packet,
        model_index: model,
        render_layer: PreviewRenderLayer::WaveFoam,
        texture_index: Some(texture),
        mask_texture_index: None,
        cull_mode: Some(0),
        alpha_compare: Some(runtime_materials::wave_tests().alpha_compare),
        blend_mode: Some(runtime_materials::wave_tests().blend_mode),
        z_mode: Some(runtime_materials::wave_tests().z_mode),
        z_comp_loc: None,
        color_channels: ColorChannels { first: Some(grid_colors(place)), second: None },
        color: None,
        vertex_colors: Some(grid_colors(place)),
        combine_mode: J3dPreviewCombineMode::TextureModulateVertex,
        billboard: None,
        particle_type: None,
        particle_color_mode: None,
        particle_environment_color: None,
    }
}

/// The triangles of the foam; each one's source is its place among the triangles of a grid of
/// 26 strips with 25 cells each.
pub open spec fn wave_surface(
    model: usize,
    packet: usize,
    material: usize,
    texture: usize,
) -> Seq<PreviewTriangle> {
    Seq::new(
        grids::triangles(26, 25).len(),
        |i: int|
            wave_triangle(i, grids::triangles(26, 25)[i], model, packet, material, texture),
    )
}

/// The triangles of the foam.
pub fn wave_triangles(
    model_index: usize,
    packet_index: usize,
    material_index: usize,
    texture_index: usize,
) -> (r: Vec<PreviewTriangle>)
    ensures
        r@ == wave_surface(model_index, packet_index, material_index, texture_index),
        r@.len() == 1300,
{
    proof {
        grids::law_two_triangles_to_a_cell(26, 25);
    }
    let total: usize = WAVE_GRID_COUNT * (WAVE_GRID_COUNT - 1) * 2;
    let places = grids::grid_triangles(WAVE_GRID_COUNT, WAVE_GRID_COUNT - 1);
    let ghost all = wave_surface(model_index, packet_index, material_index, texture_index);
    let mut r: Vec<PreviewTriangle> = Vec::new();
    let mut i: usize = 0;
    while i < total
        invariant
            i <= total,
            total == 1300,
            all.len() == 1300,
            all == wave_surface(model_index, packet_index, material_index, texture_index),
            places@ == grids::triangles(26, 25),
            places@.len() == 1300,
            r@ == all.take(i as int),
        decreases total - i,
    {
        proof {
            grids::lemma_triangles_lie_inside(26, 25, i as int);
        }
        let place = places[i];
        let colors = CornerColors {
            a: color_at(place.a),
            b: color_at(place.b),
            c: color_at(place.c),
        };
        r.push(
            PreviewTriangle {
                source: i,
                material_index: Some(material_index),
                packet_index,
                model_index,
                render_layer: PreviewRenderLayer::WaveFoam,
                texture_index: Some(texture_index),
                mask_texture_index: None,
                cull_mode: Some(0),
                alpha_compare: Some(runtime_materials::runtime_wave_alpha_compare()),
                blend_mode: Some(runtime_materials::runtime_wave_blend_mode()),
                z_mode: Some(runtime_materials::runtime_wave_z_mode()),
                z_comp_loc: None,
                color_channels: ColorChannels { first: Some(colors), second: None },
                color: None,
                vertex_colors: Some(colors),
                combine_mode: J3dPreviewCombineMode::TextureModulateVertex,
                billboard: None,
                particle_type: None,
                particle_color_mode: None,
                particle_environment_color: None,
            },
        );
        i += 1;
        proof {
            assert(r@ =~= all.take(i as int));
        }
    }
    proof {
        assert(all.take(total as int) =~= all);
    }
    r
}

/// The texture of the foam among the assets of a stage.
pub fn find_wave_texture(assets: &[StageAsset]) -> (r: Option<usize>)
    ensures
        match r {
            Some(i) => i < assets@.len() && search::first_position(
                assets@,
                preview_assets::ends_asset(
                    StageAssetKind::Texture,
                    text::lower("/map/map/wave.bti"@),
                ),
            ) == Some(i as int),
            None => search::first_position(
                assets@,
                preview_assets::ends_asset(
                    StageAssetKind::Texture,
                    text::lower("/map/map/wave.bti"@),
                ),
            ) is None,
        },
{
    preview_assets::find_stage_asset_by_suffix(assets, StageAssetKind::Texture, "/map/map/wave.bti")
}

/// Adds the foam of a stage whose texture was found and decoded; without it there is none.
pub fn build_procedural_wave_preview(
    decoded: Option<&J3dTexturePreview>,
    model_index: usize,
    packet_index: usize,
    loader_flags: u32,
    textures: &mut Vec<PreviewTexture>,
    materials: &mut Vec<J3dMaterial>,
) -> (r: ProceduralWavePreview)
    ensures
        match decoded {
            None => *final(textures) == *old(textures) && *final(materials) == *old(materials)
                && r.triangles@.len() == 0 && r.source_vertices == 0 && r.triangle_count == 0
                && r.program is None,
            Some(texture) => {
                &&& preview::texture_views(final(textures)@) == preview::texture_views(
                    old(textures)@,
                ).push(preview_textures::preview_of(*texture))
                &&& preview::material_views(final(materials)@) == preview::material_views(
                    old(materials)@,
                ).push(
                    runtime_materials::plain_view(
                        "_runtime_wave"@,
                        old(materials)@.len() as usize,
                        old(textures)@.len() as usize,
                        runtime_materials::wave_tev_colors(),
                        runtime_materials::wave_tests(),
                    ),
                )
                &&& r.triangles@ == wave_surface(
                    model_index,
                    packet_index,
                    old(materials)@.len() as usize,
                    old(textures)@.len() as usize,
                )
                &&& r.source_vertices == 1352
                &&& r.triangle_count == 1300
                &&& r.program matches Some(program)
                &&& runtime_materials::is_wave_program(program, loader_flags)
            },
        },
{
    match decoded {
        None => ProceduralWavePreview {
            triangles: Vec::new(),
            source_vertices: 0,
            triangle_count: 0,
            program: None,
        },
        Some(texture) => {
            let ghost before = preview::texture_views(textures@);
            let texture_index: usize = textures.len();
            let made = preview_textures::preview_texture(texture);
            textures.push(made);
            proof {
                assert(preview::texture_views(textures@) =~= before.push(
                    preview_textures::preview_of(*texture),
                ));
            }
            let material_index: usize = materials.len();
            let made = runtime_materials::runtime_wave_material(
                material_index,
                texture_index,
                loader_flags,
            );
            let ghost listed = preview::material_views(materials@);
            let ghost added = made.material@;
            materials.push(made.material);
            proof {
                assert(preview::material_views(materials@) =~= listed.push(added));
            }
            let triangles = wave_triangles(
                model_index,
                packet_index,
                material_index,
                texture_index,
            );
            let triangle_count: usize = triangles.len();
            ProceduralWavePreview {
                triangles,
                source_vertices: WAVE_GRID_COUNT * WAVE_GRID_COUNT * 2,
                triangle_count,
                program: Some(made.program),
            }
        },
    }
}

/// The foam fades evenly on all four sides and never grows more opaque away from the camera.
pub proof fn law_foam_fades_outwards(x: int, z: int, farther_x: int, farther_z: int)
    requires
        farther(x, z) <= farther(farther_x, farther_z),
    ensures
        wave_alpha(farther_x, farther_z) <= wave_alpha(x, z),
        wave_alpha(x, z) == wave_alpha(-x, z) == wave_alpha(x, -z) == wave_alpha(z, x),
        0 <= wave_alpha(x, z) <= 255,
{
    lemma_faded_falls(farther(x, z), farther(farther_x, farther_z));
}

} // verus!
