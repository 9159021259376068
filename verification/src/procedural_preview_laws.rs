//! What the surfaces that the editor makes up itself look like.
use vstd::prelude::*;

use crate::grids;
use crate::preview::{
    J3dAlphaCompare, J3dBillboardMode, J3dBlendMode, J3dPreviewCombineMode, J3dZMode,
    PreviewRenderLayer, Rgba,
};
use crate::preview_grass;
use crate::preview_grass::{GrassGroup, GrassPoint};
use crate::preview_waves;
use crate::stage::SceneObject;
use crate::runtime_materials;
use crate::runtime_materials::{J3dTevStage, MaterialProgram};
use crate::single_precision;
use crate::text;

verus! {

proof fn lemma_share(far: int, s: nat)
    requires
        0 <= far < 2600,
        s > 0,
    ensures
        single_precision::nearest((far * s * 0x100_0000) as nat, 2600) <= s * 0x100_0000,
        5200 * single_precision::nearest((far * s * 0x100_0000) as nat, 2600) <= 2 * (far * s
            * 0x100_0000) + 2600,
        2 * (far * s * 0x100_0000) <= 5200 * single_precision::nearest(
            (far * s * 0x100_0000) as nat,
            2600,
        ) + 2600,
{
    let n = (far * s * 0x100_0000) as nat;
    assert(far * s >= 0) by (nonlinear_arith)
        requires
            far >= 0,
    ;
    assert(n == far * s * 0x100_0000);
    single_precision::law_quotients_go_to_the_next_integer(n, 2600);
    let q = single_precision::nearest(n, 2600);
    assert(2 * (q * 2600) <= 2 * n + 2600);
    assert(2 * n <= 2 * (q * 2600) + 2600);
    assert(far * s <= 2599 * s) by (nonlinear_arith)
        requires
            far <= 2599,
    ;
}

/// The foam fades evenly from the middle to the rim of the wave: its opacity is 255 parts of what
/// is left of the way, rounded down, and beyond the rim there is none.
pub proof fn law_foam_fades_evenly(x: int, z: int)
    ensures
        ({
            let a = preview_waves::wave_alpha(x, z);
            let inside = -2600 < x < 2600 && -2600 < z < 2600;
            &&& !inside ==> a == 0
            &&& inside ==> {
                &&& 2600 * a <= 255 * (2600 - x)
                &&& 2600 * a <= 255 * (2600 + x)
                &&& 2600 * a <= 255 * (2600 - z)
                &&& 2600 * a <= 255 * (2600 + z)
                &&& 2600 * (a + 1) >= 255 * (2600 - x) || 2600 * (a + 1) >= 255 * (2600 + x) || 2600
                    * (a + 1) >= 255 * (2600 - z) || 2600 * (a + 1) >= 255 * (2600 + z)
            }
        }),
{
    let far = preview_waves::farther(x, z);
    if far < 2600 {
        let s = preview_waves::stretch(far);
        lemma_stretch(far);
        lemma_share(far, s);
        let share = preview_waves::share(far);
        assert(share == single_precision::nearest((far * s * 0x100_0000) as nat, 2600));
        let rest = preview_waves::rest_of_way(far);
        single_precision::law_quotients_go_to_the_next_integer((s * 0x100_0000 - share) as nat, s);
        assert(2 * (rest * s) <= 2 * (s * 0x100_0000 - share) + s);
        assert(2 * (s * 0x100_0000 - share) <= 2 * (rest * s) + s);
        assert(2600 * rest <= 0x100_0000 * (2600 - far) + 2600 && 2600 * rest >= 0x100_0000 * (2600
            - far) - 2600) by (nonlinear_arith)
            requires
                s > 0,
                2 * (rest * s) <= 2 * (s * 0x100_0000 - share) + s,
                2 * (s * 0x100_0000 - share) <= 2 * (rest * s) + s,
                5200 * share <= 2 * (far * s * 0x100_0000) + 2600,
                2 * (far * s * 0x100_0000) <= 5200 * share + 2600,
        {
            let left = 0x100_0000 * (2600 - far);
            assert(2 * 2600 * (rest * s) <= 2 * (left * s) + 2600 * s + 2600);
            assert(2 * 2600 * (rest * s) >= 2 * (left * s) - 2600 * s - 2600);
            assert((2600 * rest) * s <= (left + 2600) * s);
            assert((2600 * rest) * s >= (left - 2600) * s);
        }
        single_precision::law_rounding_keeps_the_places((255 * rest) as nat);
    }
}

proof fn lemma_stretch(far: int)
    ensures
        preview_waves::stretch(far) >= 1,
    decreases 2600 - far,
{
    if 0 < far < 1300 {
        lemma_stretch(2 * far);
    }
}

/// The two triangles of every cell of the wave take the foam's colour of their own three corners,
/// blend over what lies below, and are drawn with the foam's own texture and material.
pub proof fn law_foam_covers_the_water(
    model: usize,
    packet: usize,
    material: usize,
    texture: usize,
    outer: int,
    inner: int,
)
    requires
        0 <= outer < 26,
        0 <= inner < 25,
    ensures
        ({
            let surface = preview_waves::wave_surface(model, packet, material, texture);
            let at = 2 * (outer * 25 + inner);
            let near = |o: int, i: int| foam(200 * i - 2600, 200 * o - 2600);
            &&& surface.len() == 1300
            &&& 0 <= at < 1299
            &&& surface[at].vertex_colors matches Some(first)
            &&& first.a == near(outer, inner)
            &&& first.b == near(outer + 1, inner)
            &&& first.c == near(outer, inner + 1)
            &&& surface[at + 1].vertex_colors matches Some(second)
            &&& second.a == near(outer, inner + 1)
            &&& second.b == near(outer + 1, inner)
            &&& second.c == near(outer + 1, inner + 1)
            &&& forall|i: int|
                0 <= i < 1300 ==> {
                    let t = #[trigger] surface[i];
                    &&& t.source == i
                    &&& t.material_index == Some(material)
                    &&& t.packet_index == packet
                    &&& t.model_index == model
                    &&& t.render_layer == PreviewRenderLayer::WaveFoam
                    &&& t.texture_index == Some(texture)
                    &&& t.mask_texture_index is None
                    &&& t.cull_mode == Some(0u8)
                    &&& t.alpha_compare == Some(
                        J3dAlphaCompare { comp0: 6, ref0: 0x55, op: 1, comp1: 3, ref1: 0x23 },
                    )
                    &&& t.blend_mode == Some(
                        J3dBlendMode { mode: 1, src_factor: 4, dst_factor: 2, logic_op: 5 },
                    )
                    &&& t.z_mode == Some(
                        J3dZMode { compare_enable: 1, func: 3, update_enable: 0 },
                    )
                    &&& t.color_channels.first == t.vertex_colors
                    &&& t.color_channels.second is None
                    &&& t.combine_mode == J3dPreviewCombineMode::TextureModulateVertex
                    &&& t.billboard is None
                    &&& t.particle_type is None
                }
        }),
{
    grids::law_two_triangles_to_a_cell(26, 25);
    grids::law_cells_are_cut_in_two(26, 25, outer, inner);
}

/// The colour of the foam at a place.
pub open spec fn foam(x: int, z: int) -> Rgba {
    Rgba { r: 0xc8, g: 0xc8, b: 0xff, a: preview_waves::wave_alpha(x, z) as u8 }
}

/// What a TEV stage of the made-up materials reads and how it combines.
pub open spec fn reads(stage: J3dTevStage, coordinate: u8) -> bool {
    &&& stage.order.tex_coord == Some(coordinate)
    &&& stage.order.tex_map == Some(0u8)
    &&& stage.order.color_channel == 4
    &&& stage.konst_color == 12
    &&& stage.konst_alpha == 28
    &&& stage.raster_swap == 0
    &&& stage.texture_swap == 0
    &&& stage.color.op == 0 && stage.color.bias == 0 && stage.color.clamp == 1
        && stage.color.register == 0
    &&& stage.alpha.op == 0 && stage.alpha.bias == 0 && stage.alpha.clamp == 1
        && stage.alpha.register == 0
}

/// The inputs of a stage's two combiners.
pub open spec fn mixes(
    stage: J3dTevStage,
    color: (u8, u8, u8, u8),
    alpha: (u8, u8, u8, u8),
    scale: u8,
) -> bool {
    &&& stage.color.inputs.a == color.0 && stage.color.inputs.b == color.1
    &&& stage.color.inputs.c == color.2 && stage.color.inputs.d == color.3
    &&& stage.alpha.inputs.a == alpha.0 && stage.alpha.inputs.b == alpha.1
    &&& stage.alpha.inputs.c == alpha.2 && stage.alpha.inputs.d == alpha.3
    &&& stage.color.scale == scale && stage.alpha.scale == scale
}

/// How the foam and the cloth of the flags are shaded: unlit, the foam in two stages that weigh
/// the wave texture by the vertices, the cloth in one that passes its texture through.
pub proof fn law_made_up_materials_are_unlit(program: MaterialProgram, loader_flags: u32)
    ensures
        runtime_materials::is_wave_program(program, loader_flags) ==> {
            &&& program.loader_flags == loader_flags
            &&& !program.lighting_enabled
            &&& program.mode == 4
            &&& program.color_channel_count == 1
            &&& program.color_channels@.len() == 2
            &&& program.tex_gen_count == 2
            &&& program.tev_stages@.len() == 2
            &&& reads(program.tev_stages@[0], 0)
            &&& mixes(program.tev_stages@[0], (15, 15, 15, 15), (7, 4, 5, 7), 0)
            &&& reads(program.tev_stages@[1], 1)
            &&& mixes(program.tev_stages@[1], (10, 15, 15, 15), (7, 4, 0, 7), 1)
            &&& program.dither == 0
        },
        runtime_materials::is_flag_program(program, loader_flags) ==> {
            &&& program.loader_flags == loader_flags
            &&& !program.lighting_enabled
            &&& program.mode == 1
            &&& program.color_channel_count == 0
            &&& program.color_channels@.len() == 0
            &&& program.tex_gen_count == 1
            &&& program.tev_stages@.len() == 1
            &&& reads(program.tev_stages@[0], 0)
            &&& mixes(program.tev_stages@[0], (8, 15, 15, 15), (4, 7, 7, 7), 0)
            &&& program.dither == 0
        },
        runtime_materials::is_wave_program(program, loader_flags)
            || runtime_materials::is_flag_program(program, loader_flags) ==> program.tex_gens@.len()
            == 8 && forall|i: int|
            0 <= i < 8 ==> (#[trigger] program.tex_gens@[i]).gen_type == 1
                && program.tex_gens@[i].source == 4 + i && program.tex_gens@[i].matrix == 60,
        runtime_materials::is_wave_program(program, loader_flags) ==> forall|i: int|
            0 <= i < 2 ==> {
                let channel = #[trigger] program.color_channels@[i];
                &&& channel.enable == 0
                &&& channel.mat_src == 1
                &&& channel.light_mask == 0
                &&& channel.diffuse_fn == 2
                &&& channel.attenuation_fn == 2
                &&& channel.amb_src == 1
            },
{
}

/// A made-up material holds its texture in the first place alone, stands at its own index and is
/// white; the foam blends over what lies below without writing depth, the cloth of a flag passes
/// what is not wholly transparent and writes it.
pub proof fn law_made_up_materials_show_one_texture(
    resource: Seq<char>,
    index: usize,
    texture: usize,
)
    ensures
        ({
            let wave = runtime_materials::plain_view(
                "_runtime_wave"@,
                index,
                texture,
                runtime_materials::wave_tev_colors(),
                runtime_materials::wave_tests(),
            );
            let flag = runtime_materials::plain_view(
                runtime_materials::flag_material_name(resource),
                index,
                texture,
                runtime_materials::no_tev_colors(),
                runtime_materials::flag_tests(),
            );
            &&& flag.name == "_runtime_flag_"@ + resource
            &&& wave.name == "_runtime_wave"@
            &&& wave.material_index == index && wave.material_id == index && wave.cull_mode == 0
            &&& flag.material_index == index && flag.material_id == index && flag.cull_mode == 0
            &&& wave.texture_indices.len() == 8 && flag.texture_indices == wave.texture_indices
            &&& wave.texture_indices[0] == Some(texture)
            &&& forall|i: int| 1 <= i < 8 ==> (#[trigger] wave.texture_indices[i]) is None
            &&& wave.material_colors.len() == 2 && flag.material_colors == wave.material_colors
            &&& wave.tev_k_colors.len() == 4 && flag.tev_k_colors == wave.tev_k_colors
            &&& forall|i: int|
                0 <= i < 2 ==> (#[trigger] wave.material_colors[i]) == (Rgba {
                    r: 255,
                    g: 255,
                    b: 255,
                    a: 255,
                })
            &&& forall|i: int|
                0 <= i < 4 ==> (#[trigger] wave.tev_k_colors[i]) == (Rgba {
                    r: 255,
                    g: 255,
                    b: 255,
                    a: 255,
                })
            &&& wave.tev_colors.len() == 4
            &&& wave.tev_colors[0].r == 0xc2 && wave.tev_colors[0].g == 0xf2
                && wave.tev_colors[0].b == 0xbe && wave.tev_colors[0].a == 0
            &&& wave.tev_colors[1].a == 0x48 && wave.tev_colors[2].a == 0x90
                && wave.tev_colors[3].a == 0
            &&& forall|i: int|
                1 <= i < 4 ==> (#[trigger] wave.tev_colors[i]).r == 0 && wave.tev_colors[i].g == 0
                    && wave.tev_colors[i].b == 0
            &&& flag.tev_colors.len() == 4
            &&& forall|i: int|
                0 <= i < 4 ==> (#[trigger] flag.tev_colors[i]).r == 0 && flag.tev_colors[i].g == 0
                    && flag.tev_colors[i].b == 0 && flag.tev_colors[i].a == 0
            &&& wave.alpha_compare == (J3dAlphaCompare {
                comp0: 6,
                ref0: 0x55,
                op: 1,
                comp1: 3,
                ref1: 0x23,
            })
            &&& wave.blend_mode == (J3dBlendMode {
                mode: 1,
                src_factor: 4,
                dst_factor: 2,
                logic_op: 5,
            })
            &&& wave.z_mode == (J3dZMode { compare_enable: 1, func: 3, update_enable: 0 })
            &&& wave.z_comp_loc == 1
            &&& flag.alpha_compare == (J3dAlphaCompare {
                comp0: 4,
                ref0: 0,
                op: 0,
                comp1: 4,
                ref1: 0,
            })
            &&& flag.blend_mode == (J3dBlendMode {
                mode: 1,
                src_factor: 1,
                dst_factor: 0,
                logic_op: 5,
            })
            &&& flag.z_mode == (J3dZMode { compare_enable: 1, func: 3, update_enable: 1 })
            &&& flag.z_comp_loc == 0
        }),
{
}

proof fn lemma_wrapped(s: u32, low: u32)
    requires
        low == 0x41c6_4e6du32.wrapping_mul(s),
    ensures
        low.wrapping_add(12_345) as int == (1_103_515_245 * s + 12_345) % 0x1_0000_0000,
{
    let product = 1_103_515_245 * s;
    assert(0x41c6_4e6d == 1_103_515_245);
    assert(low as int == product % 0x1_0000_0000);
    assert((low + 12_345) % 0x1_0000_0000 == (product + 12_345) % 0x1_0000_0000);
}

/// The game's random numbers: the state is taken times 1103515245 plus 12345 in 32 bits, and 15
/// bits above the lower half are drawn.
pub proof fn law_grass_draws_the_games_numbers(seed: u32, n: nat)
    ensures
        preview_grass::state_after(seed, 0) == seed,
        preview_grass::state_after(seed, n + 1) as int == (1_103_515_245
            * preview_grass::state_after(seed, n) + 12_345) % 0x1_0000_0000,
        preview_grass::drawn(seed) as int == (seed as int / 0x1_0000) % 0x8000,
{
    let s = preview_grass::state_after(seed, n);
    let low = 0x41c6_4e6du32.wrapping_mul(s);
    lemma_wrapped(s, low);
    assert((seed >> 16) & 0x7fff == (seed / 0x1_0000) % 0x8000) by (bit_vector);
}

/// Every blade takes three numbers in order, for its place along x, along z and for its height; its
/// sway goes round in ten steps within the group.
pub proof fn law_blades_take_three_numbers(group: GrassGroup, place: int, k: int)
    requires
        0 <= k < group.blade_count,
        0 <= place <= usize::MAX,
    ensures
        ({
            let blades = preview_grass::blades_of(
                place,
                group.first_blade as int,
                group.blade_count as nat,
            );
            let number = (3 * (group.first_blade + k)) as nat;
            &&& blades.len() == group.blade_count
            &&& blades[k].group == place
            &&& blades[k].x == preview_grass::drawn(preview_grass::state_after(1, number + 1))
            &&& blades[k].z == preview_grass::drawn(preview_grass::state_after(1, number + 2))
            &&& blades[k].height == preview_grass::drawn(
                preview_grass::state_after(1, number + 3),
            )
            &&& blades[k].phase == k % 10
        }),
{
}

/// A blade is a triangle of its group's model, dark at the two lower corners and bright at the
/// tip, that turns about the upright axis to the eye.
pub proof fn law_blades_turn_to_the_eye(group: GrassGroup, packet: usize, k: int)
    requires
        0 <= k < group.blade_count,
        group.first_blade + group.blade_count <= usize::MAX,
    ensures
        ({
            let t = preview_grass::triangles_of(group, packet, group.blade_count as nat)[k];
            let dark = Rgba { r: 40, g: 100, b: 40, a: 255 };
            let bright = Rgba { r: 60, g: 200, b: 60, a: 255 };
            &&& t.source == group.first_blade + k
            &&& t.model_index == group.model_index
            &&& t.packet_index == packet
            &&& t.material_index is None
            &&& t.texture_index is None
            &&& t.render_layer == PreviewRenderLayer::Main
            &&& t.vertex_colors matches Some(colors)
            &&& colors.a == dark
            &&& colors.b == bright
            &&& colors.c == dark
            &&& t.color_channels.first == t.vertex_colors
            &&& t.color_channels.second is None
            &&& t.combine_mode == J3dPreviewCombineMode::VertexOnly
            &&& t.billboard == Some(J3dBillboardMode::YAxis)
            &&& t.cull_mode == Some(0u8)
            &&& t.blend_mode == Some(
                J3dBlendMode { mode: 1, src_factor: 1, dst_factor: 0, logic_op: 5 },
            )
            &&& t.z_mode == Some(J3dZMode { compare_enable: 1, func: 3, update_enable: 1 })
            &&& t.alpha_compare is None
        }),
{
}

proof fn lemma_points(group: GrassGroup, n: nat, k: int)
    requires
        0 <= k < n <= group.blade_count,
        group.first_blade + group.blade_count <= usize::MAX,
    ensures
        preview_grass::points_of(group, n).contains(
            (GrassPoint {
                blade: (group.first_blade + k) as usize,
                model_index: group.model_index,
            }),
        ) <==> k % preview_grass::point_stride(group.blade_count as int) == 0,
        forall|i: int|
            0 <= i < preview_grass::points_of(group, n).len() ==> (
            #[trigger] preview_grass::points_of(group, n)[i]).blade < group.first_blade + n,
    decreases n,
{
    let rest = preview_grass::points_of(group, (n - 1) as nat);
    let all = preview_grass::points_of(group, n);
    let p = GrassPoint {
        blade: (group.first_blade + k) as usize,
        model_index: group.model_index,
    };
    if n > 1 {
        lemma_points(
            group,
            (n - 1) as nat,
            if k < n - 1 {
                k
            } else {
                0
            },
        );
    }
    if k < n - 1 {
        if rest.contains(p) {
            let i = choose|i: int| 0 <= i < rest.len() && rest[i] == p;
            assert(all[i] == p);
        }
        if all.contains(p) {
            let i = choose|i: int| 0 <= i < all.len() && all[i] == p;
            assert(i < rest.len());
            assert(rest[i] == p);
        }
    } else {
        if k % preview_grass::point_stride(group.blade_count as int) == 0 {
            assert(all[all.len() - 1] == p);
        } else if all.contains(p) {
            let i = choose|i: int| 0 <= i < all.len() && all[i] == p;
            assert(rest[i] == p);
        }
    }
}

/// A small group can be picked at every blade; a large one at each of its blades that is a
/// multiple of a five-hundredth of their number.
pub proof fn law_grass_is_picked_at_regular_blades(group: GrassGroup, k: int)
    requires
        0 <= k < group.blade_count,
        group.first_blade + group.blade_count <= usize::MAX,
    ensures
        ({
            let points = preview_grass::points_of(group, group.blade_count as nat);
            let point = GrassPoint {
                blade: (group.first_blade + k) as usize,
                model_index: group.model_index,
            };
            &&& group.blade_count < 1000 ==> points.contains(point)
            &&& group.blade_count >= 500 ==> (points.contains(point) <==> k % (group.blade_count
                as int / 500) == 0)
        }),
{
    lemma_points(group, group.blade_count as nat, k);
}

/// Grass grows for the grass groups of the scene alone, as many blades as a group authors while
/// the stage's quarter of a million lasts, one model to a group.
pub proof fn law_groups_grow_what_they_author(
    objects: Seq<SceneObject>,
    first_model: usize,
    n: nat,
)
    requires
        n < objects.len() <= usize::MAX,
        first_model + objects.len() <= usize::MAX,
    ensures
        ({
            let before = preview_grass::grass_groups(objects, first_model, n);
            let after = preview_grass::grass_groups(objects, first_model, n + 1);
            let object = objects[n as int];
            let named = object.factory_name@ == "MapObjGrassGroup"@ || (
            object.class_name matches Some(class) && class@ == "MapObjGrassGroup"@);
            let used = if before.len() == 0 {
                0
            } else {
                before.last().first_blade + before.last().blade_count
            };
            let authored = match object.param("grass_blade_count"@) {
                Some(value) => text::usize_value(value),
                None => None,
            };
            &&& !named || authored is None || authored == Some(0usize) || used >= 250_000 ==> after
                == before
            &&& named && used < 250_000 && (authored matches Some(wanted) && wanted > 0) ==> {
                &&& after.len() == before.len() + 1
                &&& after.take(before.len() as int) == before
                &&& after.last().object == n
                &&& after.last().first_blade == used
                &&& after.last().model_index == first_model + before.len()
                &&& authored->0 <= 250_000 - used ==> after.last().blade_count == authored->0
                &&& authored->0 > 250_000 - used ==> after.last().blade_count == 250_000 - used
            }
        }),
{
    lemma_groups_bound(objects, first_model, n);
}

proof fn lemma_groups_bound(objects: Seq<SceneObject>, first_model: usize, n: nat)
    requires
        n <= objects.len() <= usize::MAX,
    ensures
        preview_grass::grass_groups(objects, first_model, n).len() <= n,
        0 <= preview_grass::blades_in(preview_grass::grass_groups(objects, first_model, n))
            <= 250_000,
    decreases n,
{
    if n > 0 {
        lemma_groups_bound(objects, first_model, (n - 1) as nat);
    }
}

} // verus!
