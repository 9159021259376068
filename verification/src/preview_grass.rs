//! Grass: how many blades each group has, and which random numbers place them.
use vstd::prelude::*;

use crate::preview::{
    ColorChannels, CornerColors, J3dBillboardMode, J3dBlendMode, J3dPreviewCombineMode, J3dZMode,
    PreviewRenderLayer, PreviewTriangle, Rgba,
};
use crate::stage::SceneObject;
use crate::text;

verus! {

/// The most blades that a stage shows.
pub const MAX_GRASS_BLADES_PER_STAGE: usize = 250_000;

/// About as many points are kept of a group.
pub const POINTS_PER_GRASS_GROUP: usize = 500;

/// The next state of the game's random number generator.
pub open spec fn next_state(state: u32) -> u32 {
    (0x41c6_4e6du32.wrapping_mul(state)).wrapping_add(12_345)
}

/// The state after `n` draws.
pub open spec fn state_after(seed: u32, n: nat) -> u32
    decreases n,
{
    if n == 0 {
        seed
    } else {
        next_state(state_after(seed, (n - 1) as nat))
    }
}

/// The number that a state gives, in 32768ths.
pub open spec fn drawn(state: u32) -> u32 {
    (state >> 16) & 0x7fff
}

/// The game's random number generator.
#[derive(Debug)]
pub struct SmsRand {
    pub next: u32,
}

impl SmsRand {
    /// A generator that starts from a seed.
    pub fn new(seed: u32) -> (r: SmsRand)
        ensures
            r.next == seed,
    {
        SmsRand { next: seed }
    }

    /// Draws a number below one, in 32768ths.
    pub fn next_unit(&mut self) -> (r: u32)
        ensures
            final(self).next == next_state(old(self).next),
            r == drawn(final(self).next),
            r < 32_768,
    {
        self.next = 0x41c6_4e6du32.wrapping_mul(self.next).wrapping_add(12_345);
        let state: u32 = self.next;
        proof {
            assert((state >> 16) & 0x7fff < 32_768) by (bit_vector);
        }
        (state >> 16) & 0x7fff
    }
}

/// The object is a group of grass.
pub open spec fn is_grass(object: SceneObject) -> bool {
    object.factory_name@ == "MapObjGrassGroup"@ || (object.class_name matches Some(class)
        && class@ == "MapObjGrassGroup"@)
}

/// Whether the object is a group of grass. Case counts.
pub fn is_map_obj_grass_group(object: &SceneObject) -> (r: bool)
    ensures
        r == is_grass(*object),
{
    text::same(object.factory_name.as_str(), "MapObjGrassGroup") || match &object.class_name {
        Some(class) => text::same(class.as_str(), "MapObjGrassGroup"),
        None => false,
    }
}

/// A group of grass that is shown.
#[derive(Debug, Clone, Copy, PartialEq, Eq, Structural)]
pub struct GrassGroup {
    /// Position of the object.
    pub object: usize,
    pub first_blade: usize,
    pub blade_count: usize,
    pub model_index: usize,
}

/// How many blades the object asks for.
pub open spec fn authored_blades(object: SceneObject) -> Option<usize> {
    if is_grass(object) {
        match object.param("grass_blade_count"@) {
            Some(value) => text::usize_value(value),
            None => None,
        }
    } else {
        None
    }
}

/// How many blades some groups have together.
pub open spec fn blades_in(groups: Seq<GrassGroup>) -> int {
    if groups.len() == 0 {
        0
    } else {
        groups.last().first_blade + groups.last().blade_count
    }
}

/// The groups after one more object: it gets the blades it asks for, as far as they are left.
pub open spec fn with_object(
    groups: Seq<GrassGroup>,
    object: SceneObject,
    place: int,
    first_model: usize,
) -> Seq<GrassGroup> {
    let left = MAX_GRASS_BLADES_PER_STAGE - blades_in(groups);
    match authored_blades(object) {
        None => groups,
        Some(authored) => {
            let count = if authored < left {
                authored as int
            } else {
                left
            };
            if count <= 0 {
                groups
            } else {
                groups.push(
                    GrassGroup {
                        object: place as usize,
                        first_blade: blades_in(groups) as usize,
                        blade_count: count as usize,
                        model_index: (first_model + groups.len()) as usize,
                    },
                )
            }
        },
    }
}

/// The groups among the first `n` objects.
pub open spec fn grass_groups(objects: Seq<SceneObject>, first_model: usize, n: nat) -> Seq<
    GrassGroup,
>
    decreases n,
{
    if n == 0 {
        Seq::empty()
    } else {
        with_object(
            grass_groups(objects, first_model, (n - 1) as nat),
            objects[n - 1],
            n - 1,
            first_model,
        )
    }
}

/// A blade: random numbers for its place and height, and its swing phase.
#[derive(Debug, Clone, Copy, PartialEq, Eq, Structural)]
pub struct GrassBlade {
    /// Position of the group.
    pub group: usize,
    pub x: u32,
    pub z: u32,
    pub height: u32,
    pub phase: usize,
}

/// The number of a draw, counted from zero.
pub open spec fn draw(n: int) -> u32 {
    drawn(state_after(1, (n + 1) as nat))
}

/// A blade, from its number in the stage and in its group.
pub open spec fn blade(group: int, number: int, index: int) -> GrassBlade {
    GrassBlade {
        group: group as usize,
        x: draw(3 * number),
        z: draw(3 * number + 1),
        height: draw(3 * number + 2),
        phase: (index % 10) as usize,
    }
}

/// The first `n` blades of a group.
pub open spec fn blades_of(group: int, first: int, n: nat) -> Seq<GrassBlade> {
    Seq::new(n, |k: int| blade(group, first + k, k))
}

/// The blades of the first `n` groups.
pub open spec fn all_blades(groups: Seq<GrassGroup>, n: nat) -> Seq<GrassBlade>
    decreases n,
{
    if n == 0 {
        Seq::empty()
    } else {
        all_blades(groups, (n - 1) as nat) + blades_of(
            n - 1,
            groups[n - 1].first_blade as int,
            groups[n - 1].blade_count as nat,
        )
    }
}

/// Of how many blades of a group one gives a point.
pub open spec fn point_stride(blades: int) -> int {
    if blades / 500 < 1 {
        1
    } else {
        blades / 500
    }
}

/// A blade whose tip is a point of the preview.
#[derive(Debug, Clone, Copy, PartialEq, Eq, Structural)]
pub struct GrassPoint {
    pub blade: usize,
    pub model_index: usize,
}

/// The points of the first `n` blades of a group.
pub open spec fn points_of(group: GrassGroup, n: nat) -> Seq<GrassPoint>
    decreases n,
{
    if n == 0 {
        Seq::empty()
    } else {
        let rest = points_of(group, (n - 1) as nat);
        if (n - 1) % point_stride(group.blade_count as int) == 0 {
            rest.push(
                GrassPoint {
                    blade: (group.first_blade + n - 1) as usize,
                    model_index: group.model_index,
                },
            )
        } else {
            rest
        }
    }
}

/// The points of the first `n` groups.
pub open spec fn all_points(groups: Seq<GrassGroup>, n: nat) -> Seq<GrassPoint>
    decreases n,
{
    if n == 0 {
        Seq::empty()
    } else {
        all_points(groups, (n - 1) as nat) + points_of(
            groups[n - 1],
            groups[n - 1].blade_count as nat,
        )
    }
}

/// The colour of the top of a blade.
pub open spec fn upper_color() -> Rgba {
    Rgba { r: 60, g: 200, b: 60, a: 255 }
}

/// The colour of the foot of a blade.
pub open spec fn lower_color() -> Rgba {
    Rgba { r: 40, g: 100, b: 40, a: 255 }
}

/// The colours of a blade: its second corner is its top.
pub open spec fn blade_colors() -> CornerColors {
    CornerColors { a: lower_color(), b: upper_color(), c: lower_color() }
}

fn make_blade_colors() -> (r: CornerColors)
    ensures
        r == blade_colors(),
{
    let lower = Rgba { r: 40, g: 100, b: 40, a: 255 };
    let upper = Rgba { r: 60, g: 200, b: 60, a: 255 };
    CornerColors { a: lower, b: upper, c: lower }
}

/// The triangle of a blade: opaque, two-sided, without a texture, coloured by its corners; it
/// stays upright and turns to the camera.
pub open spec fn blade_triangle(number: int, model: usize, packet: usize) -> PreviewTriangle {
    PreviewTriangle {
        source: number as usize,
        material_index: None,
        packet_index: packet,
        model_index: model,
        render_layer: PreviewRenderLayer::Main,
        texture_index: None,
        mask_texture_index: None,
        cull_mode: Some(0),
        alpha_compare: None,
        blend_mode: Some(J3dBlendMode { mode: 1, src_factor: 1, dst_factor: 0, logic_op: 5 }),
        z_mode: Some(J3dZMode { compare_enable: 1, func: 3, update_enable: 1 }),
        z_comp_loc: None,
        color_channels: ColorChannels { first: Some(blade_colors()), second: None },
        color: None,
        vertex_colors: Some(blade_colors()),
        combine_mode: J3dPreviewCombineMode::VertexOnly,
        billboard: Some(J3dBillboardMode::YAxis),
        particle_type: None,
        particle_color_mode: None,
        particle_environment_color: None,
    }
}

/// The triangles of the first `n` blades of a group.
pub open spec fn triangles_of(group: GrassGroup, packet: usize, n: nat) -> Seq<PreviewTriangle> {
    Seq::new(n, |k: int| blade_triangle(group.first_blade + k, group.model_index, packet))
}

/// The triangles of the first `n` groups.
pub open spec fn all_triangles(groups: Seq<GrassGroup>, packet: usize, n: nat) -> Seq<
    PreviewTriangle,
>
    decreases n,
{
    if n == 0 {
        Seq::empty()
    } else {
        all_triangles(groups, packet, (n - 1) as nat) + triangles_of(
            groups[n - 1],
            packet,
            groups[n - 1].blade_count as nat,
        )
    }
}

/// The grass of a stage.
#[derive(Debug)]
pub struct ProceduralGrassPreview {
    pub groups: Vec<GrassGroup>,
    pub blades: Vec<GrassBlade>,
    pub points: Vec<GrassPoint>,
    pub triangles: Vec<PreviewTriangle>,
    /// The models of the objects, by their ids.
    pub object_model_indices: Vec<(String, usize)>,
    pub group_count: usize,
    pub blade_count: usize,
}

/// The models of the objects, as texts and numbers.
pub open spec fn model_views(list: Seq<(String, usize)>) -> Seq<(Seq<char>, usize)> {
    Seq::new(list.len(), |i: int| (list[i].0@, list[i].1))
}

/// The models of the groups' objects.
pub open spec fn group_models(objects: Seq<SceneObject>, groups: Seq<GrassGroup>) -> Seq<
    (Seq<char>, usize),
> {
    Seq::new(
        groups.len(),
        |i: int| (objects[groups[i].object as int].id@, groups[i].model_index),
    )
}

/// Each group follows the one before, and together they keep to the limit.
pub open spec fn follow_each_other(groups: Seq<GrassGroup>) -> bool {
    &&& forall|i: int|
        0 <= i < groups.len() ==> {
            &&& (#[trigger] groups[i]).first_blade == blades_in(groups.take(i))
            &&& groups[i].blade_count > 0
        }
    &&& blades_in(groups) <= MAX_GRASS_BLADES_PER_STAGE
}

proof fn lemma_groups_follow(objects: Seq<SceneObject>, first_model: usize, n: nat)
    requires
        n <= objects.len(),
        objects.len() <= usize::MAX,
    ensures
        follow_each_other(grass_groups(objects, first_model, n)),
        grass_groups(objects, first_model, n).len() <= n,
        forall|i: int|
            0 <= i < grass_groups(objects, first_model, n).len() ==> (#[trigger] grass_groups(
                objects,
                first_model,
                n,
            )[i]).object < n,
    decreases n,
{
    if n > 0 {
        lemma_groups_follow(objects, first_model, (n - 1) as nat);
        let rest = grass_groups(objects, first_model, (n - 1) as nat);
        let all = grass_groups(objects, first_model, n);
        if all.len() > rest.len() {
            assert forall|i: int| 0 <= i < all.len() implies ({
                &&& (#[trigger] all[i]).first_blade == blades_in(all.take(i))
                &&& all[i].blade_count > 0
            }) by {
                if i < rest.len() {
                    assert(all[i] == rest[i]);
                    assert(all.take(i) =~= rest.take(i));
                } else {
                    assert(all.take(i) =~= rest);
                }
            }
        }
    }
}

fn find_groups(objects: &[SceneObject], first_model_index: usize) -> (r: Vec<GrassGroup>)
    requires
        first_model_index + objects@.len() <= usize::MAX,
    ensures
        r@ == grass_groups(objects@, first_model_index, objects@.len()),
{
    let mut groups: Vec<GrassGroup> = Vec::new();
    let mut used: usize = 0;
    let mut i: usize = 0;
    while i < objects.len()
        invariant
            i <= objects.len(),
            first_model_index + objects@.len() <= usize::MAX,
            groups@ == grass_groups(objects@, first_model_index, i as nat),
            groups@.len() <= i,
            used == blades_in(groups@),
            used <= MAX_GRASS_BLADES_PER_STAGE,
        decreases objects.len() - i,
    {
        if is_map_obj_grass_group(&objects[i]) {
            let authored: Option<usize> = match objects[i].raw_param("grass_blade_count") {
                Some(value) => text::parse_usize(value),
                None => None,
            };
            if let Some(authored) = authored {
                let left: usize = MAX_GRASS_BLADES_PER_STAGE - used;
                let count: usize = if authored < left {
                    authored
                } else {
                    left
                };
                if count > 0 {
                    let model_index: usize = first_model_index + groups.len();
                    groups.push(
                        GrassGroup { object: i, first_blade: used, blade_count: count, model_index },
                    );
                    used += count;
                }
            }
        }
        i += 1;
    }
    groups
}

/// Draws the blades of all groups of grass, in the order of the objects, from one fixed seed.
pub fn build_procedural_grass_preview(
    objects: &[SceneObject],
    first_model_index: usize,
    packet_index: usize,
) -> (r: ProceduralGrassPreview)
    requires
        first_model_index + objects@.len() <= usize::MAX,
    ensures
        r.groups@ == grass_groups(objects@, first_model_index, objects@.len()),
        r.blades@ == all_blades(r.groups@, r.groups@.len()),
        r.points@ == all_points(r.groups@, r.groups@.len()),
        r.triangles@ == all_triangles(r.groups@, packet_index, r.groups@.len()),
        model_views(r.object_model_indices@) == group_models(objects@, r.groups@),
        r.group_count == r.groups@.len(),
        r.blade_count == blades_in(r.groups@),
{
    let groups = find_groups(objects, first_model_index);
    proof {
        lemma_groups_follow(objects@, first_model_index, objects@.len());
    }
    let mut blades: Vec<GrassBlade> = Vec::new();
    let mut points: Vec<GrassPoint> = Vec::new();
    let mut triangles: Vec<PreviewTriangle> = Vec::new();
    let mut models: Vec<(String, usize)> = Vec::new();
    let mut random = SmsRand::new(1);
    let mut total: usize = 0;
    let mut g: usize = 0;
    while g < groups.len()
        invariant
            g <= groups.len(),
            follow_each_other(groups@),
            forall|i: int| 0 <= i < groups@.len() ==> (#[trigger] groups@[i]).object < objects@.len(),
            total == blades_in(groups@.take(g as int)),
            random.next == state_after(1, (3 * total) as nat),
            blades@ == all_blades(groups@, g as nat),
            points@ == all_points(groups@, g as nat),
            triangles@ == all_triangles(groups@, packet_index, g as nat),
            model_views(models@) == group_models(objects@, groups@.take(g as int)),
        decreases groups.len() - g,
    {
        let group = groups[g];
        let ghost old_models = model_views(models@);
        models.push((objects[group.object].id.clone(), group.model_index));
        proof {
            assert(groups@.take(g + 1).last() == group);
            lemma_within_limit(groups@, g as int);
            assert(model_views(models@) =~= old_models.push(
                (objects@[group.object as int].id@, group.model_index),
            ));
            assert(group_models(objects@, groups@.take(g + 1)) =~= group_models(
                objects@,
                groups@.take(g as int),
            ).push((objects@[group.object as int].id@, group.model_index)));
        }
        grow_group(
            g,
            group,
            packet_index,
            &mut random,
            &mut blades,
            &mut points,
            &mut triangles,
        );
        total = group.first_blade + group.blade_count;
        g += 1;
    }
    proof {
        assert(groups@.take(g as int) =~= groups@);
    }
    let group_count: usize = groups.len();
    ProceduralGrassPreview {
        groups,
        blades,
        points,
        triangles,
        object_model_indices: models,
        group_count,
        blade_count: total,
    }
}

proof fn lemma_within_limit(groups: Seq<GrassGroup>, i: int)
    requires
        follow_each_other(groups),
        0 <= i < groups.len(),
    ensures
        groups[i].first_blade + groups[i].blade_count <= MAX_GRASS_BLADES_PER_STAGE,
    decreases groups.len() - i,
{
    if i + 1 < groups.len() {
        lemma_within_limit(groups, i + 1);
        assert(groups.take(i + 1).last() == groups[i]);
    }
}

fn grow_group(
    place: usize,
    group: GrassGroup,
    packet_index: usize,
    random: &mut SmsRand,
    blades: &mut Vec<GrassBlade>,
    points: &mut Vec<GrassPoint>,
    triangles: &mut Vec<PreviewTriangle>,
)
    requires
        group.first_blade + group.blade_count <= MAX_GRASS_BLADES_PER_STAGE,
        old(random).next == state_after(1, (3 * group.first_blade) as nat),
    ensures
        final(random).next == state_after(1, (3 * (group.first_blade + group.blade_count)) as nat),
        final(blades)@ == old(blades)@ + blades_of(
            place as int,
            group.first_blade as int,
            group.blade_count as nat,
        ),
        final(points)@ == old(points)@ + points_of(group, group.blade_count as nat),
        final(triangles)@ == old(triangles)@ + triangles_of(
            group,
            packet_index,
            group.blade_count as nat,
        ),
{
    let stride: usize = if group.blade_count / POINTS_PER_GRASS_GROUP < 1 {
        1
    } else {
        group.blade_count / POINTS_PER_GRASS_GROUP
    };
    let ghost old_blades = blades@;
    let ghost old_points = points@;
    let ghost old_triangles = triangles@;
    let mut k: usize = 0;
    proof {
        assert(old_blades =~= old_blades + blades_of(place as int, group.first_blade as int, 0));
        assert(old_points =~= old_points + points_of(group, 0));
        assert(old_triangles =~= old_triangles + triangles_of(group, packet_index, 0));
    }
    while k < group.blade_count
        invariant
            k <= group.blade_count,
            group.first_blade + group.blade_count <= MAX_GRASS_BLADES_PER_STAGE,
            stride == point_stride(group.blade_count as int),
            random.next == state_after(1, (3 * (group.first_blade + k)) as nat),
            blades@ == old_blades + blades_of(place as int, group.first_blade as int, k as nat),
            points@ == old_points + points_of(group, k as nat),
            triangles@ == old_triangles + triangles_of(group, packet_index, k as nat),
        decreases group.blade_count - k,
    {
        let ghost drawn_before = (3 * (group.first_blade + k)) as nat;
        let x: u32 = random.next_unit();
        proof {
            assert(random.next == state_after(1, drawn_before + 1));
        }
        let z: u32 = random.next_unit();
        proof {
            assert(random.next == state_after(1, drawn_before + 2));
        }
        let height: u32 = random.next_unit();
        proof {
            assert(random.next == state_after(1, drawn_before + 3));
        }
        blades.push(GrassBlade { group: place, x, z, height, phase: k % 10 });
        if k % stride == 0 {
            points.push(
                GrassPoint { blade: group.first_blade + k, model_index: group.model_index },
            );
        }
        triangles.push(
            PreviewTriangle {
                source: group.first_blade + k,
                material_index: None,
                packet_index,
                model_index: group.model_index,
                render_layer: PreviewRenderLayer::Main,
                texture_index: None,
                mask_texture_index: None,
                cull_mode: Some(0),
                alpha_compare: None,
                blend_mode: Some(
                    J3dBlendMode { mode: 1, src_factor: 1, dst_factor: 0, logic_op: 5 },
                ),
                z_mode: Some(J3dZMode { compare_enable: 1, func: 3, update_enable: 1 }),
                z_comp_loc: None,
                color_channels: ColorChannels { first: Some(make_blade_colors()), second: None },
                color: None,
                vertex_colors: Some(make_blade_colors()),
                combine_mode: J3dPreviewCombineMode::VertexOnly,
                billboard: Some(J3dBillboardMode::YAxis),
                particle_type: None,
                particle_color_mode: None,
                particle_environment_color: None,
            },
        );
        k += 1;
        proof {
            assert(blades@ =~= old_blades + blades_of(
                place as int,
                group.first_blade as int,
                k as nat,
            ));
            assert(points@ =~= old_points + points_of(group, k as nat));
            assert(triangles@ =~= old_triangles + triangles_of(group, packet_index, k as nat));
        }
    }
}

/// A stage never shows more blades than the limit, and no group is empty.
pub proof fn law_grass_keeps_to_the_limit(objects: Seq<SceneObject>, first_model: usize)
    requires
        objects.len() <= usize::MAX,
    ensures
        blades_in(grass_groups(objects, first_model, objects.len())) <= MAX_GRASS_BLADES_PER_STAGE,
        forall|i: int|
            0 <= i < grass_groups(objects, first_model, objects.len()).len()
                ==> (#[trigger] grass_groups(objects, first_model, objects.len())[i]).blade_count > 0,
{
    lemma_groups_follow(objects, first_model, objects.len());
}

} // verus!
