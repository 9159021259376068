//! The triangles that particles are drawn with: how many slots an emitter gets and how each is
//! drawn.
use vstd::prelude::*;

use crate::order;
use crate::particle_sources;
use crate::preview;
use crate::preview::{
    ColorChannels, J3dAlphaCompare, J3dBlendMode, J3dPreviewCombineMode, J3dTexturePreview,
    J3dZMode, PreviewRenderLayer, PreviewTexture, PreviewTriangle, Rgba, TextureView,
};
use crate::preview_textures;
use crate::search;
use crate::text;

verus! {

/// The most particles that an emitter shows at once.
pub const MAX_PARTICLE_CAPACITY: usize = 512;

/// Frames that a level transformation takes without any effect.
pub const DEFAULT_TRANSFORM_FRAMES: u32 = 600;

/// Particles that an emitter emits, or that those emit.
#[derive(Debug, Clone, Copy, PartialEq, Eq, Structural)]
pub enum JpaParticleKind {
    Parent,
    Child,
}

/// How an emitter's particles are drawn.
#[derive(Debug, Clone, Copy, PartialEq, Eq, Structural)]
pub struct JpaBaseShape {
    pub texture_index: u8,
    pub particle_type: u8,
    pub direction_type: u8,
    pub rotation_type: u8,
    pub environment_color: Rgba,
    pub color_mode: u8,
    pub alpha_compare: J3dAlphaCompare,
    pub blend_mode: u8,
    pub source_blend_factor: u8,
    pub destination_blend_factor: u8,
    pub z_compare_enable: bool,
    pub z_compare_function: u8,
}

/// How the particles that particles emit are drawn, and how many there are.
#[derive(Debug, Clone, Copy, PartialEq, Eq, Structural)]
pub struct JpaChildShape {
    pub texture_index: u8,
    pub particle_type: u8,
    pub direction_type: u8,
    pub rotation_type: u8,
    pub environment_color: Rgba,
    pub draw_parent: bool,
    pub spawn_step: u8,
    pub spawn_count: i16,
    pub lifetime: i16,
}

/// A particle effect, as far as its slots go.
#[derive(Debug)]
pub struct JpaEffect {
    pub uses_screen_texture: bool,
    pub indirect_texture_index: Option<u8>,
    pub base_shape: JpaBaseShape,
    pub child_shape: Option<JpaChildShape>,
    pub textures: Vec<J3dTexturePreview>,
    pub max_frame: i16,
    pub start_frame: i16,
}

/// What the speeds and lifetimes of an emitter allow, as the application computes it.
#[derive(Debug, Clone, Copy, PartialEq, Eq, Structural)]
pub struct BirthLimits {
    /// Particles that can be alive at once.
    pub parents: usize,
    /// Particles that can have living children at once.
    pub contributing_parents: usize,
    /// Times at which a particle emits children during its life.
    pub child_events: usize,
}

/// How many slots an emitter needs before the limits are applied.
pub open spec fn wanted_slots(
    base_type: u8,
    child: Option<JpaChildShape>,
    kind: JpaParticleKind,
    limits: BirthLimits,
) -> int {
    match kind {
        JpaParticleKind::Parent => limits.parents * (if base_type == 6 {
            2
        } else {
            1int
        }),
        JpaParticleKind::Child => match child {
            None => 1,
            Some(child) => {
                let each = (limits.child_events + 1) * (if child.spawn_count > 0 {
                    child.spawn_count as int
                } else {
                    0
                });
                limits.contributing_parents * each * (if child.particle_type == 6 {
                    2
                } else {
                    1int
                })
            },
        },
    }
}

/// A number of slots within the limits.
pub open spec fn limited_slots(wanted: int) -> int {
    if wanted < 1 {
        1
    } else if wanted > MAX_PARTICLE_CAPACITY {
        MAX_PARTICLE_CAPACITY as int
    } else {
        wanted
    }
}

fn saturating_product(a: usize, b: usize) -> (r: usize)
    ensures
        r == (if a * b > usize::MAX {
            usize::MAX as int
        } else {
            a * b
        }),
{
    match a.checked_mul(b) {
        Some(product) => product,
        None => usize::MAX,
    }
}

proof fn lemma_capped_product(a: int, b: int, cap: int, limit: int)
    requires
        0 <= a,
        0 <= b,
        0 < limit <= cap,
    ensures
        a > cap && b > 0 ==> a * b > cap && cap * b >= limit,
        a <= cap ==> a * b >= 0,
        b == 0 ==> a * b == 0,
{
    if b == 0 {
        assert(a * b == 0) by (nonlinear_arith)
            requires
                b == 0,
        ;
    } else if a > cap {
        assert(a * b >= a) by (nonlinear_arith)
            requires
                a >= 0,
                b >= 1,
        ;
        assert(cap * b >= cap) by (nonlinear_arith)
            requires
                cap >= 0,
                b >= 1,
        ;
    } else {
        assert(a * b >= 0) by (nonlinear_arith)
            requires
                a >= 0,
                b >= 0,
        ;
    }
}

/// How many slots an emitter gets: enough for every particle that can be alive, twice as many for
/// crossed stripes, at least one and at most 512.
pub fn particle_capacity(
    base_type: u8,
    child: Option<JpaChildShape>,
    kind: JpaParticleKind,
    limits: BirthLimits,
) -> (r: usize)
    requires
        limits.child_events < usize::MAX,
    ensures
        r == limited_slots(wanted_slots(base_type, child, kind, limits)),
        1 <= r <= MAX_PARTICLE_CAPACITY,
{
    let capacity = match kind {
        JpaParticleKind::Parent => {
            saturating_product(
                limits.parents,
                if base_type == 6 {
                    2
                } else {
                    1
                },
            )
        },
        JpaParticleKind::Child => {
            let child = match child {
                Some(child) => child,
                None => {
                    return 1;
                },
            };
            let count: usize = if child.spawn_count > 0 {
                child.spawn_count as usize
            } else {
                0
            };
            let each = saturating_product(limits.child_events + 1, count);
            let all = saturating_product(limits.contributing_parents, each);
            let factor: usize = if child.particle_type == 6 {
                2
            } else {
                1
            };
            let r = saturating_product(all, factor);
            proof {
                let cap = usize::MAX as int;
                let limit = MAX_PARTICLE_CAPACITY as int;
                let e = (limits.child_events + 1) * count;
                let p = limits.contributing_parents as int;
                assert(e >= 0) by (nonlinear_arith)
                    requires
                        e == (limits.child_events + 1) * count,
                        limits.child_events >= 0,
                        count >= 0,
                ;
                lemma_capped_product(e, p, cap, limit);
                assert(p * e == e * p) by (nonlinear_arith);
                assert(p * each == each * p) by (nonlinear_arith);
                lemma_capped_product(p * e, factor as int, cap, limit);
                assert((p * e) * factor == wanted_slots(
                    base_type,
                    Some(child),
                    kind,
                    limits,
                ));
                assert(limited_slots(r as int) == limited_slots((p * e) * factor));
            }
            r
        },
    };
    if capacity < 1 {
        1
    } else if capacity > MAX_PARTICLE_CAPACITY {
        MAX_PARTICLE_CAPACITY
    } else {
        capacity
    }
}

/// A slot without a particle is white and cannot be seen.
pub open spec fn hidden_color() -> Rgba {
    Rgba { r: 255, g: 255, b: 255, a: 0 }
}

/// The two triangles of a slot.
pub open spec fn slot_triangle(
    corner: usize,
    shape: JpaBaseShape,
    screen: bool,
    packet: int,
    texture: int,
    model: usize,
) -> PreviewTriangle {
    PreviewTriangle {
        source: corner,
        material_index: None,
        packet_index: packet as usize,
        model_index: model,
        render_layer: if screen {
            PreviewRenderLayer::ParticleDistortion
        } else {
            PreviewRenderLayer::Particle
        },
        texture_index: Some(texture as usize),
        mask_texture_index: None,
        cull_mode: Some(0),
        alpha_compare: Some(shape.alpha_compare),
        blend_mode: Some(
            J3dBlendMode {
                mode: shape.blend_mode,
                src_factor: shape.source_blend_factor,
                dst_factor: shape.destination_blend_factor,
                logic_op: 3,
            },
        ),
        z_mode: Some(
            J3dZMode {
                compare_enable: if shape.z_compare_enable {
                    1
                } else {
                    0
                },
                func: shape.z_compare_function,
                update_enable: 0,
            },
        ),
        z_comp_loc: None,
        color_channels: ColorChannels {
            first: Some(preview::all_corners(hidden_color())),
            second: Some(preview::all_corners(shape.environment_color)),
        },
        color: None,
        vertex_colors: None,
        combine_mode: J3dPreviewCombineMode::TextureModulateVertex,
        billboard: None,
        particle_type: Some(shape.particle_type),
        particle_color_mode: Some(shape.color_mode),
        particle_environment_color: Some(shape.environment_color),
    }
}

/// The slots of an emitter.
pub open spec fn slots(
    shape: JpaBaseShape,
    screen: bool,
    packet: int,
    texture: int,
    model: usize,
    capacity: int,
) -> Seq<PreviewTriangle> {
    Seq::new(
        (2 * capacity) as nat,
        |i: int| slot_triangle((i % 2) as usize, shape, screen, packet, texture, model),
    )
}

fn make_slot_triangle(
    corner: usize,
    shape: JpaBaseShape,
    screen: bool,
    packet: usize,
    texture: usize,
    model: usize,
) -> (r: PreviewTriangle)
    ensures
        r == slot_triangle(corner, shape, screen, packet as int, texture as int, model),
{
    PreviewTriangle {
        source: corner,
        material_index: None,
        packet_index: packet,
        model_index: model,
        render_layer: if screen {
            PreviewRenderLayer::ParticleDistortion
        } else {
            PreviewRenderLayer::Particle
        },
        texture_index: Some(texture),
        mask_texture_index: None,
        cull_mode: Some(0),
        alpha_compare: Some(shape.alpha_compare),
        blend_mode: Some(
            J3dBlendMode {
                mode: shape.blend_mode,
                src_factor: shape.source_blend_factor,
                dst_factor: shape.destination_blend_factor,
                logic_op: 3,
            },
        ),
        z_mode: Some(
            J3dZMode {
                compare_enable: if shape.z_compare_enable {
                    1
                } else {
                    0
                },
                func: shape.z_compare_function,
                update_enable: 0,
            },
        ),
        z_comp_loc: None,
        color_channels: ColorChannels {
            first: Some(preview::one_color(Rgba { r: 255, g: 255, b: 255, a: 0 })),
            second: Some(preview::one_color(shape.environment_color)),
        },
        color: None,
        vertex_colors: None,
        combine_mode: J3dPreviewCombineMode::TextureModulateVertex,
        billboard: None,
        particle_type: Some(shape.particle_type),
        particle_color_mode: Some(shape.color_mode),
        particle_environment_color: Some(shape.environment_color),
    }
}

/// Appends the two triangles of a slot.
pub fn push_particle_slot(
    triangles: &mut Vec<PreviewTriangle>,
    packet: usize,
    texture: usize,
    shape: JpaBaseShape,
    screen: bool,
    model: usize,
)
    ensures
        final(triangles)@ == old(triangles)@.push(
            slot_triangle(0, shape, screen, packet as int, texture as int, model),
        ).push(slot_triangle(1, shape, screen, packet as int, texture as int, model)),
{
    triangles.push(make_slot_triangle(0, shape, screen, packet, texture, model));
    triangles.push(make_slot_triangle(1, shape, screen, packet, texture, model));
}

/// The particles of an emitter in the stage preview.
#[derive(Debug, Clone, Copy, PartialEq, Eq, Structural)]
pub struct ParticlePreview {
    pub kind: JpaParticleKind,
    /// Emitters of the same effect show the same particles.
    pub shared_simulation_id: Option<u16>,
    pub first_triangle: usize,
    pub triangle_count: usize,
    pub particle_capacity: usize,
    pub model_index: Option<usize>,
}

/// The stage preview while emitters are appended.
#[verifier::ext_equal]
pub struct ParticleState {
    pub textures: Seq<TextureView>,
    pub triangles: Seq<PreviewTriangle>,
    pub next_packet: int,
    pub previews: Seq<ParticlePreview>,
}

/// The shape that particles of a kind are drawn with.
pub open spec fn drawn_shape(effect: JpaEffect, kind: JpaParticleKind) -> JpaBaseShape {
    match (kind, effect.child_shape) {
        (JpaParticleKind::Child, Some(child)) => JpaBaseShape {
            particle_type: child.particle_type,
            direction_type: child.direction_type,
            rotation_type: child.rotation_type,
            environment_color: child.environment_color,
            ..effect.base_shape
        },
        _ => effect.base_shape,
    }
}

/// The texture that an emitter's own particles show.
pub open spec fn source_texture(effect: JpaEffect) -> u8 {
    if effect.uses_screen_texture {
        match effect.indirect_texture_index {
            Some(index) => index,
            None => 1,
        }
    } else {
        effect.base_shape.texture_index
    }
}

/// The preview with the particles of one kind of an emitter; a texture that the effect lacks
/// leaves them out.
pub open spec fn with_shape(
    state: ParticleState,
    effect: JpaEffect,
    kind: JpaParticleKind,
    shared: Option<u16>,
    model: Option<usize>,
    texture: u8,
    screen: bool,
    limits: BirthLimits,
) -> ParticleState {
    if texture < effect.textures@.len() {
        let capacity = limited_slots(
            wanted_slots(effect.base_shape.particle_type, effect.child_shape, kind, limits),
        );
        ParticleState {
            textures: state.textures.push(
                preview_textures::preview_of(effect.textures@[texture as int]),
            ),
            triangles: state.triangles + slots(
                drawn_shape(effect, kind),
                screen,
                state.next_packet,
                state.textures.len() as int,
                model_number(model),
                capacity,
            ),
            next_packet: state.next_packet + 1,
            previews: state.previews.push(
                ParticlePreview {
                    kind,
                    shared_simulation_id: shared,
                    first_triangle: state.triangles.len() as usize,
                    triangle_count: (2 * capacity) as usize,
                    particle_capacity: capacity as usize,
                    model_index: model,
                },
            ),
        }
    } else {
        state
    }
}

/// The number of a model; emitters without one count to the first.
pub open spec fn model_number(model: Option<usize>) -> usize {
    match model {
        Some(model) => model,
        None => 0,
    }
}

/// The preview with an emitter.
pub open spec fn with_emitter(
    state: ParticleState,
    effect: JpaEffect,
    shared: Option<u16>,
    model: Option<usize>,
    limits: BirthLimits,
) -> ParticleState {
    let own = match effect.child_shape {
        Some(child) => child.draw_parent,
        None => true,
    };
    let first = if own {
        with_shape(
            state,
            effect,
            JpaParticleKind::Parent,
            shared,
            model,
            source_texture(effect),
            effect.uses_screen_texture,
            limits,
        )
    } else {
        state
    };
    match effect.child_shape {
        Some(child) => with_shape(
            first,
            effect,
            JpaParticleKind::Child,
            shared,
            model,
            child.texture_index,
            false,
            limits,
        ),
        None => first,
    }
}

/// The preview as it stands.
pub open spec fn state_view(
    textures: Seq<PreviewTexture>,
    triangles: Seq<PreviewTriangle>,
    next_packet: usize,
    previews: Seq<ParticlePreview>,
) -> ParticleState {
    ParticleState {
        textures: preview::texture_views(textures),
        triangles,
        next_packet: next_packet as int,
        previews,
    }
}

/// Appends the particles of one kind of an emitter, where the effect has their texture.
pub fn append_particle_shape_preview(
    effect: &JpaEffect,
    kind: JpaParticleKind,
    shared: Option<u16>,
    model: Option<usize>,
    texture: u8,
    screen: bool,
    limits: BirthLimits,
    textures: &mut Vec<PreviewTexture>,
    triangles: &mut Vec<PreviewTriangle>,
    next_packet: &mut usize,
    previews: &mut Vec<ParticlePreview>,
)
    requires
        limits.child_events < usize::MAX,
        *old(next_packet) < usize::MAX,
    ensures
        state_view(
            final(textures)@,
            final(triangles)@,
            *final(next_packet),
            final(previews)@,
        ) == with_shape(
            state_view(old(textures)@, old(triangles)@, *old(next_packet), old(previews)@),
            *effect,
            kind,
            shared,
            model,
            texture,
            screen,
            limits,
        ),
{
    if texture as usize >= effect.textures.len() {
        return;
    }
    let ghost before = state_view(textures@, triangles@, *next_packet, previews@);
    let texture_index = textures.len();
    let made = preview_textures::preview_texture(&effect.textures[texture as usize]);
    let ghost shown = made@;
    textures.push(made);
    proof {
        assert(preview::texture_views(textures@) =~= before.textures.push(shown));
        assert(before.textures.len() == texture_index);
    }
    let mut shape = effect.base_shape;
    if kind == JpaParticleKind::Child {
        if let Some(child) = effect.child_shape {
            shape.particle_type = child.particle_type;
            shape.direction_type = child.direction_type;
            shape.rotation_type = child.rotation_type;
            shape.environment_color = child.environment_color;
        }
    }
    let first_triangle = triangles.len();
    let packet = *next_packet;
    *next_packet = *next_packet + 1;
    let capacity = particle_capacity(
        effect.base_shape.particle_type,
        effect.child_shape,
        kind,
        limits,
    );
    let number: usize = match model {
        Some(model) => model,
        None => 0,
    };
    let ghost start = triangles@;
    let mut i: usize = 0;
    proof {
        assert(start =~= start + slots(shape, screen, packet as int, texture_index as int, number, 0));
    }
    while i < capacity
        invariant
            i <= capacity,
            triangles@ == start + slots(
                shape,
                screen,
                packet as int,
                texture_index as int,
                number,
                i as int,
            ),
        decreases capacity - i,
    {
        push_particle_slot(triangles, packet, texture_index, shape, screen, number);
        i += 1;
        proof {
            assert(triangles@ =~= start + slots(
                shape,
                screen,
                packet as int,
                texture_index as int,
                number,
                i as int,
            ));
        }
    }
    previews.push(
        ParticlePreview {
            kind,
            shared_simulation_id: shared,
            first_triangle,
            triangle_count: 2 * capacity,
            particle_capacity: capacity,
            model_index: model,
        },
    );
}

/// Appends an emitter: its own particles, unless only their children are drawn, and the particles
/// that those emit.
pub fn append_particle_preview(
    effect: &JpaEffect,
    shared: Option<u16>,
    model: Option<usize>,
    limits: BirthLimits,
    textures: &mut Vec<PreviewTexture>,
    triangles: &mut Vec<PreviewTriangle>,
    next_packet: &mut usize,
    previews: &mut Vec<ParticlePreview>,
)
    requires
        limits.child_events < usize::MAX,
        *old(next_packet) < usize::MAX - 1,
    ensures
        state_view(
            final(textures)@,
            final(triangles)@,
            *final(next_packet),
            final(previews)@,
        ) == with_emitter(
            state_view(old(textures)@, old(triangles)@, *old(next_packet), old(previews)@),
            *effect,
            shared,
            model,
            limits,
        ),
{
    let texture: u8 = if effect.uses_screen_texture {
        match effect.indirect_texture_index {
            Some(index) => index,
            None => 1,
        }
    } else {
        effect.base_shape.texture_index
    };
    let own = match effect.child_shape {
        Some(child) => child.draw_parent,
        None => true,
    };
    if own {
        append_particle_shape_preview(
            effect,
            JpaParticleKind::Parent,
            shared,
            model,
            texture,
            effect.uses_screen_texture,
            limits,
            textures,
            triangles,
            next_packet,
            previews,
        );
    }
    if let Some(child) = effect.child_shape {
        append_particle_shape_preview(
            effect,
            JpaParticleKind::Child,
            shared,
            model,
            child.texture_index,
            false,
            limits,
            textures,
            triangles,
            next_packet,
            previews,
        );
    }
}

/// A particle file of the stage, as far as pairs go.
#[derive(Debug)]
pub struct PairedFile {
    /// The path, normalized.
    pub path: String,
    pub uses_screen_texture: bool,
    pub max_frame: i16,
}

/// The members of a pair among the first `n` files.
pub open spec fn members(files: Seq<PairedFile>, group: Seq<char>, n: nat) -> Seq<usize>
    decreases n,
{
    if n == 0 {
        Seq::empty()
    } else {
        let rest = members(files, group, (n - 1) as nat);
        if particle_sources::pair_group(files[n - 1].path@) == Some(group) {
            rest.push((n - 1) as usize)
        } else {
            rest
        }
    }
}

/// The members make a pair: two or more, with and without the screen in their picture, and none
/// that goes on for ever.
pub open spec fn is_pair(files: Seq<PairedFile>, list: Seq<usize>) -> bool {
    &&& list.len() >= 2
    &&& exists|i: int| 0 <= i < list.len() && files[#[trigger] list[i] as int].uses_screen_texture
    &&& exists|i: int| 0 <= i < list.len() && !files[#[trigger] list[i] as int].uses_screen_texture
    &&& forall|i: int| 0 <= i < list.len() ==> files[#[trigger] list[i] as int].max_frame > 0
}

/// The pairs among the first `n` groups.
pub open spec fn pairs(files: Seq<PairedFile>, groups: Seq<Seq<char>>, n: nat) -> Seq<Seq<usize>>
    decreases n,
{
    if n == 0 {
        Seq::empty()
    } else {
        let rest = pairs(files, groups, (n - 1) as nat);
        let list = members(files, groups[n - 1], files.len());
        if is_pair(files, list) {
            rest.push(list)
        } else {
            rest
        }
    }
}

/// Some of the first `n` files belongs to the group.
pub open spec fn has_group(files: Seq<PairedFile>, group: Seq<char>, n: int) -> bool {
    exists|i: int|
        0 <= i < n && particle_sources::pair_group((#[trigger] files[i]).path@) == Some(group)
}

/// The names of all groups, in order.
pub open spec fn are_groups(files: Seq<PairedFile>, groups: Seq<Seq<char>>) -> bool {
    order::strictly_sorted(groups) && forall|group: Seq<char>|
        groups.contains(group) <==> #[trigger] has_group(files, group, files.len() as int)
}

/// The texts of lists of positions.
pub open spec fn list_views(list: Seq<Vec<usize>>) -> Seq<Seq<usize>> {
    Seq::new(list.len(), |i: int| list[i]@)
}

fn find_groups(files: &[PairedFile]) -> (r: Vec<String>)
    ensures
        are_groups(files@, text::views(r@)),
{
    let mut r: Vec<String> = Vec::new();
    let mut i: usize = 0;
    proof {
        assert(text::views(r@) =~= Seq::empty());
    }
    while i < files.len()
        invariant
            i <= files.len(),
            order::strictly_sorted(text::views(r@)),
            forall|group: Seq<char>|
                text::views(r@).contains(group) <==> #[trigger] has_group(
                    files@,
                    group,
                    i as int,
                ),
        decreases files.len() - i,
    {
        let ghost before = text::views(r@);
        let found = particle_sources::particle_pair_group(files[i].path.as_str());
        if let Some(group) = found {
            order::insert_text(&mut r, group);
        }
        proof {
            assert forall|group: Seq<char>|
                text::views(r@).contains(group) <==> #[trigger] has_group(
                    files@,
                    group,
                    i + 1,
                ) by {
                assert(before.contains(group) == has_group(files@, group, i as int));
                lemma_one_more_file(files@, group, i as int);
            }
        }
        i += 1;
    }
    r
}

proof fn lemma_one_more_file(files: Seq<PairedFile>, group: Seq<char>, n: int)
    requires
        0 <= n < files.len(),
    ensures
        has_group(files, group, n + 1) == (has_group(files, group, n)
            || particle_sources::pair_group(files[n].path@) == Some(group)),
{
    if has_group(files, group, n) {
        let i = choose|i: int|
            0 <= i < n && particle_sources::pair_group((#[trigger] files[i]).path@) == Some(group);
        assert(0 <= i < n + 1 && files[i] == files[i]);
    }
}

fn find_members(files: &[PairedFile], group: &str) -> (r: Vec<usize>)
    ensures
        r@ == members(files@, group@, files@.len()),
        forall|i: int| 0 <= i < r@.len() ==> #[trigger] r@[i] < files@.len(),
{
    let mut r: Vec<usize> = Vec::new();
    let mut i: usize = 0;
    while i < files.len()
        invariant
            i <= files.len(),
            r@ == members(files@, group@, i as nat),
            forall|j: int| 0 <= j < r@.len() ==> #[trigger] r@[j] < i,
        decreases files.len() - i,
    {
        if let Some(found) = particle_sources::particle_pair_group(files[i].path.as_str()) {
            if text::same(found.as_str(), group) {
                r.push(i);
            }
        }
        i += 1;
    }
    r
}

fn makes_pair(files: &[PairedFile], list: &[usize]) -> (r: bool)
    requires
        forall|i: int| 0 <= i < list@.len() ==> #[trigger] list@[i] < files@.len(),
    ensures
        r == is_pair(files@, list@),
{
    let mut screen: bool = false;
    let mut plain: bool = false;
    let mut finite: bool = true;
    let mut i: usize = 0;
    while i < list.len()
        invariant
            i <= list.len(),
            forall|j: int| 0 <= j < list@.len() ==> #[trigger] list@[j] < files@.len(),
            screen == exists|j: int|
                0 <= j < i && files@[#[trigger] list@[j] as int].uses_screen_texture,
            plain == exists|j: int|
                0 <= j < i && !files@[#[trigger] list@[j] as int].uses_screen_texture,
            finite == forall|j: int|
                0 <= j < i ==> files@[#[trigger] list@[j] as int].max_frame > 0,
        decreases list.len() - i,
    {
        let file = &files[list[i]];
        if file.uses_screen_texture {
            screen = true;
        } else {
            plain = true;
        }
        if file.max_frame <= 0 {
            finite = false;
        }
        i += 1;
    }
    list.len() >= 2 && screen && plain && finite
}

/// The pairs of effects that accompany a level transformation, in the order of their names.
pub fn level_transform_effect_groups(files: &[PairedFile]) -> (r: Vec<Vec<usize>>)
    ensures
        exists|groups: Seq<Seq<char>>| #[trigger]
            are_groups(files@, groups) && list_views(r@) == pairs(files@, groups, groups.len()),
{
    let groups = find_groups(files);
    let ghost names = text::views(groups@);
    let mut r: Vec<Vec<usize>> = Vec::new();
    let mut i: usize = 0;
    proof {
        assert(list_views(r@) =~= Seq::empty());
    }
    while i < groups.len()
        invariant
            i <= groups.len(),
            names == text::views(groups@),
            list_views(r@) == pairs(files@, names, i as nat),
        decreases groups.len() - i,
    {
        let list = find_members(files, groups[i].as_str());
        if makes_pair(files, list.as_slice()) {
            let ghost before = list_views(r@);
            let ghost wanted = list@;
            r.push(list);
            proof {
                assert(list_views(r@) =~= before.push(wanted));
            }
        }
        i += 1;
    }
    proof {
        assert(are_groups(files@, names));
        assert(names.len() == groups@.len());
    }
    r
}

/// Which pair accompanies which target: a single pair accompanies all of them, several pairs take
/// one target each.
pub open spec fn assignments(groups: usize, targets: usize) -> Seq<(usize, usize)> {
    if groups == 1 {
        Seq::new(targets as nat, |i: int| (0usize, i as usize))
    } else {
        Seq::new(
            (if groups < targets {
                groups
            } else {
                targets
            }) as nat,
            |i: int| (i as usize, i as usize),
        )
    }
}

/// Which pair accompanies which target.
pub fn level_transform_assignments(groups: usize, targets: usize) -> (r: Vec<(usize, usize)>)
    ensures
        r@ == assignments(groups, targets),
{
    let mut r: Vec<(usize, usize)> = Vec::new();
    let count: usize = if groups == 1 || targets <= groups {
        targets
    } else {
        groups
    };
    let mut i: usize = 0;
    while i < count
        invariant
            i <= count,
            r@.len() == i,
            forall|j: int|
                0 <= j < i ==> #[trigger] r@[j] == (if groups == 1 {
                    (0usize, j as usize)
                } else {
                    (j as usize, j as usize)
                }),
        decreases count - i,
    {
        if groups == 1 {
            r.push((0, i));
        } else {
            r.push((i, i));
        }
        i += 1;
    }
    proof {
        assert(r@ =~= assignments(groups, targets));
    }
    r
}

/// The frame at which an emitter stops.
pub open spec fn emission_end(start_frame: i16, max_frame: i16) -> int {
    (if start_frame > 0 {
        start_frame as int
    } else {
        0
    }) + (if max_frame > 1 {
        max_frame as int
    } else {
        1
    })
}

/// The frame at which an emitter stops; what its particles live on does not count.
pub fn emission_end_frame(start_frame: i16, max_frame: i16) -> (r: u32)
    ensures
        r == emission_end(start_frame, max_frame),
{
    let start: u32 = if start_frame > 0 {
        start_frame as u32
    } else {
        0
    };
    let length: u32 = if max_frame > 1 {
        max_frame as u32
    } else {
        1
    };
    start + length
}

/// The longest emission of the first `n` effects, at least one frame.
pub open spec fn longest_emission(windows: Seq<(i16, i16)>, n: nat) -> int
    decreases n,
{
    if n == 0 {
        1
    } else {
        let rest = longest_emission(windows, (n - 1) as nat);
        let end = emission_end(windows[n - 1].0, windows[n - 1].1);
        if end > rest {
            end
        } else {
            rest
        }
    }
}

/// How many frames a level transformation takes: until its last effect stops emitting.
pub fn level_transform_duration_frames(windows: &[(i16, i16)]) -> (r: u32)
    ensures
        r == (if windows@.len() == 0 {
            DEFAULT_TRANSFORM_FRAMES as int
        } else {
            longest_emission(windows@, windows@.len())
        }),
{
    if windows.len() == 0 {
        return DEFAULT_TRANSFORM_FRAMES;
    }
    let mut r: u32 = 1;
    let mut i: usize = 0;
    while i < windows.len()
        invariant
            i <= windows.len(),
            r == longest_emission(windows@, i as nat),
        decreases windows.len() - i,
    {
        let (start_frame, max_frame) = windows[i];
        let end = emission_end_frame(start_frame, max_frame);
        if end > r {
            r = end;
        }
        i += 1;
    }
    r
}

/// The emitters show the same particles.
pub open spec fn shares_with(previews: Seq<ParticlePreview>, i: int) -> spec_fn(int) -> bool {
    |j: int|
        previews[j].shared_simulation_id == previews[i].shared_simulation_id && previews[j].kind
            == previews[i].kind
}

/// For each emitter, the one whose particles it shows: the first of its effect and kind, or itself
/// where it shares with none.
pub fn shared_sample_sources(previews: &[ParticlePreview]) -> (r: Vec<usize>)
    ensures
        r@.len() == previews@.len(),
        forall|i: int|
            0 <= i < previews@.len() ==> (if previews@[i].shared_simulation_id is None {
                #[trigger] r@[i] == i
            } else {
                search::first_index((i + 1) as nat, shares_with(previews@, i)) == Some(
                    r@[i] as int,
                )
            }),
{
    let mut r: Vec<usize> = Vec::new();
    let mut i: usize = 0;
    while i < previews.len()
        invariant
            i <= previews.len(),
            r@.len() == i,
            forall|k: int|
                0 <= k < i ==> (if previews@[k].shared_simulation_id is None {
                    #[trigger] r@[k] == k
                } else {
                    search::first_index((k + 1) as nat, shares_with(previews@, k)) == Some(
                        r@[k] as int,
                    )
                }),
        decreases previews.len() - i,
    {
        let source = find_sample_source(previews, i);
        r.push(source);
        i += 1;
    }
    r
}

fn find_sample_source(previews: &[ParticlePreview], i: usize) -> (r: usize)
    requires
        i < previews@.len(),
    ensures
        if previews@[i as int].shared_simulation_id is None {
            r == i
        } else {
            search::first_index((i + 1) as nat, shares_with(previews@, i as int)) == Some(
                r as int,
            )
        },
{
    if previews[i].shared_simulation_id.is_none() {
        return i;
    }
    let ghost p = shares_with(previews@, i as int);
    let mut j: usize = 0;
    while j < i
        invariant
            j <= i,
            i < previews@.len(),
            p == shares_with(previews@, i as int),
            previews@[i as int].shared_simulation_id is Some,
            search::first_index(j as nat, p) is None,
        decreases i - j,
    {
        if previews[j].shared_simulation_id == previews[i].shared_simulation_id && previews[j].kind
            == previews[i].kind {
            proof {
                assert(p(j as int));
                search::lemma_index_stays((j + 1) as nat, (i + 1) as nat, p);
            }
            return j;
        }
        j += 1;
    }
    proof {
        assert(p(i as int));
    }
    i
}

} // verus!
