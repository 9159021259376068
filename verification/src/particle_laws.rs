//! Which particles a stage shows, and how.
use vstd::prelude::*;

use crate::particle_files;
use crate::particle_files::{GameFile, ParticleFile};
use crate::particle_samples;
use crate::particle_samples::ParticleSample;
use crate::particle_slots;
use crate::particle_slots::{
    BirthLimits, JpaBaseShape, JpaChildShape, JpaEffect, JpaParticleKind, PairedFile,
    ParticlePreview, ParticleState,
};
use crate::particle_sources;
use crate::particle_sources::{FoundEffect, ParticleFileKind, RequestView, RequestedEffect};
use crate::preview::{J3dPreviewCombineMode, PreviewRenderLayer, PreviewTriangle, Rgba};
use crate::registry::{ObjectRegistry, ParticleBindingTarget};
use crate::search;
use crate::stage::{SceneObject, StageAssetKind};
use crate::text;

verus! {

/// A particle kind has a slot for each particle that can live, crosses two, one at the least and
/// 512 at the most; children are as many as their parents, spawns and counts make.
pub proof fn law_particles_have_room(
    base_type: u8,
    child: JpaChildShape,
    limits: BirthLimits,
)
    ensures
        ({
            let parents = particle_slots::limited_slots(
                particle_slots::wanted_slots(
                    base_type,
                    Some(child),
                    JpaParticleKind::Parent,
                    limits,
                ),
            );
            let children = particle_slots::limited_slots(
                particle_slots::wanted_slots(
                    base_type,
                    Some(child),
                    JpaParticleKind::Child,
                    limits,
                ),
            );
            let each = limits.contributing_parents * ((limits.child_events + 1) * (
            if child.spawn_count > 0 {
                child.spawn_count as int
            } else {
                0
            }));
            &&& 1 <= parents <= 512
            &&& 1 <= children <= 512
            &&& base_type == 6 ==> parents == clamped(2 * limits.parents)
            &&& base_type != 6 ==> parents == clamped(limits.parents as int)
            &&& child.particle_type == 6 ==> children == clamped(2 * each)
            &&& child.particle_type != 6 ==> children == clamped(each)
        }),
{
    let n = if child.spawn_count > 0 {
        child.spawn_count as int
    } else {
        0
    };
    let each = (limits.child_events + 1) * n;
    assert(limits.contributing_parents * each * 2 == 2 * (limits.contributing_parents * each))
        by (nonlinear_arith);
    assert(limits.contributing_parents * each * 1 == limits.contributing_parents * each)
        by (nonlinear_arith);
}

/// A number of slots between one and 512.
pub open spec fn clamped(n: int) -> int {
    if n < 1 {
        1
    } else if n > 512 {
        512
    } else {
        n
    }
}

/// A slot is two triangles that show the effect's texture in its own blending and depth test, clear
/// until a particle fills it, in the layer of distortions where the effect bends the screen.
pub proof fn law_slots_look_like_their_effect(
    shape: JpaBaseShape,
    screen: bool,
    packet: int,
    texture: int,
    model: usize,
    capacity: int,
    i: int,
)
    requires
        0 <= packet <= usize::MAX,
        0 <= texture <= usize::MAX,
        0 <= i < 2 * capacity,
    ensures
        ({
            let all = particle_slots::slots(shape, screen, packet, texture, model, capacity);
            let t = all[i];
            &&& all.len() == 2 * capacity
            &&& t.source == i % 2
            &&& t.packet_index == packet
            &&& t.model_index == model
            &&& t.texture_index matches Some(shown)
            &&& shown == texture
            &&& t.material_index is None
            &&& screen ==> t.render_layer == PreviewRenderLayer::ParticleDistortion
            &&& !screen ==> t.render_layer == PreviewRenderLayer::Particle
            &&& t.cull_mode == Some(0u8)
            &&& t.alpha_compare == Some(shape.alpha_compare)
            &&& t.blend_mode matches Some(blend)
            &&& blend.mode == shape.blend_mode
            &&& blend.src_factor == shape.source_blend_factor
            &&& blend.dst_factor == shape.destination_blend_factor
            &&& blend.logic_op == 3
            &&& t.z_mode matches Some(depth)
            &&& depth.compare_enable == 1 <==> shape.z_compare_enable
            &&& depth.compare_enable <= 1
            &&& depth.func == shape.z_compare_function
            &&& depth.update_enable == 0
            &&& t.color_channels.first matches Some(first)
            &&& first.a == (Rgba { r: 255, g: 255, b: 255, a: 0 })
            &&& first.b == first.a && first.c == first.a
            &&& t.color_channels.second matches Some(second)
            &&& second.a == shape.environment_color
            &&& second.b == second.a && second.c == second.a
            &&& t.combine_mode == J3dPreviewCombineMode::TextureModulateVertex
            &&& t.particle_type == Some(shape.particle_type)
            &&& t.particle_color_mode == Some(shape.color_mode)
            &&& t.particle_environment_color == Some(shape.environment_color)
        }),
{
}

/// A child is drawn as its parent but for its own form, direction, rotation and environment
/// colour; a parent as itself.
pub proof fn law_children_look_like_their_parent(effect: JpaEffect, child: JpaChildShape)
    requires
        effect.child_shape == Some(child),
    ensures
        particle_slots::drawn_shape(effect, JpaParticleKind::Parent) == effect.base_shape,
        ({
            let shape = particle_slots::drawn_shape(effect, JpaParticleKind::Child);
            &&& shape.particle_type == child.particle_type
            &&& shape.direction_type == child.direction_type
            &&& shape.rotation_type == child.rotation_type
            &&& shape.environment_color == child.environment_color
            &&& shape.color_mode == effect.base_shape.color_mode
            &&& shape.alpha_compare == effect.base_shape.alpha_compare
            &&& shape.blend_mode == effect.base_shape.blend_mode
            &&& shape.source_blend_factor == effect.base_shape.source_blend_factor
            &&& shape.destination_blend_factor == effect.base_shape.destination_blend_factor
            &&& shape.z_compare_enable == effect.base_shape.z_compare_enable
            &&& shape.z_compare_function == effect.base_shape.z_compare_function
        }),
{
}

/// The texture of an effect: its own, or for one that bends the screen the one it bends by, the
/// second where it names none.
pub proof fn law_effects_show_their_texture(effect: JpaEffect)
    ensures
        !effect.uses_screen_texture ==> particle_slots::source_texture(effect)
            == effect.base_shape.texture_index,
        effect.uses_screen_texture && effect.indirect_texture_index is None
            ==> particle_slots::source_texture(effect) == 1,
        effect.uses_screen_texture ==> (effect.indirect_texture_index matches Some(index)
            ==> particle_slots::source_texture(effect) == index),
{
}

/// What one shape of an effect adds: a texture, a packet, its slots behind all triangles, and a
/// preview that says where they are; a shape without its texture adds nothing.
pub proof fn law_shapes_are_added_behind_the_others(
    state: ParticleState,
    effect: JpaEffect,
    kind: JpaParticleKind,
    shared: Option<u16>,
    model: Option<usize>,
    texture: u8,
    screen: bool,
    limits: BirthLimits,
)
    requires
        state.triangles.len() <= usize::MAX,
    ensures
        ({
            let after = particle_slots::with_shape(
                state,
                effect,
                kind,
                shared,
                model,
                texture,
                screen,
                limits,
            );
            &&& texture >= effect.textures@.len() ==> after == state
            &&& texture < effect.textures@.len() ==> {
                let shown = after.previews.last();
                &&& after.textures.len() == state.textures.len() + 1
                &&& after.textures.last() == crate::preview_textures::preview_of(
                    effect.textures@[texture as int],
                )
                &&& after.next_packet == state.next_packet + 1
                &&& after.previews.len() == state.previews.len() + 1
                &&& shown.kind == kind
                &&& shown.shared_simulation_id == shared
                &&& shown.model_index == model
                &&& shown.first_triangle == state.triangles.len()
                &&& shown.triangle_count == 2 * shown.particle_capacity
                &&& 1 <= shown.particle_capacity <= 512
                &&& after.triangles.len() == state.triangles.len() + shown.triangle_count
                &&& after.triangles.take(state.triangles.len() as int) == state.triangles
                &&& forall|i: int|
                    state.triangles.len() <= i < after.triangles.len() ==> (
                    #[trigger] after.triangles[i]).model_index == (match model {
                        Some(m) => m,
                        None => 0,
                    })
            }
        }),
{
    let after = particle_slots::with_shape(
        state,
        effect,
        kind,
        shared,
        model,
        texture,
        screen,
        limits,
    );
    if texture < effect.textures@.len() {
        assert(after.triangles.take(state.triangles.len() as int) =~= state.triangles);
    }
}

/// An effect is shown by its parent, unless its child replaces it, and then by its child, which
/// never bends the screen.
pub proof fn law_effects_show_parent_and_child(
    state: ParticleState,
    effect: JpaEffect,
    shared: Option<u16>,
    model: Option<usize>,
    limits: BirthLimits,
)
    ensures
        ({
            let after = particle_slots::with_emitter(state, effect, shared, model, limits);
            let parent = particle_slots::with_shape(
                state,
                effect,
                JpaParticleKind::Parent,
                shared,
                model,
                particle_slots::source_texture(effect),
                effect.uses_screen_texture,
                limits,
            );
            &&& effect.child_shape is None ==> after == parent
            &&& effect.child_shape matches Some(child) ==> after == particle_slots::with_shape(
                if child.draw_parent {
                    parent
                } else {
                    state
                },
                effect,
                JpaParticleKind::Child,
                shared,
                model,
                child.texture_index,
                false,
                limits,
            )
        }),
{
}

/// A living particle fills the two triangles of its slot with its colour, its environment colour
/// and its form; a slot without a particle is clear, and keeps all else.
pub proof fn law_living_particles_fill_their_slots(
    triangles: Seq<PreviewTriangle>,
    preview: ParticlePreview,
    samples: Seq<ParticleSample>,
    slot: int,
    half: int,
)
    requires
        0 <= slot,
        0 <= half < 2,
        2 * slot + 1 < preview.triangle_count,
        preview.first_triangle + preview.triangle_count <= triangles.len(),
    ensures
        ({
            let i = preview.first_triangle + 2 * slot + half;
            let before = triangles[i];
            let t = particle_samples::shown(triangles, preview, samples, i);
            &&& t.texture_index == before.texture_index
            &&& t.model_index == before.model_index
            &&& t.packet_index == before.packet_index
            &&& t.source == before.source
            &&& t.blend_mode == before.blend_mode
            &&& t.color_channels.first matches Some(first)
            &&& first.b == first.a && first.c == first.a
            &&& slot < samples.len() ==> first.a == samples[slot].color && t.particle_type == Some(
                samples[slot].particle_type,
            ) && (t.color_channels.second matches Some(second) && second.a
                == samples[slot].environment_color && second.b == second.a && second.c == second.a)
            &&& slot >= samples.len() ==> first.a == (Rgba { r: 255, g: 255, b: 255, a: 0 })
                && t.color_channels.second == before.color_channels.second && t.particle_type
                == before.particle_type
        }),
{
    let within = 2 * slot + half;
    assert(within / 2 == slot);
    assert(within < 2 * (preview.triangle_count as int / 2));
}

/// Two effects are a pair where their files are called alike but for a final `_a` or `_b`.
pub proof fn law_pairs_are_called_alike(folder: Seq<char>, group: Seq<char>)
    requires
        forall|i: int| 0 <= i < group.len() ==> (#[trigger] group[i]) != '/',
    ensures
        particle_sources::pair_group(folder + "/"@ + group + "_a.jpa"@) == Some(group),
        particle_sources::pair_group(folder + "/"@ + group + "_b.jpa"@) == Some(group),
{
    reveal_strlit("/");
    reveal_strlit("_a");
    reveal_strlit("_b");
    reveal_strlit(".jpa");
    reveal_strlit("_a.jpa");
    reveal_strlit("_b.jpa");
    lemma_file(folder, group + "_a.jpa"@);
    lemma_file(folder, group + "_b.jpa"@);
    assert(folder + "/"@ + group + "_a.jpa"@ =~= folder + "/"@ + (group + "_a.jpa"@));
    assert(folder + "/"@ + group + "_b.jpa"@ =~= folder + "/"@ + (group + "_b.jpa"@));
    assert("_a.jpa"@ =~= "_a"@ + ".jpa"@);
    assert("_b.jpa"@ =~= "_b"@ + ".jpa"@);
    assert(group + "_a.jpa"@ =~= group + "_a"@ + ".jpa"@);
    assert(group + "_b.jpa"@ =~= group + "_b"@ + ".jpa"@);
    lemma_suffix(group + "_a"@, ".jpa"@);
    lemma_suffix(group + "_b"@, ".jpa"@);
    lemma_suffix(group, "_a"@);
    lemma_suffix(group, "_b"@);
    let other = group + "_b"@;
    if "_a"@.is_suffix_of(other) {
        assert(other.subrange(other.len() - 2, other.len() as int)[1] == 'a');
        assert(other[other.len() - 1] == 'b');
    }
}

proof fn lemma_file(folder: Seq<char>, file: Seq<char>)
    requires
        forall|i: int| 0 <= i < file.len() ==> (#[trigger] file[i]) != '/',
    ensures
        text::after_last(folder + "/"@ + file, '/') == file,
{
    reveal_strlit("/");
    let s = folder + "/"@ + file;
    text::lemma_last_index(s, '/');
    let i = text::last_index(s, '/');
    assert(s[folder.len() as int] == '/');
    if i > folder.len() {
        assert(s[i] == file[i - folder.len() - 1]);
    }
    assert(s.skip(i + 1) =~= file);
}

proof fn lemma_suffix(s: Seq<char>, suffix: Seq<char>)
    ensures
        text::without_suffix(s + suffix, suffix) == Some(s),
{
    let all = s + suffix;
    assert(all.subrange(all.len() - suffix.len(), all.len() as int) =~= suffix);
    assert(all.take(all.len() - suffix.len()) =~= s);
}

/// The members of a group are the files that belong to it, in order.
pub proof fn law_groups_hold_their_files(
    files: Seq<PairedFile>,
    group: Seq<char>,
    n: nat,
    k: int,
)
    requires
        0 <= k < n <= files.len() <= usize::MAX,
    ensures
        particle_slots::members(files, group, n).contains(k as usize)
            <==> particle_sources::pair_group(files[k].path@) == Some(group),
        forall|i: int|
            0 <= i < particle_slots::members(files, group, n).len() ==> (
            #[trigger] particle_slots::members(files, group, n)[i]) < n,
    decreases n,
{
    let rest = particle_slots::members(files, group, (n - 1) as nat);
    let all = particle_slots::members(files, group, n);
    if n > 1 {
        law_groups_hold_their_files(
            files,
            group,
            (n - 1) as nat,
            if k < n - 1 {
                k
            } else {
                0
            },
        );
    }
    if k < n - 1 {
        if rest.contains(k as usize) {
            let i = choose|i: int| 0 <= i < rest.len() && rest[i] == k as usize;
            assert(all[i] == k as usize);
        }
        if all.contains(k as usize) {
            let i = choose|i: int| 0 <= i < all.len() && all[i] == k as usize;
            assert(i < rest.len());
            assert(rest[i] == k as usize);
        }
    } else {
        if particle_sources::pair_group(files[k].path@) == Some(group) {
            assert(all[all.len() - 1] == k as usize);
        } else if all.contains(k as usize) {
            let i = choose|i: int| 0 <= i < all.len() && all[i] == k as usize;
            assert(rest[i] < n - 1);
        }
    }
}

/// A pair bends the screen with one file and shows itself with another, and both come to an end.
pub proof fn law_pairs_bend_and_show(files: Seq<PairedFile>, a: usize, b: usize)
    requires
        a < files.len(),
        b < files.len(),
    ensures
        particle_slots::is_pair(files, seq![a, b]) <==> (files[a as int].uses_screen_texture
            != files[b as int].uses_screen_texture) && files[a as int].max_frame >= 1
            && files[b as int].max_frame >= 1,
        !particle_slots::is_pair(files, seq![a]),
        !particle_slots::is_pair(files, Seq::empty()),
{
    let list = seq![a, b];
    assert(list[0] == a && list[1] == b);
    if files[a as int].uses_screen_texture != files[b as int].uses_screen_texture {
        if files[a as int].uses_screen_texture {
            assert(files[list[0] as int].uses_screen_texture);
            assert(!files[list[1] as int].uses_screen_texture);
        } else {
            assert(files[list[1] as int].uses_screen_texture);
            assert(!files[list[0] as int].uses_screen_texture);
        }
    }
    if particle_slots::is_pair(files, list) {
        assert(files[list[0] as int].max_frame > 0);
        assert(files[list[1] as int].max_frame > 0);
    }
}

/// A single pair plays at every building that moves; of several, each plays at its own.
pub proof fn law_buildings_share_a_single_pair(groups: usize, targets: usize, i: int)
    ensures
        ({
            let all = particle_slots::assignments(groups, targets);
            &&& groups == 1 ==> all.len() == targets
            &&& groups != 1 && groups <= targets ==> all.len() == groups
            &&& groups != 1 && targets <= groups ==> all.len() == targets
            &&& 0 <= i < all.len() ==> all[i].1 == i
            &&& 0 <= i < all.len() && groups == 1 ==> all[i].0 == 0
            &&& 0 <= i < all.len() && groups != 1 ==> all[i].0 == i
        }),
{
}

/// A change of the level lasts until the last of its effects has stopped: each runs from its start
/// for its own number of frames, one at the least.
pub proof fn law_changes_last_as_long_as_their_effects(
    windows: Seq<(i16, i16)>,
    n: nat,
    i: int,
)
    requires
        n <= windows.len(),
    ensures
        ({
            let last = particle_slots::longest_emission(windows, n);
            let stop = |k: int|
                (if windows[k].0 < 0 {
                    0
                } else {
                    windows[k].0 as int
                }) + (if windows[k].1 < 1 {
                    1
                } else {
                    windows[k].1 as int
                });
            &&& last >= 1
            &&& 0 <= i < n ==> stop(i) <= last
            &&& last == 1 || exists|k: int|
                #![trigger windows[k]]
                0 <= k < n && stop(k) == last
        }),
    decreases n,
{
    if n > 0 {
        law_changes_last_as_long_as_their_effects(windows, (n - 1) as nat, i);
        let w = windows[n - 1];
        assert(particle_slots::emission_end(w.0, w.1) == (if w.0 < 0 {
            0
        } else {
            w.0 as int
        }) + (if w.1 < 1 {
            1
        } else {
            w.1 as int
        }));
    }
}

/// A file holds an effect: by its whole path from the end where the effect is named with folders,
/// and else by its name alone, in any case; inside an archive, by the path there.
pub proof fn law_effects_lie_where_they_are_named(folder: Seq<char>, name: Seq<char>)
    requires
        forall|i: int| 0 <= i < name.len() ==> (#[trigger] name[i]) != '/',
        text::find(folder + "/"@ + name, "!/"@) is None,
    ensures
        particle_sources::is_file_of(folder + "/"@ + name, name),
{
    reveal_strlit("/");
    lemma_file(folder, name);
    text::law_searches_find_the_first_place(name, "/"@, 0);
    if text::occurs_in(name, "/"@) {
        let i = choose|i: int| text::stands_at(name, "/"@, i);
        assert(name.subrange(i, i + 1)[0] == '/');
        assert(name[i] == '/');
    }
}

/// A file gives its effect to every request that it holds and that has none yet, and to no other.
pub proof fn law_files_answer_open_requests(
    found: Seq<FoundEffect>,
    requested: Seq<RequestedEffect>,
    path: Seq<char>,
    effect: usize,
    n: nat,
    e: FoundEffect,
)
    requires
        n <= requested.len(),
    ensures
        ({
            let after = particle_sources::with_file(found, requested, path, effect, n);
            let open = forall|i: int|
                0 <= i < found.len() ==> (#[trigger] found[i]).effect_id != e.effect_id;
            let held = exists|k: int|
                0 <= k < n && (#[trigger] requested[k]).effect_id == e.effect_id
                    && particle_sources::is_file_of(path, requested[k].path@);
            after.contains(e) <==> found.contains(e) || (open && held && e.effect == effect)
        }),
    decreases n,
{
    if n > 0 {
        law_files_answer_open_requests(found, requested, path, effect, (n - 1) as nat, e);
        let rest = particle_sources::with_file(found, requested, path, effect, (n - 1) as nat);
        let after = particle_sources::with_file(found, requested, path, effect, n);
        let wanted = requested[n - 1];
        let of = particle_sources::is_effect(wanted.effect_id);
        search::lemma_first_position(rest, of);
        let place = search::first_position(rest, of);
        if rest.contains(e) {
            let i = choose|i: int| 0 <= i < rest.len() && rest[i] == e;
            assert(after[i] == e);
        }
        if after.contains(e) && !rest.contains(e) {
            let i = choose|i: int| 0 <= i < after.len() && after[i] == e;
            if i < rest.len() {
                assert(rest[i] == e);
            }
            assert(i == rest.len());
            assert(e.effect_id == wanted.effect_id && e.effect == effect);
            assert forall|j: int| 0 <= j < found.len() implies (#[trigger] found[j]).effect_id
                != e.effect_id by {
                lemma_keeps(found, requested, path, effect, (n - 1) as nat, j);
                assert(!of(rest[j]));
            }
        }
        if e.effect_id == wanted.effect_id && particle_sources::is_file_of(path, wanted.path@) && (
        forall|i: int| 0 <= i < found.len() ==> (#[trigger] found[i]).effect_id != e.effect_id)
            && e.effect == effect {
            if place is None {
                assert(after[rest.len() as int] == e);
            } else {
                let p = place->0;
                assert(of(rest[p]));
                lemma_only(found, requested, path, effect, (n - 1) as nat, p);
                assert(rest[p] == e);
            }
        }
    }
}

proof fn lemma_keeps(
    found: Seq<FoundEffect>,
    requested: Seq<RequestedEffect>,
    path: Seq<char>,
    effect: usize,
    n: nat,
    j: int,
)
    requires
        0 <= j < found.len(),
    ensures
        found.len() <= particle_sources::with_file(found, requested, path, effect, n).len(),
        particle_sources::with_file(found, requested, path, effect, n)[j] == found[j],
    decreases n,
{
    if n > 0 {
        lemma_keeps(found, requested, path, effect, (n - 1) as nat, j);
    }
}

proof fn lemma_only(
    found: Seq<FoundEffect>,
    requested: Seq<RequestedEffect>,
    path: Seq<char>,
    effect: usize,
    n: nat,
    p: int,
)
    requires
        0 <= p < particle_sources::with_file(found, requested, path, effect, n).len(),
    ensures
        ({
            let after = particle_sources::with_file(found, requested, path, effect, n);
            p < found.len() && after[p] == found[p] || after[p].effect == effect
        }),
    decreases n,
{
    if n > 0 {
        let rest = particle_sources::with_file(found, requested, path, effect, (n - 1) as nat);
        if p < rest.len() {
            lemma_only(found, requested, path, effect, (n - 1) as nat, p);
        }
    }
}

/// A file with its extension is an effect, an archive to look into, or neither.
pub proof fn law_extensions_tell_the_files_apart(extension: Seq<char>)
    ensures
        particle_sources::file_kind(None) == ParticleFileKind::Other,
        extension == "jpa"@ ==> particle_sources::file_kind(Some(extension))
            == ParticleFileKind::Effect,
        text::lower(extension) == text::lower("szs"@) || text::lower(extension) == text::lower(
            "arc"@,
        ) ==> particle_sources::file_kind(Some(extension)) == ParticleFileKind::Archive,
        particle_sources::file_kind(Some(extension)) == ParticleFileKind::Effect ==> extension
            == "jpa"@,
        particle_sources::file_kind(Some(extension)) == ParticleFileKind::Archive ==> text::lower(
            extension,
        ) == text::lower("szs"@) || text::lower(extension) == text::lower("arc"@),
{
    reveal_strlit("jpa");
    reveal_strlit("szs");
    reveal_strlit("arc");
    assert(text::lower("jpa"@)[0] == 'j');
    assert(text::lower("szs"@)[0] == 's');
    assert(text::lower("arc"@)[0] == 'a');
}

/// An object has the class that the registry gives its factory, unless unknown; its own, where that
/// is a class; and any bound class that it is placed as, with or without its leading letter.
pub proof fn law_objects_have_their_classes(
    registry: ObjectRegistry,
    object: SceneObject,
    name: Seq<char>,
    i: int,
)
    ensures
        object.class_name matches Some(class) && class@ == name && name.len() > 0 && name[0] == 'T'
            ==> particle_sources::has_class(registry, object, name),
        0 <= i < registry.objects@.len() && registry.objects@[i].factory_name@
            == object.factory_name@ && (forall|j: int|
            0 <= j < i ==> (#[trigger] registry.objects@[j]).factory_name@ != object.factory_name@)
            && registry.objects@[i].class_name@ == name && name != "Unknown"@
            ==> particle_sources::has_class(registry, object, name),
        0 <= i < registry.actor_particle_bindings@.len()
            && registry.actor_particle_bindings@[i].class_name@ == name
            && particle_sources::placement_name(name) == object.factory_name@
            ==> particle_sources::has_class(registry, object, name),
{
    let defines = particle_sources::defines(object.factory_name@);
    search::lemma_first_position(registry.objects@, defines);
    let found = search::first_position(registry.objects@, defines);
    if 0 <= i < registry.objects@.len() && registry.objects@[i].factory_name@
        == object.factory_name@ {
        assert(defines(registry.objects@[i]));
        assert(found is Some);
        assert(defines(registry.objects@[found->0]));
        if i < found->0 {
            assert(!defines(registry.objects@[i]));
        }
    }
}

/// The name that a class is placed under: what follows its namespaces, without its leading `T`.
pub proof fn law_classes_are_placed_by_their_name(name: Seq<char>)
    ensures
        text::after_last_pattern("T"@ + name, "::"@) == "T"@ + name
            ==> particle_sources::placement_name("T"@ + name) == name,
        text::after_last_pattern(name, "::"@) == name && (name.len() == 0 || name[0] != 'T')
            ==> particle_sources::placement_name(name) == name,
{
    reveal_strlit("T");
    assert(("T"@ + name)[0] == 'T');
    assert(("T"@ + name).drop_first() =~= name);
}

/// A binding plays for an object of its class whose effect is found; one at a joint only where the
/// model has the joint.
pub proof fn law_bindings_play_for_their_class(
    registry: ObjectRegistry,
    object: SceneObject,
    found: Seq<FoundEffect>,
    joints: nat,
    n: nat,
    k: int,
)
    requires
        0 <= k < n <= registry.actor_particle_bindings@.len() <= usize::MAX,
    ensures
        ({
            let binding = registry.actor_particle_bindings@[k];
            particle_sources::applying(registry, object, found, joints, n).contains(k as usize)
                <==> {
                &&& particle_sources::has_class(registry, object, binding.class_name@)
                &&& exists|i: int|
                    0 <= i < found.len() && (#[trigger] found[i]).effect_id == binding.effect_id
                &&& match binding.target {
                    ParticleBindingTarget::ActorOrigin => true,
                    ParticleBindingTarget::ModelJoint(joint) => joint < joints,
                }
            }
        }),
        forall|i: int|
            0 <= i < particle_sources::applying(registry, object, found, joints, n).len() ==> (
            #[trigger] particle_sources::applying(registry, object, found, joints, n)[i]) < n,
    decreases n,
{
    let rest = particle_sources::applying(registry, object, found, joints, (n - 1) as nat);
    let all = particle_sources::applying(registry, object, found, joints, n);
    if n > 1 {
        law_bindings_play_for_their_class(
            registry,
            object,
            found,
            joints,
            (n - 1) as nat,
            if k < n - 1 {
                k
            } else {
                0
            },
        );
    }
    if k < n - 1 {
        if rest.contains(k as usize) {
            let i = choose|i: int| 0 <= i < rest.len() && rest[i] == k as usize;
            assert(all[i] == k as usize);
        }
        if all.contains(k as usize) {
            let i = choose|i: int| 0 <= i < all.len() && all[i] == k as usize;
            assert(i < rest.len());
            assert(rest[i] == k as usize);
        }
    } else {
        let binding = registry.actor_particle_bindings@[k];
        let of = particle_sources::is_effect(binding.effect_id);
        search::lemma_first_position(found, of);
        let place = search::first_position(found, of);
        if place is Some {
            assert(of(found[place->0]));
        } else {
            assert forall|i: int| 0 <= i < found.len() implies (#[trigger] found[i]).effect_id
                != binding.effect_id by {
                assert(!of(found[i]));
            }
        }
        if particle_sources::binding_applies(binding, registry, object, found, joints) {
            assert(all[all.len() - 1] == k as usize);
        } else if all.contains(k as usize) {
            let i = choose|i: int| 0 <= i < all.len() && all[i] == k as usize;
            assert(rest[i] < n - 1);
        }
    }
}

/// Effects are looked for in the stage first, then in loose files and last in archives.
pub proof fn law_the_stage_is_searched_first(
    requested: Seq<RequestedEffect>,
    stage: Seq<ParticleFile>,
    files: Seq<GameFile>,
)
    requires
        files.len() <= usize::MAX,
    ensures
        particle_files::after_files(Seq::empty(), requested, stage, stage.len()).is_prefix_of(
            particle_files::search_result(requested, stage, files),
        ),
        files.len() == 0 ==> particle_files::search_result(requested, stage, files)
            == particle_files::after_files(Seq::empty(), requested, stage, stage.len()),
{
    let ordered = particle_files::by_length(files, files.len());
    particle_files::law_short_files_come_first(files, files.len());
    let in_stage = particle_files::after_files(Seq::empty(), requested, stage, stage.len());
    let loose = particle_files::after_loose_files(
        in_stage,
        requested,
        files,
        ordered,
        ordered.len(),
    );
    lemma_loose_keep(in_stage, requested, files, ordered, ordered.len());
    lemma_archives_keep(loose, requested, files, ordered, ordered.len());
    let all = particle_files::search_result(requested, stage, files);
    assert(in_stage =~= all.subrange(0, in_stage.len() as int)) by {
        assert(loose.subrange(0, in_stage.len() as int) == in_stage);
        assert(all.subrange(0, loose.len() as int) == loose);
    }
}

proof fn lemma_file_keeps(
    found: Seq<FoundEffect>,
    requested: Seq<RequestedEffect>,
    path: Seq<char>,
    effect: usize,
    n: nat,
)
    ensures
        found.is_prefix_of(particle_sources::with_file(found, requested, path, effect, n)),
    decreases n,
{
    if n > 0 {
        lemma_file_keeps(found, requested, path, effect, (n - 1) as nat);
        let rest = particle_sources::with_file(found, requested, path, effect, (n - 1) as nat);
        let all = particle_sources::with_file(found, requested, path, effect, n);
        assert(all.subrange(0, found.len() as int) =~= rest.subrange(0, found.len() as int));
    }
}

proof fn lemma_files_keep(
    found: Seq<FoundEffect>,
    requested: Seq<RequestedEffect>,
    files: Seq<ParticleFile>,
    n: nat,
)
    ensures
        found.is_prefix_of(particle_files::after_files(found, requested, files, n)),
    decreases n,
{
    if n > 0 {
        lemma_files_keep(found, requested, files, (n - 1) as nat);
        let rest = particle_files::after_files(found, requested, files, (n - 1) as nat);
        let all = particle_files::after_files(found, requested, files, n);
        if files[n - 1].effect is Some {
            lemma_file_keeps(
                rest,
                requested,
                files[n - 1].asset.path@,
                files[n - 1].effect->0,
                requested.len(),
            );
        }
        assert(all.subrange(0, rest.len() as int) == rest);
        assert(all.subrange(0, found.len() as int) =~= rest.subrange(0, found.len() as int));
    }
}

proof fn lemma_loose_keep(
    found: Seq<FoundEffect>,
    requested: Seq<RequestedEffect>,
    files: Seq<GameFile>,
    ordered: Seq<usize>,
    n: nat,
)
    ensures
        found.is_prefix_of(
            particle_files::after_loose_files(found, requested, files, ordered, n),
        ),
    decreases n,
{
    if n > 0 {
        lemma_loose_keep(found, requested, files, ordered, (n - 1) as nat);
        let rest = particle_files::after_loose_files(
            found,
            requested,
            files,
            ordered,
            (n - 1) as nat,
        );
        let all = particle_files::after_loose_files(found, requested, files, ordered, n);
        let file = files[ordered[n - 1] as int];
        if file.effect is Some {
            lemma_file_keeps(rest, requested, file.path@, file.effect->0, requested.len());
        }
        assert(all.subrange(0, rest.len() as int) == rest);
        assert(all.subrange(0, found.len() as int) =~= rest.subrange(0, found.len() as int));
    }
}

proof fn lemma_archives_keep(
    found: Seq<FoundEffect>,
    requested: Seq<RequestedEffect>,
    files: Seq<GameFile>,
    ordered: Seq<usize>,
    n: nat,
)
    ensures
        found.is_prefix_of(particle_files::after_archives(found, requested, files, ordered, n)),
    decreases n,
{
    if n > 0 {
        lemma_archives_keep(found, requested, files, ordered, (n - 1) as nat);
        let rest = particle_files::after_archives(
            found,
            requested,
            files,
            ordered,
            (n - 1) as nat,
        );
        let all = particle_files::after_archives(found, requested, files, ordered, n);
        let file = files[ordered[n - 1] as int];
        lemma_files_keep(rest, requested, file.members@, file.members@.len());
        assert(all.subrange(0, rest.len() as int) == rest);
        assert(all.subrange(0, found.len() as int) =~= rest.subrange(0, found.len() as int));
    }
}

/// A file of the stage gives an effect only where it is a particle file that was read.
pub proof fn law_only_particle_files_give_effects(
    found: Seq<FoundEffect>,
    requested: Seq<RequestedEffect>,
    files: Seq<ParticleFile>,
    n: nat,
)
    requires
        n < files.len(),
        files[n as int].asset.kind != StageAssetKind::Particle || files[n as int].effect is None,
    ensures
        particle_files::after_files(found, requested, files, n + 1)
            == particle_files::after_files(found, requested, files, n),
{
}

/// Requests stand in the order of their effects, each effect once, and the last resource of an
/// effect is the one asked for.
pub proof fn law_the_last_resource_is_asked_for(list: Seq<RequestView>, item: RequestView)
    requires
        forall|i: int, j: int|
            0 <= i < j < list.len() ==> (#[trigger] list[i]).effect_id < (
            #[trigger] list[j]).effect_id,
    ensures
        ({
            let after = particle_sources::with_request(list, item);
            &&& forall|i: int, j: int|
                0 <= i < j < after.len() ==> (#[trigger] after[i]).effect_id < (
                #[trigger] after[j]).effect_id
            &&& forall|r: RequestView| #[trigger]
                after.contains(r) <==> (if r.effect_id == item.effect_id {
                    r == item
                } else {
                    list.contains(r)
                })
        }),
    decreases list.len(),
{
    let after = particle_sources::with_request(list, item);
    if list.len() == 0 {
        assert(after[0] == item);
        assert forall|r: RequestView| #[trigger] after.contains(r) <==> (if r.effect_id
            == item.effect_id {
            r == item
        } else {
            list.contains(r)
        }) by {
            if after.contains(r) {
                let i = choose|i: int| 0 <= i < after.len() && after[i] == r;
            }
        }
    } else {
        let last = list.last();
        let front = list.drop_last();
        law_the_last_resource_is_asked_for(front, item);
        let below = particle_sources::with_request(front, item);
        assert forall|r: RequestView| list.contains(r) <==> front.contains(r) || r == last by {
            if front.contains(r) {
                let i = choose|i: int| 0 <= i < front.len() && front[i] == r;
                assert(list[i] == r);
            }
            assert(list[list.len() - 1] == last);
            if list.contains(r) && r != last {
                let i = choose|i: int| 0 <= i < list.len() && list[i] == r;
                assert(front[i] == r);
            }
        }
        assert forall|r: RequestView| front.contains(r) implies r.effect_id < last.effect_id by {
            let i = choose|i: int| 0 <= i < front.len() && front[i] == r;
            assert(list[i] == r);
        }
        if last.effect_id > item.effect_id {
            assert(after == below.push(last));
            assert forall|r: RequestView| #[trigger] after.contains(r) <==> below.contains(r) || r
                == last by {
                if below.contains(r) {
                    let i = choose|i: int| 0 <= i < below.len() && below[i] == r;
                    assert(after[i] == r);
                }
                assert(after[below.len() as int] == last);
                if after.contains(r) && r != last {
                    let i = choose|i: int| 0 <= i < after.len() && after[i] == r;
                    assert(below[i] == r);
                }
            }
            assert forall|i: int, j: int| 0 <= i < j < after.len() implies (
            #[trigger] after[i]).effect_id < (#[trigger] after[j]).effect_id by {
                assert(below.contains(below[i]));
            }
        } else {
            let kept = if last.effect_id == item.effect_id {
                front
            } else {
                list
            };
            assert(after == kept.push(item));
            assert forall|r: RequestView| #[trigger] after.contains(r) <==> kept.contains(r) || r
                == item by {
                if kept.contains(r) {
                    let i = choose|i: int| 0 <= i < kept.len() && kept[i] == r;
                    assert(after[i] == r);
                }
                assert(after[kept.len() as int] == item);
                if after.contains(r) && r != item {
                    let i = choose|i: int| 0 <= i < after.len() && after[i] == r;
                    assert(kept[i] == r);
                }
            }
            assert forall|i: int, j: int| 0 <= i < j < after.len() implies (
            #[trigger] after[i]).effect_id < (#[trigger] after[j]).effect_id by {
                assert(list[i] == after[i]);
            }
        }
    }
}

/// The groups of a level's effects are those that its files are called after, in order.
pub proof fn law_groups_are_those_of_the_files(
    files: Seq<PairedFile>,
    groups: Seq<Seq<char>>,
    group: Seq<char>,
)
    requires
        particle_slots::are_groups(files, groups),
    ensures
        groups.contains(group) <==> exists|i: int|
            0 <= i < files.len() && particle_sources::pair_group((#[trigger] files[i]).path@)
                == Some(group),
        forall|i: int, j: int|
            0 <= i < j < groups.len() ==> #[trigger] crate::order::before(groups[i], groups[j]),
{
    assert(groups.contains(group) <==> particle_slots::has_group(
        files,
        group,
        files.len() as int,
    ));
}

} // verus!
