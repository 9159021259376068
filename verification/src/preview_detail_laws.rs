//! Further properties of previews: whole stages of grass, shared simulations, found poses.
use vstd::prelude::*;

use crate::asset_names;
use crate::asset_operations;
use crate::authored_preview;
use crate::diagnostics_inspector;
use crate::diagnostics_inspector::{DiagnosticRow, ImportDiagnostic};
use crate::editor::{CatalogAssetEntry, SmsEditorApp};
use crate::editor_instances;
use crate::editor_instances::PlacedAsset;
use crate::flag_shapes;
use crate::level_transform;
use crate::level_transform::{LevelTransformBehavior, LevelTransformTarget};
use crate::model_instances;
use crate::model_instances::EditorModelInstance;
use crate::model_preview;
use crate::model_preview::{SrtAnimation, SrtState};
use crate::npc_materials;
use crate::particle_births;
use crate::particle_births::{ChildBirth, ParentSpan};
use crate::particle_previews;
use crate::particle_previews::LoadedEffect;
use crate::particle_slots;
use crate::particle_slots::{PairedFile, ParticlePreview, ParticleState};
use crate::particle_sources;
use crate::particle_sources::{FoundEffect, RequestView};
use crate::preview::{
    DecodedView, J3dMaterial, J3dTexturePreview, MaterialView, PreviewTriangle,
};
use crate::preview_animations;
use crate::preview_assets;
use crate::preview_grass;
use crate::preview_grass::GrassGroup;
use crate::preview_textures;
use crate::preview_wires;
use crate::preview_wires::WireSource;
use crate::registry::ObjectRegistry;
use crate::search;
use crate::stage::{SceneObject, StageAsset, StageAssetKind};
use crate::text;

verus! {

/// A texture is masked where it goes by the first texture's name and is of the mask's size: it
/// takes the mask's picture and one level, and keeps its name and size; any other stays.
pub proof fn law_masks_replace_their_aliases(
    texture: J3dTexturePreview,
    before: J3dTexturePreview,
    name: Seq<char>,
    width: u16,
    height: u16,
    rgba: Seq<u8>,
)
    requires
        preview_textures::masked(texture, before, name, width, height, rgba),
    ensures
        before.name@ == name && before.width == width && before.height == height
            ==> texture.rgba@ == rgba && texture.name == before.name && texture.width == width
            && texture.height == height && texture.mips@.len() == 0
            && texture.sampler.mipmap_count == 1 && texture.sampler.wrap_s == before.sampler.wrap_s,
        before.name@ != name || before.width != width || before.height != height ==> texture
            == before,
        texture.name == before.name,
{
}

/// A mask applies to a model whose first texture has its size.
pub proof fn law_masks_apply_by_size(
    textures: Seq<J3dTexturePreview>,
    width: u16,
    height: u16,
)
    ensures
        preview_textures::mask_applies(textures, width, height) <==> textures.len() > 0
            && textures[0].width == width && textures[0].height == height,
{
}

/// The eyes of an NPC are drawn from both sides, in their material and in every triangle of it;
/// all else is as it was.
pub proof fn law_eyes_are_drawn_from_both_sides(
    material: MaterialView,
    triangle: PreviewTriangle,
    materials: Seq<MaterialView>,
)
    ensures
        preview_assets::is_eye_name(material.name) ==> model_preview::with_open_eyes(
            material,
        ).cull_mode == 0 && model_preview::with_open_eyes(material).texture_indices
            == material.texture_indices && model_preview::with_open_eyes(material).name
            == material.name && model_preview::with_open_eyes(material).blend_mode
            == material.blend_mode,
        !preview_assets::is_eye_name(material.name) ==> model_preview::with_open_eyes(material)
            == material,
        triangle.material_index is None ==> model_preview::with_open_eye(triangle, materials)
            == triangle,
        triangle.material_index matches Some(m) ==> {
            let after = model_preview::with_open_eye(triangle, materials);
            let eye = m < materials.len() && preview_assets::is_eye_name(
                materials[m as int].name,
            );
            &&& !eye ==> after == triangle
            &&& eye ==> after.cull_mode == Some(0u8) && after.texture_index
                == triangle.texture_index && after.material_index == triangle.material_index
                && after.vertex_colors == triangle.vertex_colors
        },
{
}

/// A table is complete where none of its materials asks for a texture that it does not have.
pub proof fn law_complete_tables_have_their_textures(
    materials: Seq<J3dMaterial>,
    textures: int,
    i: int,
    j: int,
)
    requires
        0 <= i < materials.len(),
        0 <= j < 8,
        model_preview::table_is_complete(materials, textures),
    ensures
        materials[i].texture_indices@[j] matches Some(k) ==> k < textures,
{
    let slot = materials[i].texture_indices@[j];
}

/// A texture animation plays where its file is there, was read and drives a material: it is then
/// the next of the stage's animations, and its tracks are bound under that number.
pub proof fn law_texture_animations_play_where_they_drive(
    state: SrtState,
    assets: Seq<StageAsset>,
    parsed: Seq<SrtAnimation>,
    path: Seq<char>,
    materials: Seq<J3dMaterial>,
    base: int,
    a: int,
    p: int,
)
    requires
        0 <= a < assets.len() <= usize::MAX,
        assets[a].kind == StageAssetKind::Animation,
        preview_assets::is_asset_at(StageAssetKind::Animation, path)(assets[a]),
        forall|j: int|
            0 <= j < a ==> !preview_assets::is_asset_at(StageAssetKind::Animation, path)(
                #[trigger] assets[j],
            ),
        0 <= p < parsed.len(),
        parsed[p].asset == a,
        forall|j: int| 0 <= j < p ==> (#[trigger] parsed[j]).asset != a,
    ensures
        ({
            let after = model_preview::with_animation(
                state,
                assets,
                parsed,
                path,
                materials,
                base,
            );
            let names = text::views(parsed[p].material_names@);
            let drives = exists|i: int|
                0 <= i < names.len() && (#[trigger] model_preview::bound_material(
                    materials,
                    names[i],
                    base,
                    state.bindings.len() as int,
                )) is Some;
            &&& drives ==> after.animations == state.animations.push(a as usize)
            &&& !drives ==> after.animations == state.animations
            &&& after.bindings == model_preview::with_bindings(
                state.bindings,
                materials,
                names,
                base,
                state.animations.len() as usize,
                names.len(),
            )
        }),
{
    let at = preview_assets::is_asset_at(StageAssetKind::Animation, path);
    search::lemma_found(assets, at, a);
    let of = model_preview::comes_from(a as usize);
    assert(of(parsed[p]));
    assert forall|j: int| 0 <= j < p implies !of(#[trigger] parsed[j]) by {}
    search::lemma_found(parsed, of, p);
}

/// The materials of a model are shared by objects that colour nothing of their own: no resource
/// colour, no NPC or enemy colours, no goop, no override.
pub proof fn law_uncolored_objects_share_their_materials(
    object: SceneObject,
    registry: ObjectRegistry,
    i: int,
)
    ensures
        npc_materials::shares_materials(object, None) <==> npc_materials::string_color(object, None)
            is None && npc_materials::initial_pollution(object, None) is None
            && npc_materials::model_override_color(object, None) is None,
        npc_materials::shares_materials(object, Some(registry)) ==> {
            &&& npc_materials::string_color(object, Some(registry)) is None
            &&& npc_materials::initial_pollution(object, Some(registry)) is None
            &&& npc_materials::model_override_color(object, Some(registry)) is None
            &&& 0 <= i < registry.npc_material_colors@.len()
                && registry.npc_material_colors@[i].model_index == 0
                ==> registry.npc_material_colors@[i].factory_name@ != object.factory_name@
            &&& 0 <= i < registry.enemy_material_colors@.len()
                ==> registry.enemy_material_colors@[i].factory_name@ != object.factory_name@
        },
{
    let root = npc_materials::colors_root(object.factory_name@);
    let enemy = npc_materials::is_enemy(object.factory_name@);
    search::lemma_first_position(registry.npc_material_colors@, root);
    search::lemma_first_position(registry.enemy_material_colors@, enemy);
    if npc_materials::shares_materials(object, Some(registry)) {
        if 0 <= i < registry.npc_material_colors@.len() {
            assert(!root(registry.npc_material_colors@[i]));
        }
        if 0 <= i < registry.enemy_material_colors@.len() {
            assert(!enemy(registry.enemy_material_colors@[i]));
        }
    }
}

/// The children that live are kept in order, and no more than there is room for.
pub proof fn law_living_children_are_kept(
    list: Seq<ChildBirth>,
    spans: Seq<ParentSpan>,
    lifetime: i16,
    n: nat,
    c: ChildBirth,
    room: int,
)
    requires
        n <= list.len(),
        room >= 0,
    ensures
        particle_births::living_children(list, spans, lifetime, n).contains(c)
            <==> particle_births::child_lives(c, spans, lifetime) && exists|i: int|
            0 <= i < n && (#[trigger] list[i]) == c,
        particle_births::first_children(list, room).len() <= room,
        particle_births::first_children(list, room).is_prefix_of(list),
        list.len() <= room ==> particle_births::first_children(list, room) == list,
        list.len() > room ==> particle_births::first_children(list, room).len() == room,
    decreases n,
{
    let first = particle_births::first_children(list, room);
    assert(list.subrange(0, first.len() as int) =~= first);
    if n > 0 {
        law_living_children_are_kept(list, spans, lifetime, (n - 1) as nat, c, room);
        let rest = particle_births::living_children(list, spans, lifetime, (n - 1) as nat);
        let all = particle_births::living_children(list, spans, lifetime, n);
        if rest.contains(c) {
            let i = choose|i: int| 0 <= i < rest.len() && rest[i] == c;
            assert(all[i] == c);
        }
        if list[n - 1] == c && particle_births::child_lives(c, spans, lifetime) {
            assert(all[rest.len() as int] == c);
        }
        if all.contains(c) && !rest.contains(c) {
            let i = choose|i: int| 0 <= i < all.len() && all[i] == c;
            if i < rest.len() {
                assert(rest[i] == c);
            }
            assert(list[n - 1] == c);
        }
    }
}

/// A stripe of a few particles has a piece between each two of them, as far as there is room.
pub proof fn law_stripes_keep_to_their_room(
    count: int,
    crossed: bool,
    reversed: bool,
    capacity: int,
)
    requires
        0 <= count <= usize::MAX,
        capacity >= 0,
    ensures
        ({
            let pieces = particle_births::stripe_pieces(count, crossed, reversed, capacity);
            let whole = if count == 0 {
                0
            } else if crossed {
                2 * (count - 1)
            } else {
                count - 1
            };
            &&& whole <= capacity ==> pieces.len() == whole
            &&& whole > capacity ==> pieces.len() == capacity
        }),
{
    if count >= 2 {
        crate::particle_birth_laws::law_stripes_join_neighbours(
            count,
            crossed,
            reversed,
            (count - 1) as nat,
            0,
        );
    } else {
        assert(particle_births::stripe(count, crossed, reversed, 0).len() == 0);
    }
}

/// Previews of one effect and kind share the simulation of the first of them; one without an
/// effect has its own.
pub proof fn law_previews_share_the_first_simulation(
    previews: Seq<ParticlePreview>,
    i: int,
    source: int,
)
    requires
        0 <= i < previews.len(),
        search::first_index((i + 1) as nat, particle_slots::shares_with(previews, i)) == Some(
            source,
        ),
    ensures
        0 <= source <= i,
        previews[source].shared_simulation_id == previews[i].shared_simulation_id,
        previews[source].kind == previews[i].kind,
        forall|j: int|
            0 <= j < source ==> (#[trigger] previews[j]).shared_simulation_id
                != previews[i].shared_simulation_id || previews[j].kind != previews[i].kind,
{
    let p = particle_slots::shares_with(previews, i);
    search::lemma_first_index((i + 1) as nat, p);
    assert(p(source));
    assert forall|j: int| 0 <= j < source implies (#[trigger] previews[j]).shared_simulation_id
        != previews[i].shared_simulation_id || previews[j].kind != previews[i].kind by {
        assert(!p(j));
    }
}

/// The pairs of a level are those groups that are pairs, in the groups' order.
pub proof fn law_pairs_come_group_by_group(
    files: Seq<PairedFile>,
    groups: Seq<Seq<char>>,
    n: nat,
)
    requires
        n < groups.len(),
    ensures
        ({
            let before = particle_slots::pairs(files, groups, n);
            let after = particle_slots::pairs(files, groups, n + 1);
            let list = particle_slots::members(files, groups[n as int], files.len());
            &&& particle_slots::is_pair(files, list) ==> after == before.push(list)
            &&& !particle_slots::is_pair(files, list) ==> after == before
        }),
{
}

/// An actor's bindings are shown one after the other, each with its own effect, under the effect's
/// number, at the actor's model.
pub proof fn law_bindings_are_shown_in_order(
    start: ParticleState,
    registry: ObjectRegistry,
    found: Seq<FoundEffect>,
    effects: Seq<LoadedEffect>,
    bindings: Seq<usize>,
    model: usize,
    n: nat,
    f: int,
)
    requires
        n < bindings.len(),
        0 <= f < found.len(),
        ({
            let id = registry.actor_particle_bindings@[bindings[n as int] as int].effect_id;
            found[f].effect_id == id && forall|j: int|
                0 <= j < f ==> (#[trigger] found[j]).effect_id != id
        }),
    ensures
        ({
            let id = registry.actor_particle_bindings@[bindings[n as int] as int].effect_id;
            let loaded = effects[found[f].effect as int];
            particle_previews::with_bindings(
                start,
                registry,
                found,
                effects,
                bindings,
                model,
                n + 1,
            ) == particle_slots::with_emitter(
                particle_previews::with_bindings(
                    start,
                    registry,
                    found,
                    effects,
                    bindings,
                    model,
                    n,
                ),
                loaded.effect,
                Some(id),
                Some(model),
                loaded.limits,
            )
        }),
{
    let id = registry.actor_particle_bindings@[bindings[n as int] as int].effect_id;
    let of = particle_sources::is_effect(id);
    assert(of(found[f]));
    assert forall|j: int| 0 <= j < f implies !of(#[trigger] found[j]) by {}
    search::lemma_found(found, of, f);
}

/// The effects of a level's change are shown group by group and file by file, free of any model and
/// with simulations of their own.
pub proof fn law_level_effects_are_free(
    start: ParticleState,
    effects: Seq<LoadedEffect>,
    groups: Seq<Seq<usize>>,
    assignments: Seq<(usize, usize)>,
    members: Seq<usize>,
    n: nat,
)
    ensures
        n < members.len() ==> particle_previews::with_members(start, effects, members, n + 1)
            == particle_slots::with_emitter(
            particle_previews::with_members(start, effects, members, n),
            effects[members[n as int] as int].effect,
            None,
            None,
            effects[members[n as int] as int].limits,
        ),
        n < assignments.len() ==> ({
            let group = groups[assignments[n as int].0 as int];
            particle_previews::with_assignments(start, effects, groups, assignments, n + 1)
                == particle_previews::with_members(
                particle_previews::with_assignments(start, effects, groups, assignments, n),
                effects,
                group,
                group.len(),
            )
        }),
        particle_previews::with_members(start, effects, members, 0) == start,
        particle_previews::with_assignments(start, effects, groups, assignments, 0) == start,
{
}

/// An effect is asked for where an object of the scene has a class that is bound to it; its
/// resource is asked for under the effect's number.
pub proof fn law_bound_effects_are_asked_for(
    registry: ObjectRegistry,
    objects: Seq<SceneObject>,
    n: nat,
    b: int,
    o: int,
)
    requires
        n < registry.particle_resources@.len(),
    ensures
        ({
            let resource = registry.particle_resources@[n as int];
            let before = particle_sources::requests(registry, objects, n);
            let after = particle_sources::requests(registry, objects, n + 1);
            &&& 0 <= b < registry.actor_particle_bindings@.len() && 0 <= o < objects.len()
                && registry.actor_particle_bindings@[b].effect_id == resource.effect_id
                && particle_sources::has_class(
                registry,
                objects[o],
                registry.actor_particle_bindings@[b].class_name@,
            ) ==> after == particle_sources::with_request(
                before,
                RequestView { effect_id: resource.effect_id, path: resource.path@ },
            )
            &&& (forall|c: int|
                0 <= c < registry.actor_particle_bindings@.len() ==> (
                #[trigger] registry.actor_particle_bindings@[c]).effect_id != resource.effect_id)
                ==> after == before
            &&& objects.len() == 0 ==> after == before
        }),
{
    let resource = registry.particle_resources@[n as int];
    if 0 <= b < registry.actor_particle_bindings@.len() && 0 <= o < objects.len() {
        let x = registry.actor_particle_bindings@[b];
        let y = objects[o];
    }
}

/// The parts that an NPC can wear are those of its own class.
pub proof fn law_actors_have_their_own_parts(registry: ObjectRegistry, factory: Seq<char>, i: int)
    ensures
        preview_animations::known_parts(None, factory).len() == 0,
        0 <= i < registry.npc_actors@.len() && registry.npc_actors@[i].factory_name@ == factory && (
        forall|j: int|
            0 <= j < i ==> (#[trigger] registry.npc_actors@[j]).factory_name@ != factory)
            ==> preview_animations::known_parts(Some(&registry), factory)
            == registry.npc_actors@[i].parts@,
        (forall|j: int|
            0 <= j < registry.npc_actors@.len() ==> (
            #[trigger] registry.npc_actors@[j]).factory_name@ != factory)
            ==> preview_animations::known_parts(Some(&registry), factory).len() == 0,
{
    let actor = preview_animations::is_actor(factory);
    search::lemma_first_position(registry.npc_actors@, actor);
    let found = search::first_position(registry.npc_actors@, actor);
    if found is Some {
        assert(actor(registry.npc_actors@[found->0]));
        if 0 <= i < found->0 {
            assert(!actor(registry.npc_actors@[i]));
        }
    } else if 0 <= i < registry.npc_actors@.len() {
        assert(!actor(registry.npc_actors@[i]));
    }
}

/// An animation is one of several candidates where it is an animation and lies at one of their
/// paths, in any case and with either separator.
pub proof fn law_animations_lie_at_a_candidate(
    asset: StageAsset,
    paths: Seq<Seq<char>>,
    i: int,
)
    ensures
        preview_animations::is_animation_at(paths)(asset) ==> asset.kind
            == StageAssetKind::Animation && paths.len() > 0,
        0 <= i < paths.len() && asset.kind == StageAssetKind::Animation && text::lower(
            text::with_replaced(asset.path@, '\\', '/'),
        ) == text::lower(paths[i]) ==> preview_animations::is_animation_at(paths)(asset),
{
    if 0 <= i < paths.len() {
        let p = paths[i];
    }
}

/// The textures of a model are replaced one dummy after the other.
pub proof fn law_replacements_come_in_order(
    textures: Seq<DecodedView>,
    replacements: Seq<(Seq<char>, Seq<char>)>,
    decoded: Seq<Option<J3dTexturePreview>>,
    n: nat,
)
    requires
        n < replacements.len(),
        n < decoded.len(),
    ensures
        ({
            let before = preview_animations::with_replacements(
                textures,
                replacements,
                decoded,
                n,
            );
            let after = preview_animations::with_replacements(
                textures,
                replacements,
                decoded,
                n + 1,
            );
            &&& decoded[n as int] is None ==> after == before
            &&& decoded[n as int] matches Some(texture) ==> {
                &&& after.len() == before.len()
                &&& forall|i: int|
                    0 <= i < before.len() ==> (#[trigger] after[i]) == (if text::lower(
                        before[i].name,
                    ) == text::lower(replacements[n as int].0) {
                        DecodedView { name: replacements[n as int].0, ..texture@ }
                    } else {
                        before[i]
                    })
            }
        }),
{
}

/// The phase of an object's texture pattern comes of its name alone, byte by byte in 64 bits.
pub proof fn law_pattern_phases_come_byte_by_byte(bytes: Seq<u8>, byte: u8)
    ensures
        preview_assets::byte_hash(Seq::empty()) == 14_695_981_039_346_656_037,
        preview_assets::byte_hash(bytes.push(byte)) as int == ((preview_assets::byte_hash(bytes) ^ (
        byte as u64)) * 17_592_186_044_851) % 0x1_0000_0000_0000_0000,
{
    assert(bytes.push(byte).drop_last() =~= bytes);
    assert(bytes.push(byte).last() == byte);
    let mixed = preview_assets::byte_hash(bytes) ^ (byte as u64);
    assert(0x1000_0000_01b3 == 17_592_186_044_851);
    assert(mixed.wrapping_mul(0x1000_0000_01b3) as int == (mixed * 17_592_186_044_851)
        % 0x1_0000_0000_0000_0000);
}

/// A class that winks has one pattern, in the archive of its model; any other has none.
pub proof fn law_winking_classes_have_one_pattern(factory: Seq<char>, model_path: Seq<char>)
    ensures
        preview_assets::wink_animation(factory) is None
            ==> preview_assets::texture_pattern_candidates(factory, model_path).len() == 0,
        preview_assets::wink_animation(factory) matches Some(relative)
            ==> preview_assets::texture_pattern_candidates(factory, model_path) == seq![
            preview_assets::beside(
                preview_assets::archive_of(text::with_replaced(model_path, '\\', '/')),
                relative,
            ),
        ],
{
}

/// The grass of a stage comes group by group: blades, points and triangles, and each group's model
/// belongs to its object.
pub proof fn law_grass_comes_group_by_group(
    objects: Seq<SceneObject>,
    groups: Seq<GrassGroup>,
    packet: usize,
    n: nat,
)
    requires
        n < groups.len(),
    ensures
        preview_grass::all_blades(groups, n + 1) == preview_grass::all_blades(groups, n)
            + preview_grass::blades_of(
            n as int,
            groups[n as int].first_blade as int,
            groups[n as int].blade_count as nat,
        ),
        preview_grass::all_points(groups, n + 1) == preview_grass::all_points(groups, n)
            + preview_grass::points_of(groups[n as int], groups[n as int].blade_count as nat),
        preview_grass::all_triangles(groups, packet, n + 1) == preview_grass::all_triangles(
            groups,
            packet,
            n,
        ) + preview_grass::triangles_of(
            groups[n as int],
            packet,
            groups[n as int].blade_count as nat,
        ),
        preview_grass::group_models(objects, groups).len() == groups.len(),
        preview_grass::group_models(objects, groups)[n as int].0
            == objects[groups[n as int].object as int].id@,
        preview_grass::group_models(objects, groups)[n as int].1 == groups[n as int].model_index,
{
}

/// The fitting of wires is loaded behind the textures and materials that are there.
pub proof fn law_fittings_are_loaded_behind_the_others(
    source: WireSource,
    textures: int,
    materials: int,
)
    requires
        0 <= textures <= usize::MAX,
        0 <= materials <= usize::MAX,
        source.fitting matches Some(geometry) ==> textures + geometry.textures@.len() <= usize::MAX
            && materials + geometry.materials@.len() <= usize::MAX,
    ensures
        ({
            let bases = preview_wires::bases_of(source, textures, materials);
            &&& bases.texture_base == textures
            &&& bases.material_base == materials
            &&& source.fitting is None ==> bases.texture_count == textures && bases.material_count
                == materials
            &&& source.fitting matches Some(geometry) ==> bases.texture_count == textures
                + geometry.textures@.len() && bases.material_count == materials
                + geometry.materials@.len()
        }),
{
}

/// A table's path is taken without its leading separators, of either kind.
pub proof fn law_table_paths_lose_their_root(path: Seq<char>)
    ensures
        flag_shapes::without_separators(seq!['/'] + path) == flag_shapes::without_separators(path),
        flag_shapes::without_separators(seq!['\\'] + path) == flag_shapes::without_separators(
            path,
        ),
        path.len() > 0 && path[0] != '/' && path[0] != '\\' ==> flag_shapes::without_separators(
            path,
        ) == path,
        flag_shapes::without_separators(Seq::empty()) == Seq::<char>::empty(),
{
    assert((seq!['/'] + path).drop_first() =~= path);
    assert((seq!['\\'] + path).drop_first() =~= path);
}

/// A shape is hidden by a target that hides it: one that is always hidden, or one that is hidden
/// once the change has started.
pub proof fn law_targets_hide_their_shapes(
    targets: Seq<LevelTransformTarget>,
    shapes: Seq<Vec<usize>>,
    started: bool,
    shape: usize,
    i: int,
)
    ensures
        0 <= i < targets.len() && i < shapes.len() && shapes[i]@.contains(shape) && (
        targets[i].behavior == LevelTransformBehavior::AlwaysHidden || (targets[i].behavior
            == LevelTransformBehavior::HideAfterStart && started))
            ==> level_transform::shape_is_hidden(targets, shapes, started, shape),
        level_transform::shape_is_hidden(targets, shapes, started, shape) ==> exists|j: int|
            0 <= j < targets.len() && j < shapes.len() && (#[trigger] targets[j]).behavior
                != LevelTransformBehavior::Linear && shapes[j]@.contains(shape),
        level_transform::shape_is_hidden(targets, shapes, false, shape) ==> exists|j: int|
            0 <= j < targets.len() && (#[trigger] targets[j]).behavior
                == LevelTransformBehavior::AlwaysHidden,
{
    if 0 <= i < targets.len() && i < shapes.len() {
        let hidden = level_transform::is_hidden(targets[i], started);
    }
}

/// A copy gets the first name that is free: all before it are taken.
pub proof fn law_copies_get_the_first_free_name(
    existing: Seq<Seq<char>>,
    folder: Seq<char>,
    stem: Seq<char>,
    path: Seq<char>,
    serial: nat,
)
    requires
        asset_names::is_first_free(existing, folder, stem, path),
        serial >= 1,
        !existing.contains(asset_names::copy_path(folder, stem, serial)),
    ensures
        !existing.contains(path),
        exists|k: nat| 1 <= k <= serial && path == #[trigger] asset_names::copy_path(folder, stem, k),
{
    let k = choose|k: nat|
        k >= 1 && path == #[trigger] asset_names::copy_path(folder, stem, k)
            && asset_names::all_taken(existing, folder, stem, (k - 1) as nat);
    if k > serial {
        assert(existing.contains(asset_names::copy_path(folder, stem, serial)));
    }
}

/// An asset is found in the catalog under its id, at its first entry.
pub proof fn law_entries_are_found_by_id(entries: Seq<CatalogAssetEntry>, id: u128, i: int)
    ensures
        0 <= i < entries.len() && entries[i].id == id && (forall|j: int|
            0 <= j < i ==> (#[trigger] entries[j]).id != id) ==> asset_operations::entry_position(
            entries,
            id,
        ) == Some(i),
        (forall|j: int| 0 <= j < entries.len() ==> (#[trigger] entries[j]).id != id)
            ==> asset_operations::entry_position(entries, id) is None,
{
    let of = asset_operations::is_entry_of(id);
    search::lemma_first_position(entries, of);
    let found = search::first_position(entries, of);
    if found is Some {
        assert(of(entries[found->0]));
        if 0 <= i < found->0 {
            assert(!of(entries[i]));
        }
    } else if 0 <= i < entries.len() {
        assert(!of(entries[i]));
    }
}

/// A remark's row can be ticked only where the remark asks for it, and is ticked where it was.
pub proof fn law_remarks_are_ticked_where_they_ask(
    row: DiagnosticRow,
    remark: ImportDiagnostic,
    acknowledged: Seq<u32>,
)
    requires
        diagnostics_inspector::is_row_of(row, remark, acknowledged),
    ensures
        row.acknowledged is Some <==> remark.acknowledgement_required,
        row.acknowledged == Some(true) ==> acknowledged.contains(remark.code),
        row.acknowledged == Some(false) ==> !acknowledged.contains(remark.code),
        row.message@ == remark.message@,
        row.severity == remark.severity,
        row.title@ == remark.severity.name() + (" ["@ + (remark.code_name@ + "]"@)),
{
    assert(row.title@ =~= remark.severity.name() + (" ["@ + (remark.code_name@ + "]"@)));
}

/// Two instances are the same where every field is, their numbers as numbers.
pub proof fn law_instances_compare_whole(a: EditorModelInstance, b: EditorModelInstance)
    ensures
        model_instances::instances_equal(a, b) ==> {
            &&& a.stage_id@ == b.stage_id@
            &&& a.placement.instance_id == b.placement.instance_id
            &&& a.placement.asset_id == b.placement.asset_id
            &&& a.placement.name@ == b.placement.name@
            &&& a.placement.export_mode == b.placement.export_mode
            &&& a.placement.stock_map_obj_resource@ == b.placement.stock_map_obj_resource@
            &&& a.placement.collision_enabled == b.placement.collision_enabled
            &&& a.placement.collision_surface_override == b.placement.collision_surface_override
            &&& model_instances::floats_equal(
                a.placement.transform.translation.x,
                b.placement.transform.translation.x,
            )
            &&& model_instances::floats_equal(
                a.placement.transform.rotation.y,
                b.placement.transform.rotation.y,
            )
            &&& model_instances::floats_equal(
                a.placement.transform.scale.z,
                b.placement.transform.scale.z,
            )
            &&& model_instances::floats_equal(a.bounds_min.x, b.bounds_min.x)
            &&& model_instances::floats_equal(a.bounds_max.z, b.bounds_max.z)
        },
        model_instances::instances_equal(a, b) <==> model_instances::instances_equal(b, a),
{
    assert(forall|m: u32, n: u32|
        #[trigger] model_instances::floats_equal(m, n) ==> model_instances::floats_equal(n, m));
}

/// Two lists of instances are the same where they are as long and the same one by one.
pub proof fn law_lists_compare_one_by_one(
    a: Seq<EditorModelInstance>,
    b: Seq<EditorModelInstance>,
    i: int,
)
    ensures
        editor_instances::lists_equal(a, b) ==> a.len() == b.len() && (0 <= i < a.len()
            ==> model_instances::instances_equal(a[i], b[i])),
        a.len() == b.len() && (forall|j: int|
            0 <= j < a.len() ==> model_instances::instances_equal(#[trigger] a[j], b[j]))
            ==> editor_instances::lists_equal(a, b),
{
}

/// A model can be placed in an open stage with a name; the log tells where it becomes the ground.
pub proof fn law_models_are_placed_in_an_open_stage(app: SmsEditorApp, asset: PlacedAsset)
    ensures
        app.can_place() <==> app.project.stage_open && text::trimmed(app.project.stage_id@).len()
            > 0,
        app.next_is_terrain(asset) ==> app.placing_lines(asset).len() == app.lines().len() + 1,
        !app.next_is_terrain(asset) ==> app.placing_lines(asset) == app.lines(),
{
}

/// An empty preview shows nothing and spans the unit cube.
pub proof fn law_an_empty_preview_is_a_unit_cube()
    ensures
        ({
            let empty = authored_preview::nothing();
            &&& empty.points.len() == 0 && empty.triangles.len() == 0 && empty.textures.len() == 0
                && empty.materials.len() == 0 && empty.bindings.len() == 0
            &&& empty.bounds.min.x == 0 && empty.bounds.min.y == 0 && empty.bounds.min.z == 0
            &&& empty.bounds.max.x == 0x3f80_0000 && empty.bounds.max.y == 0x3f80_0000
                && empty.bounds.max.z == 0x3f80_0000
            &&& empty.bounds.camera_min == empty.bounds.min && empty.bounds.camera_max
                == empty.bounds.max
            &&& authored_preview::start_of(empty).next_model == 0
            &&& authored_preview::start_of(empty).next_packet == 0
        }),
{
    let empty = authored_preview::nothing();
    assert(authored_preview::models(empty.triangles) =~= Seq::empty());
    assert(authored_preview::packets(empty.triangles) =~= Seq::empty());
}

} // verus!
