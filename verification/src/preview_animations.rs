//! Which accessories, poses, texture patterns and runtime textures an actor's preview takes.
use vstd::prelude::*;

use crate::npc_materials::NpcAccessorySpec;
use crate::preview;
use crate::preview::{
    DecodedView, J3dGeometryPreview, J3dMaterial, J3dTexturePreview, MaterialView,
};
use crate::preview_assets;
use crate::registry::{NpcActorDefinition, NpcPartDefinition, ObjectRegistry};
use crate::search;
use crate::stage::{SceneObject, StageAsset, StageAssetKind};
use crate::text;

verus! {

/// The part is present.
pub open spec fn part_is_on(mask: u32, part: NpcPartDefinition) -> bool {
    mask & (1u32 << part.bit_index) != 0
}

/// The accessories of the first `n` models of a part.
pub open spec fn part_accessories(part: NpcPartDefinition, n: nat) -> Seq<
    AccessoryView,
> {
    Seq::new(
        n,
        |i: int|
            AccessoryView {
                joint_name: part.models@[i].joint_name,
                asset_suffix: "/"@ + text::lower(part.models@[i].model_name@),
                color_index_channel: part.color_index_channel,
                color_changes: part.color_changes,
                uses_pollution: part.uses_pollution,
            },
    )
}

/// The abstract value of an accessory.
#[verifier::ext_equal]
pub struct AccessoryView {
    pub joint_name: Option<String>,
    pub asset_suffix: Seq<char>,
    pub color_index_channel: u8,
    pub color_changes: Vec<crate::registry::NpcColorChangeDefinition>,
    pub uses_pollution: bool,
}

impl<'a> View for NpcAccessorySpec<'a> {
    type V = AccessoryView;

    open spec fn view(&self) -> AccessoryView {
        AccessoryView {
            joint_name: *self.joint_name,
            asset_suffix: self.asset_suffix@,
            color_index_channel: self.color_index_channel,
            color_changes: *self.color_changes,
            uses_pollution: self.uses_pollution,
        }
    }
}

/// The abstract values of a list of accessories.
pub open spec fn accessory_views<'a>(list: Seq<NpcAccessorySpec<'a>>) -> Seq<AccessoryView> {
    Seq::new(list.len(), |i: int| list[i]@)
}

/// The accessories of the first `n` parts, as far as they are present.
pub open spec fn accessories_of(parts: Seq<NpcPartDefinition>, mask: u32, n: nat) -> Seq<
    AccessoryView,
>
    decreases n,
{
    if n == 0 {
        Seq::empty()
    } else {
        let rest = accessories_of(parts, mask, (n - 1) as nat);
        if part_is_on(mask, parts[n - 1]) {
            rest + part_accessories(parts[n - 1], parts[n - 1].models@.len())
        } else {
            rest
        }
    }
}

/// The definition belongs to this class.
pub open spec fn is_actor(factory: Seq<char>) -> spec_fn(NpcActorDefinition) -> bool {
    |actor: NpcActorDefinition| actor.factory_name@ == factory
}

/// The parts that an object's class knows.
pub open spec fn known_parts(registry: Option<&ObjectRegistry>, factory: Seq<char>) -> Seq<
    NpcPartDefinition,
> {
    match registry {
        Some(registry) => match search::first_position(registry.npc_actors@, is_actor(factory)) {
            Some(i) => registry.npc_actors@[i].parts@,
            None => Seq::empty(),
        },
        None => Seq::empty(),
    }
}

/// Every part has a bit in the mask.
pub open spec fn parts_have_bits(parts: Seq<NpcPartDefinition>) -> bool {
    forall|i: int| 0 <= i < parts.len() ==> (#[trigger] parts[i]).bit_index < 32
}

/// The parts mask that an object was placed with.
pub fn npc_parts_mask(object: &SceneObject) -> (r: Option<i32>)
    ensures
        r == (match object.param("npc_parts_mask"@) {
            Some(value) => text::i32_value(value),
            None => None,
        }),
{
    match object.raw_param("npc_parts_mask") {
        Some(value) => text::parse_i32(value),
        None => None,
    }
}

fn find_actor(actors: &[NpcActorDefinition], factory: &str) -> (r: Option<usize>)
    ensures
        match r {
            Some(i) => i < actors@.len() && search::first_position(actors@, is_actor(factory@))
                == Some(i as int),
            None => search::first_position(actors@, is_actor(factory@)) is None,
        },
{
    let mut i: usize = 0;
    while i < actors.len()
        invariant
            i <= actors.len(),
            forall|j: int| 0 <= j < i ==> !is_actor(factory@)(#[trigger] actors@[j]),
        decreases actors.len() - i,
    {
        if text::same(actors[i].factory_name.as_str(), factory) {
            proof {
                search::lemma_found(actors@, is_actor(factory@), i as int);
            }
            return Some(i);
        }
        i += 1;
    }
    proof {
        search::lemma_not_found(actors@, is_actor(factory@));
    }
    None
}

fn push_part<'a>(list: &mut Vec<NpcAccessorySpec<'a>>, part: &'a NpcPartDefinition)
    ensures
        accessory_views(final(list)@) == accessory_views(old(list)@) + part_accessories(
            *part,
            part.models@.len(),
        ),
{
    let mut i: usize = 0;
    proof {
        assert(accessory_views(list@) =~= accessory_views(old(list)@) + part_accessories(*part, 0));
    }
    while i < part.models.len()
        invariant
            i <= part.models.len(),
            accessory_views(list@) == accessory_views(old(list)@) + part_accessories(
                *part,
                i as nat,
            ),
        decreases part.models.len() - i,
    {
        let model = &part.models[i];
        let ghost before = accessory_views(list@);
        let made = NpcAccessorySpec {
            joint_name: &model.joint_name,
            asset_suffix: "/".to_owned().concat(text::to_lower(model.model_name.as_str()).as_str()),
            color_index_channel: part.color_index_channel,
            color_changes: &part.color_changes,
            uses_pollution: part.uses_pollution,
        };
        list.push(made);
        proof {
            assert(accessory_views(list@) =~= before.push(made@));
            assert(part_accessories(*part, (i + 1) as nat) =~= part_accessories(
                *part,
                i as nat,
            ).push(made@));
        }
        i += 1;
    }
}

/// The accessories of an NPC. `mask` is the effective parts mask; an object placed without one
/// wears nothing.
pub fn npc_accessory_specs<'a>(
    registry: Option<&'a ObjectRegistry>,
    object: &SceneObject,
    mask: Option<u32>,
) -> (r: Vec<NpcAccessorySpec<'a>>)
    requires
        mask is Some ==> parts_have_bits(known_parts(registry, object.factory_name@)),
    ensures
        ({
            let parts = known_parts(registry, object.factory_name@);
            accessory_views(r@) == (match mask {
                Some(mask) => accessories_of(parts, mask, parts.len()),
                None => Seq::empty(),
            })
        }),
{
    let ghost parts = known_parts(registry, object.factory_name@);
    let mut r: Vec<NpcAccessorySpec<'a>> = Vec::new();
    proof {
        assert(accessory_views(r@) =~= Seq::empty());
    }
    if let Some(mask) = mask {
        if let Some(registry) = registry {
            if let Some(k) = find_actor(
                registry.npc_actors.as_slice(),
                object.factory_name.as_str(),
            ) {
                let actor = &registry.npc_actors[k];
                proof {
                    assert(parts == actor.parts@);
                }
                let mut i: usize = 0;
                while i < actor.parts.len()
                    invariant
                        i <= actor.parts.len(),
                        parts == actor.parts@,
                        parts_have_bits(parts),
                        accessory_views(r@) == accessories_of(parts, mask, i as nat),
                    decreases actor.parts.len() - i,
                {
                    let part = &actor.parts[i];
                    proof {
                        assert(parts[i as int].bit_index < 32);
                    }
                    if mask & (1u32 << part.bit_index) != 0 {
                        push_part(&mut r, part);
                    }
                    i += 1;
                }
            }
        }
    }
    r
}

/// The asset is an animation at one of the paths.
pub open spec fn is_animation_at(paths: Seq<Seq<char>>) -> spec_fn(StageAsset) -> bool {
    |asset: StageAsset|
        asset.kind == StageAssetKind::Animation && exists|i: int|
            0 <= i < paths.len() && text::same_ignoring_case(
                preview_assets::slashed(asset.path@),
                #[trigger] paths[i],
            )
}

fn matches_any(path: &str, candidates: &[String]) -> (r: bool)
    ensures
        r == exists|i: int|
            0 <= i < candidates@.len() && text::same_ignoring_case(
                path@,
                #[trigger] text::views(candidates@)[i],
            ),
{
    let ghost paths = text::views(candidates@);
    let mut i: usize = 0;
    while i < candidates.len()
        invariant
            i <= candidates.len(),
            paths == text::views(candidates@),
            forall|j: int|
                0 <= j < i ==> !text::same_ignoring_case(path@, #[trigger] paths[j]),
        decreases candidates.len() - i,
    {
        if text::eq_ignoring_case(path, candidates[i].as_str()) {
            assert(text::same_ignoring_case(path@, paths[i as int]));
            return true;
        }
        i += 1;
    }
    false
}

fn find_animation(assets: &[StageAsset], candidates: &[String]) -> (r: Option<usize>)
    ensures
        match r {
            Some(i) => i < assets@.len() && search::first_position(
                assets@,
                is_animation_at(text::views(candidates@)),
            ) == Some(i as int),
            None => search::first_position(assets@, is_animation_at(text::views(candidates@)))
                is None,
        },
{
    let ghost wanted = is_animation_at(text::views(candidates@));
    let mut i: usize = 0;
    while i < assets.len()
        invariant
            i <= assets.len(),
            wanted == is_animation_at(text::views(candidates@)),
            forall|j: int| 0 <= j < i ==> !wanted(#[trigger] assets@[j]),
        decreases assets.len() - i,
    {
        let path = text::replaced(assets[i].path.as_str(), '\\', '/');
        let found = matches_any(path.as_str(), candidates);
        if assets[i].kind == StageAssetKind::Animation && found {
            proof {
                search::lemma_found(assets@, wanted, i as int);
            }
            return Some(i);
        }
        i += 1;
    }
    proof {
        search::lemma_not_found(assets@, wanted);
    }
    None
}

/// Position of the waiting animation of an object: the pose that fits its accessories where there
/// is one, else the first asset at one of the usual paths.
pub fn starting_joint_animation(
    assets: &[StageAsset],
    object: &SceneObject,
    model_path: &str,
    body_pose: Option<usize>,
) -> (r: Option<usize>)
    ensures
        match body_pose {
            Some(_) => r == body_pose,
            None => match search::first_position(
                assets@,
                is_animation_at(
                    preview_assets::joint_animation_candidates(
                        object.factory_name@,
                        model_path@,
                    ),
                ),
            ) {
                Some(i) => r matches Some(k) && k == i,
                None => r is None,
            },
        },
{
    if body_pose.is_some() {
        return body_pose;
    }
    let candidates = preview_assets::starting_joint_animation_candidates(object, model_path);
    find_animation(assets, candidates.as_slice())
}

/// The name of a file without its folder and its extension.
pub open spec fn stem_of(path: Seq<char>) -> Seq<char> {
    let file = match text::split_last(preview_assets::slashed(path), '/') {
        Some((_, file)) => file,
        None => preview_assets::slashed(path),
    };
    match text::split_last(file, '.') {
        Some((stem, _)) => stem,
        None => file,
    }
}

/// The name of a file without its folder and its extension.
pub fn asset_stem(path: &str) -> (r: String)
    ensures
        r@ == stem_of(path@),
{
    let normalized = text::replaced(path, '\\', '/');
    let file = match text::rsplit_once(normalized.as_str(), '/') {
        Some((_, file)) => file,
        None => normalized,
    };
    match text::rsplit_once(file.as_str(), '.') {
        Some((stem, _)) => stem,
        None => file,
    }
}

/// What the application reads from the stage's animations and models.
#[derive(Debug)]
pub struct AssetFacts {
    /// The key under which the file's stem is matched.
    pub match_key: String,
    /// How many joints the animation in the file moves; nothing where it cannot be read.
    pub joint_count: Option<usize>,
}

/// The asset is an animation for a body of `joints` joints, beside the part at `directory` and
/// with the part's key.
pub open spec fn is_pose(
    assets: Seq<StageAsset>,
    facts: Seq<AssetFacts>,
    directory: Seq<char>,
    key: Seq<char>,
    joints: usize,
) -> spec_fn(int) -> bool {
    |i: int|
        assets[i].kind == StageAssetKind::Animation && (match text::split_last(
            preview_assets::slashed(assets[i].path@),
            '/',
        ) {
            Some((folder, _)) => text::same_ignoring_case(folder, directory),
            None => false,
        }) && facts[i].match_key@ == key && facts[i].joint_count == Some(joints)
}

/// The pose that the parts from `k` on bring along.
pub open spec fn body_pose_from(
    assets: Seq<StageAsset>,
    facts: Seq<AssetFacts>,
    parts: Seq<AccessoryView>,
    joints: usize,
    k: int,
) -> Option<int>
    decreases parts.len() - k,
{
    if k < 0 || k >= parts.len() {
        None
    } else if parts[k].joint_name is Some {
        body_pose_from(assets, facts, parts, joints, k + 1)
    } else {
        match search::first_position(
            assets,
            preview_assets::ends_asset(
                StageAssetKind::Model,
                text::lower(parts[k].asset_suffix),
            ),
        ) {
            None => body_pose_from(assets, facts, parts, joints, k + 1),
            Some(p) => match text::split_last(preview_assets::slashed(assets[p].path@), '/') {
                None => None,
                Some((directory, _)) => match search::first_index(
                    assets.len(),
                    is_pose(assets, facts, directory, facts[p].match_key@, joints),
                ) {
                    Some(i) => Some(i),
                    None => body_pose_from(assets, facts, parts, joints, k + 1),
                },
            },
        }
    }
}

fn find_pose(
    assets: &[StageAsset],
    facts: &[AssetFacts],
    directory: &str,
    key: &str,
    joints: usize,
) -> (r: Option<usize>)
    requires
        facts@.len() == assets@.len(),
    ensures
        match r {
            Some(i) => i < assets@.len() && search::first_index(
                assets@.len(),
                is_pose(assets@, facts@, directory@, key@, joints),
            ) == Some(i as int),
            None => search::first_index(
                assets@.len(),
                is_pose(assets@, facts@, directory@, key@, joints),
            ) is None,
        },
{
    let ghost p = is_pose(assets@, facts@, directory@, key@, joints);
    let mut i: usize = 0;
    while i < assets.len()
        invariant
            i <= assets.len(),
            facts@.len() == assets@.len(),
            p == is_pose(assets@, facts@, directory@, key@, joints),
            search::first_index(i as nat, p) is None,
        decreases assets.len() - i,
    {
        if assets[i].kind == StageAssetKind::Animation {
            let path = text::replaced(assets[i].path.as_str(), '\\', '/');
            if let Some((folder, _)) = text::rsplit_once(path.as_str(), '/') {
                let near = text::eq_ignoring_case(folder.as_str(), directory);
                if near && text::same(facts[i].match_key.as_str(), key) && facts[i].joint_count
                    == Some(joints) {
                    proof {
                        assert(p(i as int));
                        search::lemma_index_stays((i + 1) as nat, assets@.len(), p);
                    }
                    return Some(i);
                }
            }
        }
        i += 1;
    }
    None
}

/// Position of the pose for an NPC's body that one of the accessories worn at its root brings
/// along: an animation beside the accessory's model, under the same key, for as many joints as
/// the body has.
pub fn root_accessory_body_pose(
    assets: &[StageAsset],
    facts: &[AssetFacts],
    parts: &[NpcAccessorySpec],
    body_joint_count: Option<usize>,
) -> (r: Option<usize>)
    requires
        facts@.len() == assets@.len(),
    ensures
        match body_joint_count {
            Some(joints) => match body_pose_from(
                assets@,
                facts@,
                accessory_views(parts@),
                joints,
                0,
            ) {
                Some(i) => r matches Some(k) && k == i,
                None => r is None,
            },
            None => r is None,
        },
{
    let joints = match body_joint_count {
        Some(joints) => joints,
        None => {
            return None;
        },
    };
    let ghost views = accessory_views(parts@);
    let mut k: usize = 0;
    while k < parts.len()
        invariant
            k <= parts.len(),
            facts@.len() == assets@.len(),
            views == accessory_views(parts@),
            body_joint_count == Some(joints),
            body_pose_from(assets@, facts@, views, joints, 0) == body_pose_from(
                assets@,
                facts@,
                views,
                joints,
                k as int,
            ),
        decreases parts.len() - k,
    {
        let part = &parts[k];
        proof {
            assert(views[k as int] == part@);
        }
        if part.joint_name.is_none() {
            if let Some(p) = preview_assets::find_stage_asset_by_suffix(
                assets,
                StageAssetKind::Model,
                part.asset_suffix.as_str(),
            ) {
                let path = text::replaced(assets[p].path.as_str(), '\\', '/');
                match text::rsplit_once(path.as_str(), '/') {
                    None => {
                        return None;
                    },
                    Some((directory, _)) => {
                        if let Some(i) = find_pose(
                            assets,
                            facts,
                            directory.as_str(),
                            facts[p].match_key.as_str(),
                            joints,
                        ) {
                            return Some(i);
                        }
                    },
                }
            }
        }
        k += 1;
    }
    None
}

/// Position of the waiting animation of an accessory, where it moves as many joints as the
/// accessory's model has.
pub fn accessory_joint_animation(
    assets: &[StageAsset],
    facts: &[AssetFacts],
    model_path: &str,
    model_joint_count: Option<usize>,
) -> (r: Option<usize>)
    requires
        facts@.len() == assets@.len(),
    ensures
        r == (match (model_joint_count, preview_assets::accessory_animation_path(model_path@)) {
            (Some(joints), Some(path)) => match search::first_position(
                assets@,
                preview_assets::is_asset_at(StageAssetKind::Animation, path),
            ) {
                Some(i) => if facts@[i].joint_count == Some(joints) {
                    Some(i as usize)
                } else {
                    None
                },
                None => None,
            },
            _ => None,
        }),
{
    if let Some(joints) = model_joint_count {
        if let Some(path) = preview_assets::accessory_joint_animation_path(model_path) {
            if let Some(i) = preview_assets::find_stage_asset_at(
                assets,
                StageAssetKind::Animation,
                path.as_str(),
            ) {
                if facts[i].joint_count == Some(joints) {
                    return Some(i);
                }
            }
        }
    }
    None
}

/// A texture pattern of an animation, at the frame where the animation starts.
#[derive(Debug)]
pub struct PatternBinding {
    pub material_name: String,
    pub texture_slot: u8,
    pub texture_index: Option<usize>,
}

/// A texture pattern bound to a material of the preview.
#[derive(Debug, Clone, Copy, PartialEq, Eq, Structural)]
pub struct PreviewTexturePatternBinding {
    pub material_index: usize,
    pub texture_slot: usize,
    pub texture_base: usize,
    pub animation_binding_index: usize,
    pub current_texture_index: Option<usize>,
}

/// Position of an object's winking animation.
pub fn starting_texture_pattern(assets: &[StageAsset], object: &SceneObject, model_path: &str) -> (r:
    Option<usize>)
    ensures
        match search::first_position(
            assets@,
            is_animation_at(
                preview_assets::texture_pattern_candidates(object.factory_name@, model_path@),
            ),
        ) {
            Some(i) => r matches Some(k) && k == i,
            None => r is None,
        },
{
    let candidates = preview_assets::starting_texture_pattern_candidates(object, model_path);
    find_animation(assets, candidates.as_slice())
}

/// The frame at which an object's texture pattern starts: the same each time, but spread over the
/// objects.
pub fn texture_pattern_phase_frames(object: &SceneObject, max_frame: u16) -> (r: u64)
    ensures
        max_frame == 0 ==> r == 0,
        max_frame > 0 ==> r == preview_assets::byte_hash(vstd::utf8::encode_utf8(object.id@))
            % (max_frame as u64),
{
    if max_frame == 0 {
        0
    } else {
        preview_assets::stable_string_hash(object.id.as_str()) % (max_frame as u64)
    }
}

/// The material has this name, up to case.
pub open spec fn is_named_like(name: Seq<char>) -> spec_fn(J3dMaterial) -> bool {
    |material: J3dMaterial| text::same_ignoring_case(material.name@, name)
}

/// The material of the preview that a pattern drives.
pub open spec fn driven_material(
    binding: PatternBinding,
    model_materials: Seq<J3dMaterial>,
    material_base: int,
    count: int,
) -> Option<int> {
    match search::first_position(model_materials, is_named_like(binding.material_name@)) {
        Some(i) => if binding.texture_slot < 8 && material_base + i < count {
            Some(material_base + i)
        } else {
            None
        },
        None => None,
    }
}

/// The texture that a pattern shows first.
pub open spec fn shown_texture(binding: PatternBinding, texture_base: int) -> Option<usize> {
    match binding.texture_index {
        Some(index) => Some((texture_base + index) as usize),
        None => None,
    }
}

/// The materials after the first `n` patterns.
pub open spec fn with_patterns(
    materials: Seq<MaterialView>,
    patterns: Seq<PatternBinding>,
    model_materials: Seq<J3dMaterial>,
    material_base: int,
    texture_base: int,
    n: nat,
) -> Seq<MaterialView>
    decreases n,
{
    if n == 0 {
        materials
    } else {
        let rest = with_patterns(
            materials,
            patterns,
            model_materials,
            material_base,
            texture_base,
            (n - 1) as nat,
        );
        let pattern = patterns[n - 1];
        match driven_material(pattern, model_materials, material_base, materials.len() as int) {
            Some(m) => rest.update(
                m,
                MaterialView {
                    texture_indices: rest[m].texture_indices.update(
                        pattern.texture_slot as int,
                        shown_texture(pattern, texture_base),
                    ),
                    ..rest[m]
                },
            ),
            None => rest,
        }
    }
}

/// What the first `n` patterns are bound to.
pub open spec fn pattern_bindings(
    patterns: Seq<PatternBinding>,
    model_materials: Seq<J3dMaterial>,
    material_base: int,
    texture_base: int,
    count: int,
    n: nat,
) -> Seq<PreviewTexturePatternBinding>
    decreases n,
{
    if n == 0 {
        Seq::empty()
    } else {
        let rest = pattern_bindings(
            patterns,
            model_materials,
            material_base,
            texture_base,
            count,
            (n - 1) as nat,
        );
        let pattern = patterns[n - 1];
        match driven_material(pattern, model_materials, material_base, count) {
            Some(m) => rest.push(
                PreviewTexturePatternBinding {
                    material_index: m as usize,
                    texture_slot: pattern.texture_slot as usize,
                    texture_base: texture_base as usize,
                    animation_binding_index: (n - 1) as usize,
                    current_texture_index: shown_texture(pattern, texture_base),
                },
            ),
            None => rest,
        }
    }
}

fn find_named_like(materials: &[J3dMaterial], name: &str) -> (r: Option<usize>)
    ensures
        match r {
            Some(i) => i < materials@.len() && search::first_position(
                materials@,
                is_named_like(name@),
            ) == Some(i as int),
            None => search::first_position(materials@, is_named_like(name@)) is None,
        },
{
    let mut i: usize = 0;
    while i < materials.len()
        invariant
            i <= materials.len(),
            forall|j: int| 0 <= j < i ==> !is_named_like(name@)(#[trigger] materials@[j]),
        decreases materials.len() - i,
    {
        if text::eq_ignoring_case(materials[i].name.as_str(), name) {
            proof {
                search::lemma_found(materials@, is_named_like(name@), i as int);
            }
            return Some(i);
        }
        i += 1;
    }
    proof {
        search::lemma_not_found(materials@, is_named_like(name@));
    }
    None
}

/// Binds the texture patterns of an object's winking animation to its materials and shows the
/// first pattern. The animation is in use where anything is bound.
pub fn attach_npc_texture_pattern_animation(
    patterns: &[PatternBinding],
    model_materials: &[J3dMaterial],
    material_base: usize,
    texture_base: usize,
    materials: &mut Vec<J3dMaterial>,
) -> (r: Vec<PreviewTexturePatternBinding>)
    requires
        material_base + model_materials@.len() <= usize::MAX,
        forall|i: int|
            0 <= i < patterns@.len() ==> (#[trigger] patterns@[i].texture_index matches Some(
                index,
            ) ==> texture_base + index <= usize::MAX),
    ensures
        r@ == pattern_bindings(
            patterns@,
            model_materials@,
            material_base as int,
            texture_base as int,
            old(materials)@.len() as int,
            patterns@.len(),
        ),
        preview::material_views(final(materials)@) == with_patterns(
            preview::material_views(old(materials)@),
            patterns@,
            model_materials@,
            material_base as int,
            texture_base as int,
            patterns@.len(),
        ),
{
    let ghost start = preview::material_views(materials@);
    let mut r: Vec<PreviewTexturePatternBinding> = Vec::new();
    let mut i: usize = 0;
    while i < patterns.len()
        invariant
            i <= patterns.len(),
            start.len() == materials@.len(),
            start.len() == old(materials)@.len(),
            material_base + model_materials@.len() <= usize::MAX,
            forall|j: int|
                0 <= j < patterns@.len() ==> (#[trigger] patterns@[j].texture_index matches Some(
                    index,
                ) ==> texture_base + index <= usize::MAX),
            r@ == pattern_bindings(
                patterns@,
                model_materials@,
                material_base as int,
                texture_base as int,
                start.len() as int,
                i as nat,
            ),
            preview::material_views(materials@) == with_patterns(
                start,
                patterns@,
                model_materials@,
                material_base as int,
                texture_base as int,
                i as nat,
            ),
        decreases patterns.len() - i,
    {
        let pattern = &patterns[i];
        if let Some(local) = find_named_like(model_materials, pattern.material_name.as_str()) {
            let slot = pattern.texture_slot as usize;
            let m = material_base + local;
            if slot < 8 && m < materials.len() {
                let shown = match pattern.texture_index {
                    Some(index) => {
                        proof {
                            assert(patterns@[i as int].texture_index == Some(index));
                        }
                        Some(texture_base + index)
                    },
                    None => None,
                };
                let ghost before = materials@;
                let mut material = materials[m].duplicate();
                material.texture_indices[slot] = shown;
                materials.set(m, material);
                r.push(
                    PreviewTexturePatternBinding {
                        material_index: m,
                        texture_slot: slot,
                        texture_base,
                        animation_binding_index: i,
                        current_texture_index: shown,
                    },
                );
                proof {
                    assert(preview::material_views(materials@) =~= preview::material_views(
                        before,
                    ).update(m as int, material@));
                    assert(material@ =~= MaterialView {
                        texture_indices: before[m as int]@.texture_indices.update(
                            slot as int,
                            shown,
                        ),
                        ..before[m as int]@
                    });
                }
            }
        }
        i += 1;
    }
    r
}

/// The textures after a runtime texture took the place of every dummy of a name.
pub open spec fn with_dummy_replaced(
    textures: Seq<DecodedView>,
    dummy: Seq<char>,
    texture: Option<DecodedView>,
) -> Seq<DecodedView> {
    match texture {
        Some(texture) => Seq::new(
            textures.len(),
            |i: int|
                if text::same_ignoring_case(textures[i].name, dummy) {
                    DecodedView { name: dummy, ..texture }
                } else {
                    textures[i]
                },
        ),
        None => textures,
    }
}

/// The abstract value of a texture that may be missing.
pub open spec fn optional_view(texture: Option<J3dTexturePreview>) -> Option<DecodedView> {
    match texture {
        Some(texture) => Some(texture@),
        None => None,
    }
}

/// The textures after the first `n` replacements.
pub open spec fn with_replacements(
    textures: Seq<DecodedView>,
    replacements: Seq<(Seq<char>, Seq<char>)>,
    decoded: Seq<Option<J3dTexturePreview>>,
    n: nat,
) -> Seq<DecodedView>
    decreases n,
{
    if n == 0 {
        textures
    } else {
        with_dummy_replaced(
            with_replacements(textures, replacements, decoded, (n - 1) as nat),
            replacements[n - 1].0,
            optional_view(decoded[n - 1]),
        )
    }
}

fn replace_dummy(textures: &mut Vec<J3dTexturePreview>, dummy: &str, texture: &J3dTexturePreview)
    ensures
        preview::decoded_views(final(textures)@) == with_dummy_replaced(
            preview::decoded_views(old(textures)@),
            dummy@,
            Some(texture@),
        ),
{
    let ghost wanted = with_dummy_replaced(
        preview::decoded_views(textures@),
        dummy@,
        Some(texture@),
    );
    let mut i: usize = 0;
    while i < textures.len()
        invariant
            i <= textures.len(),
            textures@.len() == old(textures)@.len(),
            wanted == with_dummy_replaced(
                preview::decoded_views(old(textures)@),
                dummy@,
                Some(texture@),
            ),
            forall|j: int| 0 <= j < i ==> (#[trigger] textures@[j])@ == wanted[j],
            forall|j: int|
                i <= j < textures@.len() ==> #[trigger] textures@[j] == old(textures)@[j],
        decreases textures.len() - i,
    {
        if text::eq_ignoring_case(textures[i].name.as_str(), dummy) {
            textures.set(i, texture.renamed(dummy));
        }
        i += 1;
    }
    proof {
        assert(preview::decoded_views(textures@) =~= wanted);
    }
}

/// Puts the runtime textures of an actor in place of its dummies. `decoded` holds the texture of
/// each replacement, as far as the stage has it and it can be read.
pub fn apply_actor_runtime_textures(
    object: &SceneObject,
    decoded: &[Option<J3dTexturePreview>],
    preview: &mut J3dGeometryPreview,
)
    requires
        decoded@.len() == preview_assets::texture_replacements(object.factory_name@).len(),
    ensures
        final(preview).materials == old(preview).materials,
        final(preview).triangles == old(preview).triangles,
        preview::decoded_views(final(preview).textures@) == with_replacements(
            preview::decoded_views(old(preview).textures@),
            preview_assets::texture_replacements(object.factory_name@),
            decoded@,
            decoded@.len(),
        ),
{
    let replacements = preview_assets::actor_runtime_texture_replacements(
        object.factory_name.as_str(),
    );
    let ghost wanted = preview_assets::texture_replacements(object.factory_name@);
    let mut i: usize = 0;
    while i < replacements.len()
        invariant
            i <= replacements.len(),
            decoded@.len() == replacements@.len(),
            wanted == preview_assets::pair_views(replacements@),
            wanted == preview_assets::texture_replacements(object.factory_name@),
            preview.materials == old(preview).materials,
            preview.triangles == old(preview).triangles,
            preview::decoded_views(preview.textures@) == with_replacements(
                preview::decoded_views(old(preview).textures@),
                wanted,
                decoded@,
                i as nat,
            ),
        decreases replacements.len() - i,
    {
        if let Some(texture) = &decoded[i] {
            replace_dummy(&mut preview.textures, replacements[i].0, texture);
        }
        i += 1;
    }
}

} // verus!
