//! Which animations drive a model, and which previews are kept.
use vstd::prelude::*;

use crate::model_instances::{AuthoredModelPreviewKey, EditorModelInstance};
use crate::jdrama::VectorBits;
use crate::preview::{DecodedView, J3dMaterial, MaterialView};
use crate::preview_animations;
use crate::preview_animations::{AccessoryView, AssetFacts, PatternBinding};
use crate::preview_assets;
use crate::preview_cache;
use crate::search;
use crate::stage::{StageAsset, StageAssetKind};
use crate::text;

verus! {

/// A pattern shows its picture in its own slot of the first material of its name, in any case,
/// behind the textures and materials loaded before; it is bound under its own number.
pub proof fn law_patterns_change_the_slot_they_name(
    materials: Seq<MaterialView>,
    patterns: Seq<PatternBinding>,
    model_materials: Seq<J3dMaterial>,
    material_base: int,
    texture_base: int,
    n: nat,
    m: int,
)
    requires
        n < patterns.len() <= usize::MAX,
        0 <= m < model_materials.len(),
        0 <= material_base,
        0 <= texture_base <= usize::MAX,
        material_base + m < materials.len() <= usize::MAX,
        patterns[n as int].texture_slot < 8,
        forall|j: int|
            0 <= j < materials.len() ==> (#[trigger] materials[j]).texture_indices.len() == 8,
        patterns[n as int].texture_index matches Some(k) ==> texture_base + k <= usize::MAX,
        text::lower(model_materials[m].name@) == text::lower(patterns[n as int].material_name@),
        forall|j: int|
            0 <= j < m ==> text::lower((#[trigger] model_materials[j]).name@) != text::lower(
                patterns[n as int].material_name@,
            ),
    ensures
        ({
            let pattern = patterns[n as int];
            let at = material_base + m;
            let before = preview_animations::with_patterns(
                materials,
                patterns,
                model_materials,
                material_base,
                texture_base,
                n,
            );
            let after = preview_animations::with_patterns(
                materials,
                patterns,
                model_materials,
                material_base,
                texture_base,
                n + 1,
            );
            let bound = preview_animations::pattern_bindings(
                patterns,
                model_materials,
                material_base,
                texture_base,
                materials.len() as int,
                n + 1,
            );
            &&& after.len() == before.len() == materials.len()
            &&& match pattern.texture_index {
                Some(k) => after[at].texture_indices[pattern.texture_slot as int] matches Some(
                    shown,
                ) && shown == texture_base + k,
                None => after[at].texture_indices[pattern.texture_slot as int] is None,
            }
            &&& forall|s: int|
                0 <= s < 8 && s != pattern.texture_slot ==> (#[trigger] after[at].texture_indices[s])
                    == before[at].texture_indices[s]
            &&& after[at].name == before[at].name
            &&& after[at].tev_colors == before[at].tev_colors
            &&& forall|j: int|
                0 <= j < materials.len() && j != at ==> (#[trigger] after[j]) == before[j]
            &&& bound.len() > 0
            &&& bound.last().material_index == at
            &&& bound.last().texture_slot == pattern.texture_slot
            &&& bound.last().texture_base == texture_base
            &&& bound.last().animation_binding_index == n
            &&& match pattern.texture_index {
                Some(k) => bound.last().current_texture_index matches Some(shown) && shown
                    == texture_base + k,
                None => bound.last().current_texture_index is None,
            }
        }),
{
    lemma_patterns_len(materials, patterns, model_materials, material_base, texture_base, n);
    let like = preview_animations::is_named_like(patterns[n as int].material_name@);
    assert(like(model_materials[m]));
    assert forall|j: int| 0 <= j < m implies !like(#[trigger] model_materials[j]) by {}
    search::lemma_found(model_materials, like, m);
}

proof fn lemma_patterns_len(
    materials: Seq<MaterialView>,
    patterns: Seq<PatternBinding>,
    model_materials: Seq<J3dMaterial>,
    material_base: int,
    texture_base: int,
    n: nat,
)
    requires
        0 <= material_base,
        forall|j: int|
            0 <= j < materials.len() ==> (#[trigger] materials[j]).texture_indices.len() == 8,
    ensures
        ({
            let after = preview_animations::with_patterns(
                materials,
                patterns,
                model_materials,
                material_base,
                texture_base,
                n,
            );
            &&& after.len() == materials.len()
            &&& forall|j: int|
                0 <= j < after.len() ==> (#[trigger] after[j]).texture_indices.len() == 8
        }),
    decreases n,
{
    if n > 0 {
        lemma_patterns_len(
            materials,
            patterns,
            model_materials,
            material_base,
            texture_base,
            (n - 1) as nat,
        );
        search::lemma_first_position(
            model_materials,
            preview_animations::is_named_like(patterns[n - 1].material_name@),
        );
    }
}

/// A pattern whose material the model lacks, or whose slot no material has, changes nothing.
pub proof fn law_patterns_without_a_slot_change_nothing(
    materials: Seq<MaterialView>,
    patterns: Seq<PatternBinding>,
    model_materials: Seq<J3dMaterial>,
    material_base: int,
    texture_base: int,
    n: nat,
)
    requires
        n < patterns.len(),
        patterns[n as int].texture_slot >= 8 || forall|j: int|
            0 <= j < model_materials.len() ==> text::lower((#[trigger] model_materials[j]).name@)
                != text::lower(patterns[n as int].material_name@),
    ensures
        preview_animations::with_patterns(
            materials,
            patterns,
            model_materials,
            material_base,
            texture_base,
            n + 1,
        ) == preview_animations::with_patterns(
            materials,
            patterns,
            model_materials,
            material_base,
            texture_base,
            n,
        ),
        preview_animations::pattern_bindings(
            patterns,
            model_materials,
            material_base,
            texture_base,
            materials.len() as int,
            n + 1,
        ) == preview_animations::pattern_bindings(
            patterns,
            model_materials,
            material_base,
            texture_base,
            materials.len() as int,
            n,
        ),
{
    let like = preview_animations::is_named_like(patterns[n as int].material_name@);
    search::lemma_first_position(model_materials, like);
    let found = search::first_position(model_materials, like);
    if found is Some {
        assert(like(model_materials[found->0]));
    }
}

/// Every texture that goes by a dummy's name, in any case, is replaced whole, and keeps the
/// dummy's name; where no replacement is at hand nothing is.
pub proof fn law_dummies_are_replaced(
    textures: Seq<DecodedView>,
    dummy: Seq<char>,
    texture: DecodedView,
    i: int,
)
    requires
        0 <= i < textures.len(),
    ensures
        preview_animations::with_dummy_replaced(textures, dummy, None) == textures,
        ({
            let after = preview_animations::with_dummy_replaced(textures, dummy, Some(texture));
            &&& after.len() == textures.len()
            &&& text::lower(textures[i].name) != text::lower(dummy) ==> after[i] == textures[i]
            &&& text::lower(textures[i].name) == text::lower(dummy) ==> after[i].name == dummy
                && after[i].width == texture.width && after[i].height == texture.height
                && after[i].rgba == texture.rgba && after[i].mips == texture.mips
                && after[i].sampler == texture.sampler
        }),
{
}

/// The pose of a body is an animation in the folder of one of its root parts' models, called after
/// that model and for as many joints as the body has.
pub proof fn law_bodies_pose_with_their_root_part(
    assets: Seq<StageAsset>,
    facts: Seq<AssetFacts>,
    parts: Seq<AccessoryView>,
    joints: usize,
    k: int,
)
    requires
        0 <= k,
    ensures
        preview_animations::body_pose_from(assets, facts, parts, joints, k) matches Some(i) ==> {
            &&& 0 <= i < assets.len()
            &&& assets[i].kind == StageAssetKind::Animation
            &&& facts[i].joint_count == Some(joints)
            &&& exists|part: int, p: int|
                #![trigger parts[part], assets[p]]
                k <= part < parts.len() && parts[part].joint_name is None && 0 <= p < assets.len()
                    && assets[p].kind == StageAssetKind::Model && facts[p].match_key@
                    == facts[i].match_key@
        },
    decreases parts.len() - k,
{
    if k < parts.len() {
        law_bodies_pose_with_their_root_part(assets, facts, parts, joints, k + 1);
        if parts[k].joint_name is None {
            let at = preview_assets::ends_asset(
                StageAssetKind::Model,
                text::lower(parts[k].asset_suffix),
            );
            search::lemma_first_position(assets, at);
            let found = search::first_position(assets, at);
            if found is Some {
                let p = found->0;
                assert(at(assets[p]));
                match text::split_last(preview_assets::slashed(assets[p].path@), '/') {
                    Some((directory, _)) => {
                        let pose = preview_animations::is_pose(
                            assets,
                            facts,
                            directory,
                            facts[p].match_key@,
                            joints,
                        );
                        search::lemma_first_index(assets.len(), pose);
                        if search::first_index(assets.len(), pose) is Some {
                            let i = search::first_index(assets.len(), pose)->0;
                            assert(pose(i));
                            let part = parts[k];
                        }
                    },
                    None => {},
                }
            }
        }
    }
}

/// The assets to load are those of the wanted previews, each once.
pub proof fn law_assets_are_loaded_once(keys: Seq<AuthoredModelPreviewKey>, n: nat, id: u128)
    requires
        n <= keys.len(),
    ensures
        preview_cache::assets_in(keys, n).contains(id) <==> exists|i: int|
            0 <= i < n && (#[trigger] keys[i]).asset_id == id,
        forall|i: int, j: int|
            0 <= i < j < preview_cache::assets_in(keys, n).len() ==> (
            #[trigger] preview_cache::assets_in(keys, n)[i]) != (
            #[trigger] preview_cache::assets_in(keys, n)[j]),
    decreases n,
{
    if n > 0 {
        law_assets_are_loaded_once(keys, (n - 1) as nat, id);
        law_assets_are_loaded_once(keys, (n - 1) as nat, keys[n - 1].asset_id);
        let rest = preview_cache::assets_in(keys, (n - 1) as nat);
        let all = preview_cache::assets_in(keys, n);
        let added = keys[n - 1].asset_id;
        if !rest.contains(added) {
            assert(all[rest.len() as int] == added);
        }
        if rest.contains(id) {
            let i = choose|i: int| 0 <= i < rest.len() && rest[i] == id;
            assert(all[i] == id);
        }
        if all.contains(id) && !rest.contains(id) {
            let i = choose|i: int| 0 <= i < all.len() && all[i] == id;
            if i < rest.len() {
                assert(rest[i] == id);
            }
            assert(keys[n - 1].asset_id == id);
        }
        assert forall|i: int, j: int| 0 <= i < j < all.len() implies (#[trigger] all[i]) != (
        #[trigger] all[j]) by {
            if j == rest.len() {
                assert(rest[i] == all[i]);
                assert(rest.contains(rest[i]));
            } else {
                assert(rest[i] != rest[j]);
            }
        }
    }
}

/// The previews to build of an asset are those that are wanted and not there.
pub proof fn law_missing_previews_are_built(
    keys: Seq<AuthoredModelPreviewKey>,
    cache: Seq<AuthoredModelPreviewKey>,
    id: u128,
    n: nat,
    key: AuthoredModelPreviewKey,
)
    requires
        n <= keys.len(),
    ensures
        preview_cache::missing_keys(keys, cache, id, n).contains(key) <==> key.asset_id == id
            && !cache.contains(key) && exists|i: int| 0 <= i < n && (#[trigger] keys[i]) == key,
    decreases n,
{
    if n > 0 {
        law_missing_previews_are_built(keys, cache, id, (n - 1) as nat, key);
        let rest = preview_cache::missing_keys(keys, cache, id, (n - 1) as nat);
        let all = preview_cache::missing_keys(keys, cache, id, n);
        if rest.contains(key) {
            let i = choose|i: int| 0 <= i < rest.len() && rest[i] == key;
            assert(all[i] == key);
        }
        if keys[n - 1] == key && key.asset_id == id && !cache.contains(key) {
            assert(all[rest.len() as int] == key);
        }
        if all.contains(key) && !rest.contains(key) {
            let i = choose|i: int| 0 <= i < all.len() && all[i] == key;
            if i < rest.len() {
                assert(rest[i] == key);
            }
            assert(keys[n - 1] == key);
        }
    }
}

/// The bounds of an asset's instances are those of its model, and those of other assets stay; its
/// placement does not change.
pub proof fn law_bounds_follow_the_model(
    instance: EditorModelInstance,
    id: u128,
    low: VectorBits,
    high: VectorBits,
)
    ensures
        ({
            let after = preview_cache::with_bounds(instance, id, low, high);
            &&& after.placement == instance.placement
            &&& after.stage_id == instance.stage_id
            &&& instance.placement.asset_id != id ==> after == instance
            &&& instance.placement.asset_id == id ==> is_same(after.bounds_min, low) && is_same(
                after.bounds_max,
                high,
            )
        }),
{
}

/// Two vectors that are the same, or equal as numbers.
pub open spec fn is_same(a: VectorBits, b: VectorBits) -> bool {
    a == b || crate::model_instances::vectors_equal(a, b)
}

} // verus!
