//! Puts the parts of a preview model together: materials, tables, textures and animations.
use vstd::prelude::*;

use crate::preview;
use crate::preview::{
    J3dGeometryPreview, J3dMaterial, J3dTexturePreview, MaterialView,
    PreviewMaterialAnimationBinding, PreviewTriangle,
};
use crate::preview_assets;
use crate::preview_textures;
use crate::search;
use crate::stage::{SceneObject, StageAsset, StageAssetKind};
use crate::text;

verus! {

/// Texture positions moved by `base`.
pub open spec fn shifted_indices(indices: Seq<Option<usize>>, base: usize) -> Seq<Option<usize>> {
    Seq::new(
        indices.len(),
        |i: int|
            match indices[i] {
                Some(k) => Some((k + base) as usize),
                None => None,
            },
    )
}

/// A material in its place in the stage preview: its own position, and textures from `base` on.
pub open spec fn placed(material: MaterialView, index: usize, base: usize) -> MaterialView {
    MaterialView {
        material_index: index,
        texture_indices: shifted_indices(material.texture_indices, base),
        ..material
    }
}

/// Every texture position can be moved by `base`.
pub open spec fn can_shift(materials: Seq<J3dMaterial>, base: usize) -> bool {
    forall|i: int, j: int|
        0 <= i < materials.len() && 0 <= j < 8 ==> (#[trigger] materials[i].texture_indices@[j]
            matches Some(k) ==> k + base <= usize::MAX)
}

fn shift_textures(material: &mut J3dMaterial, base: usize)
    requires
        forall|j: int|
            0 <= j < 8 ==> (#[trigger] old(material).texture_indices@[j] matches Some(k) ==> k
                + base <= usize::MAX),
    ensures
        final(material)@ == (MaterialView {
            texture_indices: shifted_indices(old(material)@.texture_indices, base),
            ..old(material)@
        }),
{
    let ghost start = material.texture_indices@;
    let mut i: usize = 0;
    while i < 8
        invariant
            i <= 8,
            start == old(material).texture_indices@,
            forall|j: int|
                0 <= j < 8 ==> (#[trigger] start[j] matches Some(k) ==> k + base <= usize::MAX),
            material.texture_indices@.len() == 8,
            forall|j: int|
                0 <= j < i ==> #[trigger] material.texture_indices@[j] == shifted_indices(
                    start,
                    base,
                )[j],
            forall|j: int| i <= j < 8 ==> #[trigger] material.texture_indices@[j] == start[j],
            material@ == (MaterialView {
                texture_indices: material.texture_indices@,
                ..old(material)@
            }),
        decreases 8 - i,
    {
        if let Some(k) = material.texture_indices[i] {
            material.texture_indices[i] = Some(k + base);
        }
        i += 1;
    }
    proof {
        assert(material.texture_indices@ =~= shifted_indices(start, base));
    }
}

/// Appends the materials of a model, whose textures begin at `texture_base`, and returns where
/// they begin.
pub fn push_preview_materials(
    materials: &mut Vec<J3dMaterial>,
    source: &[J3dMaterial],
    texture_base: usize,
) -> (r: usize)
    requires
        can_shift(source@, texture_base),
    ensures
        r == old(materials)@.len(),
        final(materials)@.len() == old(materials)@.len() + source@.len(),
        preview::material_views(final(materials)@) == preview::material_views(old(materials)@)
            + Seq::new(
            source@.len(),
            |i: int| placed(source@[i]@, (old(materials)@.len() + i) as usize, texture_base),
        ),
{
    let start: usize = materials.len();
    let ghost before = preview::material_views(materials@);
    let ghost made = Seq::new(
        source@.len(),
        |i: int| placed(source@[i]@, (start + i) as usize, texture_base),
    );
    let mut i: usize = 0;
    while i < source.len()
        invariant
            i <= source.len(),
            can_shift(source@, texture_base),
            materials@.len() == start + i,
            before.len() == start,
            made == Seq::new(
                source@.len(),
                |i: int| placed(source@[i]@, (start + i) as usize, texture_base),
            ),
            preview::material_views(materials@) =~= before + made.take(i as int),
        decreases source.len() - i,
    {
        let mut material = source[i].duplicate();
        material.material_index = materials.len();
        proof {
            assert forall|j: int| 0 <= j < 8 implies (#[trigger] material.texture_indices@[j]
                matches Some(k) ==> k + texture_base <= usize::MAX) by {
                assert(source@[i as int].texture_indices@[j] == source@[i as int]@.texture_indices[
                j]);
            }
        }
        shift_textures(&mut material, texture_base);
        let ghost views = preview::material_views(materials@);
        materials.push(material);
        proof {
            assert(material@ == made[i as int]);
            assert(preview::material_views(materials@) =~= views.push(made[i as int]));
            assert(made.take(i + 1) =~= made.take(i as int).push(made[i as int]));
        }
        i += 1;
    }
    proof {
        assert(made.take(i as int) =~= made);
    }
    start
}

/// A texture animation of the stage, with the materials that it drives.
#[derive(Debug)]
pub struct SrtAnimation {
    /// Position of its file among the stage assets.
    pub asset: usize,
    pub material_names: Vec<String>,
}

/// The animation comes from this asset.
pub open spec fn comes_from(asset: usize) -> spec_fn(SrtAnimation) -> bool {
    |animation: SrtAnimation| animation.asset == asset
}

/// The material has exactly this name.
pub open spec fn is_named(name: Seq<char>) -> spec_fn(J3dMaterial) -> bool {
    |material: J3dMaterial| material.name@ == name
}

/// The lists of a list.
pub open spec fn binding_views(list: Seq<Vec<PreviewMaterialAnimationBinding>>) -> Seq<
    Seq<PreviewMaterialAnimationBinding>,
> {
    Seq::new(list.len(), |i: int| list[i]@)
}

/// Position in the stage preview of the material that a binding drives.
pub open spec fn bound_material(
    materials: Seq<J3dMaterial>,
    name: Seq<char>,
    material_base: int,
    count: int,
) -> Option<int> {
    match search::first_position(materials, is_named(name)) {
        Some(i) => if material_base + i < count {
            Some(material_base + i)
        } else {
            None
        },
        None => None,
    }
}

/// The bindings after the first `n` names of an animation.
pub open spec fn with_bindings(
    bindings: Seq<Seq<PreviewMaterialAnimationBinding>>,
    materials: Seq<J3dMaterial>,
    names: Seq<Seq<char>>,
    material_base: int,
    animation_index: usize,
    n: nat,
) -> Seq<Seq<PreviewMaterialAnimationBinding>>
    decreases n,
{
    if n == 0 {
        bindings
    } else {
        let rest = with_bindings(
            bindings,
            materials,
            names,
            material_base,
            animation_index,
            (n - 1) as nat,
        );
        match bound_material(materials, names[n - 1], material_base, bindings.len() as int) {
            Some(m) => rest.update(
                m,
                rest[m].push(
                    PreviewMaterialAnimationBinding {
                        animation_index,
                        binding_index: (n - 1) as usize,
                    },
                ),
            ),
            None => rest,
        }
    }
}

/// Some of the first `n` names of an animation drives a material of the model.
pub open spec fn drives_any(
    materials: Seq<J3dMaterial>,
    names: Seq<Seq<char>>,
    material_base: int,
    count: int,
    n: nat,
) -> bool {
    exists|i: int|
        0 <= i < n && (#[trigger] bound_material(materials, names[i], material_base, count)) is Some
}

/// The animations in use and what they drive.
#[verifier::ext_equal]
pub struct SrtState {
    pub animations: Seq<usize>,
    pub bindings: Seq<Seq<PreviewMaterialAnimationBinding>>,
}

/// The state after one animation file.
pub open spec fn with_animation(
    state: SrtState,
    assets: Seq<StageAsset>,
    parsed: Seq<SrtAnimation>,
    path: Seq<char>,
    materials: Seq<J3dMaterial>,
    material_base: int,
) -> SrtState {
    match search::first_position(
        assets,
        preview_assets::is_asset_at(StageAssetKind::Animation, path),
    ) {
        None => state,
        Some(asset) => match search::first_position(parsed, comes_from(asset as usize)) {
            None => state,
            Some(k) => {
                let names = text::views(parsed[k].material_names@);
                let count = state.bindings.len() as int;
                SrtState {
                    animations: if drives_any(
                        materials,
                        names,
                        material_base,
                        count,
                        names.len(),
                    ) {
                        state.animations.push(asset as usize)
                    } else {
                        state.animations
                    },
                    bindings: with_bindings(
                        state.bindings,
                        materials,
                        names,
                        material_base,
                        state.animations.len() as usize,
                        names.len(),
                    ),
                }
            },
        },
    }
}

/// The state after the first `n` animation files.
pub open spec fn with_animations(
    state: SrtState,
    assets: Seq<StageAsset>,
    parsed: Seq<SrtAnimation>,
    paths: Seq<Seq<char>>,
    materials: Seq<J3dMaterial>,
    material_base: int,
    n: nat,
) -> SrtState
    decreases n,
{
    if n == 0 {
        state
    } else {
        with_animation(
            with_animations(
                state,
                assets,
                parsed,
                paths,
                materials,
                material_base,
                (n - 1) as nat,
            ),
            assets,
            parsed,
            paths[n - 1],
            materials,
            material_base,
        )
    }
}

fn find_named(materials: &[J3dMaterial], name: &str) -> (r: Option<usize>)
    ensures
        match r {
            Some(i) => i < materials@.len() && search::first_position(materials@, is_named(name@))
                == Some(i as int),
            None => search::first_position(materials@, is_named(name@)) is None,
        },
{
    let mut i: usize = 0;
    while i < materials.len()
        invariant
            i <= materials.len(),
            forall|j: int| 0 <= j < i ==> !is_named(name@)(#[trigger] materials@[j]),
        decreases materials.len() - i,
    {
        if text::same(materials[i].name.as_str(), name) {
            proof {
                search::lemma_found(materials@, is_named(name@), i as int);
            }
            return Some(i);
        }
        i += 1;
    }
    proof {
        search::lemma_not_found(materials@, is_named(name@));
    }
    None
}

fn find_parsed(parsed: &[SrtAnimation], asset: usize) -> (r: Option<usize>)
    ensures
        match r {
            Some(i) => i < parsed@.len() && search::first_position(parsed@, comes_from(asset))
                == Some(i as int),
            None => search::first_position(parsed@, comes_from(asset)) is None,
        },
{
    let mut i: usize = 0;
    while i < parsed.len()
        invariant
            i <= parsed.len(),
            forall|j: int| 0 <= j < i ==> !comes_from(asset)(#[trigger] parsed@[j]),
        decreases parsed.len() - i,
    {
        if parsed[i].asset == asset {
            proof {
                search::lemma_found(parsed@, comes_from(asset), i as int);
            }
            return Some(i);
        }
        i += 1;
    }
    proof {
        search::lemma_not_found(parsed@, comes_from(asset));
    }
    None
}

fn bind_names(
    names: &[String],
    materials: &[J3dMaterial],
    material_base: usize,
    animation_index: usize,
    bindings: &mut Vec<Vec<PreviewMaterialAnimationBinding>>,
) -> (r: bool)
    requires
        material_base + materials@.len() <= usize::MAX,
    ensures
        r == drives_any(
            materials@,
            text::views(names@),
            material_base as int,
            old(bindings)@.len() as int,
            names@.len(),
        ),
        binding_views(final(bindings)@) == with_bindings(
            binding_views(old(bindings)@),
            materials@,
            text::views(names@),
            material_base as int,
            animation_index,
            names@.len(),
        ),
{
    let ghost views = text::views(names@);
    let ghost start = binding_views(bindings@);
    let mut matched: bool = false;
    let mut i: usize = 0;
    while i < names.len()
        invariant
            i <= names.len(),
            material_base + materials@.len() <= usize::MAX,
            views == text::views(names@),
            start == binding_views(old(bindings)@),
            bindings@.len() == old(bindings)@.len(),
            start.len() == bindings@.len(),
            matched == drives_any(
                materials@,
                views,
                material_base as int,
                start.len() as int,
                i as nat,
            ),
            binding_views(bindings@) == with_bindings(
                start,
                materials@,
                views,
                material_base as int,
                animation_index,
                i as nat,
            ),
        decreases names.len() - i,
    {
        let ghost target = bound_material(
            materials@,
            views[i as int],
            material_base as int,
            start.len() as int,
        );
        if let Some(m) = find_named(materials, names[i].as_str()) {
            let global: usize = material_base + m;
            if global < bindings.len() {
                let ghost before = bindings@;
                bindings[global].push(
                    PreviewMaterialAnimationBinding { animation_index, binding_index: i },
                );
                proof {
                    assert(target == Some(global as int));
                    assert(binding_views(bindings@) =~= binding_views(before).update(
                        global as int,
                        before[global as int]@.push(
                            PreviewMaterialAnimationBinding { animation_index, binding_index: i },
                        ),
                    ));
                }
                matched = true;
            }
        }
        i += 1;
    }
    matched
}

/// Binds the texture animations that a model plays to its materials. `parsed` holds the
/// animations that could be read.
pub fn attach_model_texture_srt_animation(
    assets: &[StageAsset],
    parsed: &[SrtAnimation],
    model_path: &str,
    material_base: usize,
    model_materials: &[J3dMaterial],
    animations: &mut Vec<usize>,
    material_bindings: &mut Vec<Vec<PreviewMaterialAnimationBinding>>,
)
    requires
        material_base + model_materials@.len() <= usize::MAX,
    ensures
        ({
            let paths = preview_assets::srt_paths(model_path@);
            let done = with_animations(
                SrtState {
                    animations: old(animations)@,
                    bindings: binding_views(old(material_bindings)@),
                },
                assets@,
                parsed@,
                paths,
                model_materials@,
                material_base as int,
                paths.len(),
            );
            final(animations)@ == done.animations && binding_views(final(material_bindings)@)
                == done.bindings
        }),
{
    let paths = preview_assets::model_texture_srt_animation_paths(model_path);
    let ghost wanted = text::views(paths@);
    let ghost start = SrtState {
        animations: animations@,
        bindings: binding_views(material_bindings@),
    };
    let mut i: usize = 0;
    while i < paths.len()
        invariant
            i <= paths.len(),
            material_base + model_materials@.len() <= usize::MAX,
            wanted == text::views(paths@),
            (SrtState {
                animations: animations@,
                bindings: binding_views(material_bindings@),
            }) == with_animations(
                start,
                assets@,
                parsed@,
                wanted,
                model_materials@,
                material_base as int,
                i as nat,
            ),
        decreases paths.len() - i,
    {
        let found = preview_assets::find_stage_asset_at(
            assets,
            StageAssetKind::Animation,
            paths[i].as_str(),
        );
        if let Some(asset) = found {
            if let Some(k) = find_parsed(parsed, asset) {
                let matched = bind_names(
                    parsed[k].material_names.as_slice(),
                    model_materials,
                    material_base,
                    animations.len(),
                    material_bindings,
                );
                if matched {
                    animations.push(asset);
                }
            }
        }
        i += 1;
    }
}

/// The material has exactly this name.
pub open spec fn view_is_named(name: Seq<char>) -> spec_fn(MaterialView) -> bool {
    |material: MaterialView| material.name == name
}

/// The materials after the first `n` entries of a material table: each takes over the state of
/// the first material of its name, which keeps its own position and number.
pub open spec fn with_table(
    materials: Seq<MaterialView>,
    table: Seq<MaterialView>,
    n: nat,
) -> Seq<MaterialView>
    decreases n,
{
    if n == 0 {
        materials
    } else {
        let rest = with_table(materials, table, (n - 1) as nat);
        match search::first_position(rest, view_is_named(table[n - 1].name)) {
            Some(i) => rest.update(
                i,
                MaterialView {
                    name: rest[i].name,
                    material_index: rest[i].material_index,
                    material_id: rest[i].material_id,
                    ..table[n - 1]
                },
            ),
            None => rest,
        }
    }
}

/// The slot holds a texture that exists.
pub open spec fn is_live_texture(count: int) -> spec_fn(Option<usize>) -> bool {
    |slot: Option<usize>| slot matches Some(k) && k < count
}

/// The first texture of a material that exists.
pub open spec fn first_texture(slots: Seq<Option<usize>>, count: int) -> Option<usize> {
    match search::first_position(slots, is_live_texture(count)) {
        Some(i) => slots[i],
        None => None,
    }
}

/// A triangle in the state of its material.
pub open spec fn in_material_state(
    triangle: PreviewTriangle,
    materials: Seq<MaterialView>,
    textures: int,
) -> PreviewTriangle {
    match triangle.material_index {
        Some(m) => if m < materials.len() {
            PreviewTriangle {
                texture_index: first_texture(materials[m as int].texture_indices, textures),
                cull_mode: Some(materials[m as int].cull_mode),
                alpha_compare: Some(materials[m as int].alpha_compare),
                blend_mode: Some(materials[m as int].blend_mode),
                z_mode: Some(materials[m as int].z_mode),
                z_comp_loc: Some(materials[m as int].z_comp_loc),
                ..triangle
            }
        } else {
            triangle
        },
        None => triangle,
    }
}

fn find_first_texture(material: &J3dMaterial, count: usize) -> (r: Option<usize>)
    ensures
        r == first_texture(material@.texture_indices, count as int),
{
    let ghost slots = material.texture_indices@;
    let mut i: usize = 0;
    while i < 8
        invariant
            i <= 8,
            slots == material.texture_indices@,
            forall|j: int| 0 <= j < i ==> !is_live_texture(count as int)(#[trigger] slots[j]),
        decreases 8 - i,
    {
        if let Some(k) = material.texture_indices[i] {
            if k < count {
                proof {
                    search::lemma_found(slots, is_live_texture(count as int), i as int);
                }
                return Some(k);
            }
        }
        i += 1;
    }
    proof {
        search::lemma_not_found(slots, is_live_texture(count as int));
    }
    None
}

fn restyle_triangles(
    triangles: &mut Vec<PreviewTriangle>,
    materials: &[J3dMaterial],
    textures: usize,
)
    ensures
        final(triangles)@ == Seq::new(
            old(triangles)@.len(),
            |i: int|
                in_material_state(
                    old(triangles)@[i],
                    preview::material_views(materials@),
                    textures as int,
                ),
        ),
{
    let ghost views = preview::material_views(materials@);
    let ghost start = triangles@;
    let mut i: usize = 0;
    while i < triangles.len()
        invariant
            i <= triangles.len(),
            triangles@.len() == start.len(),
            views == preview::material_views(materials@),
            forall|j: int|
                0 <= j < i ==> #[trigger] triangles@[j] == in_material_state(
                    start[j],
                    views,
                    textures as int,
                ),
            forall|j: int| i <= j < triangles@.len() ==> #[trigger] triangles@[j] == start[j],
        decreases triangles.len() - i,
    {
        let mut triangle = triangles[i];
        if let Some(m) = triangle.material_index {
            if m < materials.len() {
                let material = &materials[m];
                triangle.texture_index = find_first_texture(material, textures);
                triangle.cull_mode = Some(material.cull_mode);
                triangle.alpha_compare = Some(material.alpha_compare);
                triangle.blend_mode = Some(material.blend_mode);
                triangle.z_mode = Some(material.z_mode);
                triangle.z_comp_loc = Some(material.z_comp_loc);
                proof {
                    assert(views[m as int] == material@);
                }
            }
        }
        triangles.set(i, triangle);
        i += 1;
    }
    proof {
        assert(triangles@ =~= Seq::new(
            start.len(),
            |i: int| in_material_state(start[i], views, textures as int),
        ));
    }
}

proof fn lemma_same_first(materials: Seq<J3dMaterial>, name: Seq<char>)
    ensures
        search::first_position(materials, is_named(name)) == search::first_position(
            preview::material_views(materials),
            view_is_named(name),
        ),
    decreases materials.len(),
{
    if materials.len() > 0 {
        lemma_same_first(materials.drop_last(), name);
        assert(preview::material_views(materials).drop_last() =~= preview::material_views(
            materials.drop_last(),
        ));
    }
}

/// Copies the state of a material table onto the materials of the same name, replaces the
/// textures where the table brings any, and brings every triangle into its material's state.
pub fn apply_material_table_to_preview(
    preview: &mut J3dGeometryPreview,
    materials: Vec<J3dMaterial>,
    textures: Vec<J3dTexturePreview>,
)
    ensures
        preview::material_views(final(preview).materials@) == with_table(
            preview::material_views(old(preview).materials@),
            preview::material_views(materials@),
            materials@.len(),
        ),
        final(preview).textures@ == (if textures@.len() == 0 {
            old(preview).textures@
        } else {
            textures@
        }),
        final(preview).triangles@ == Seq::new(
            old(preview).triangles@.len(),
            |i: int|
                in_material_state(
                    old(preview).triangles@[i],
                    preview::material_views(final(preview).materials@),
                    final(preview).textures@.len() as int,
                ),
        ),
{
    let ghost start = preview::material_views(preview.materials@);
    let ghost table = preview::material_views(materials@);
    let mut i: usize = 0;
    while i < materials.len()
        invariant
            i <= materials.len(),
            table == preview::material_views(materials@),
            preview.textures == old(preview).textures,
            preview.triangles == old(preview).triangles,
            preview::material_views(preview.materials@) == with_table(start, table, i as nat),
        decreases materials.len() - i,
    {
        proof {
            lemma_same_first(preview.materials@, materials@[i as int].name@);
        }
        if let Some(k) = find_named(preview.materials.as_slice(), materials[i].name.as_str()) {
            let mut replacement = materials[i].duplicate();
            replacement.name = preview.materials[k].name.clone();
            replacement.material_index = preview.materials[k].material_index;
            replacement.material_id = preview.materials[k].material_id;
            let ghost before = preview.materials@;
            preview.materials.set(k, replacement);
            proof {
                assert(preview::material_views(preview.materials@) =~= preview::material_views(
                    before,
                ).update(k as int, replacement@));
            }
        }
        i += 1;
    }
    if textures.len() > 0 {
        preview.textures = textures;
    }
    let count: usize = preview.textures.len();
    restyle_triangles(&mut preview.triangles, preview.materials.as_slice(), count);
}

/// Every texture that the materials of a table use is in the table.
pub open spec fn table_is_complete(materials: Seq<J3dMaterial>, textures: int) -> bool {
    forall|i: int, j: int|
        0 <= i < materials.len() && 0 <= j < 8 ==> (#[trigger] materials[i].texture_indices@[j]
            matches Some(k) ==> k < textures)
}

fn is_complete_table(materials: &[J3dMaterial], textures: usize) -> (r: bool)
    ensures
        r == table_is_complete(materials@, textures as int),
{
    let mut i: usize = 0;
    while i < materials.len()
        invariant
            i <= materials.len(),
            forall|a: int, b: int|
                0 <= a < i && 0 <= b < 8 ==> (#[trigger] materials@[a].texture_indices@[b]
                    matches Some(k) ==> k < textures),
        decreases materials.len() - i,
    {
        let mut j: usize = 0;
        while j < 8
            invariant
                i < materials.len(),
                j <= 8,
                forall|b: int|
                    0 <= b < j ==> (#[trigger] materials@[i as int].texture_indices@[b]
                        matches Some(k) ==> k < textures),
            decreases 8 - j,
        {
            if let Some(k) = materials[i].texture_indices[j] {
                if k >= textures {
                    assert(!(materials@[i as int].texture_indices@[j as int] matches Some(k)
                        && k < textures));
                    return false;
                }
            }
            j += 1;
        }
        i += 1;
    }
    true
}

/// Position of the last of the highest scores.
pub open spec fn best_score(scores: Seq<Option<i64>>) -> Option<int>
    decreases scores.len(),
{
    if scores.len() == 0 {
        None
    } else {
        match (scores.last(), best_score(scores.drop_last())) {
            (None, best) => best,
            (Some(score), None) => Some(scores.len() - 1),
            (Some(score), Some(best)) => if scores[best] matches Some(top) && score >= top {
                Some(scores.len() - 1)
            } else {
                Some(best)
            },
        }
    }
}

/// `best_score` returns a scored position that no other score exceeds, the last of its kind.
pub proof fn law_best_score_is_highest(scores: Seq<Option<i64>>)
    ensures
        match best_score(scores) {
            Some(b) => 0 <= b < scores.len() && (scores[b] matches Some(top) && forall|i: int|
                0 <= i < scores.len() ==> (#[trigger] scores[i] matches Some(s) ==> s <= top && (i
                    > b ==> s < top))),
            None => forall|i: int| 0 <= i < scores.len() ==> #[trigger] scores[i] is None,
        },
    decreases scores.len(),
{
    if scores.len() > 0 {
        let rest = scores.drop_last();
        law_best_score_is_highest(rest);
        assert(forall|i: int| 0 <= i < rest.len() ==> #[trigger] scores[i] == rest[i]);
    }
}

/// Position of the material table that fits a model best; of equally good ones the last.
pub fn best_material_table(scores: &[Option<i64>]) -> (r: Option<usize>)
    ensures
        match r {
            Some(i) => i < scores@.len() && best_score(scores@) == Some(i as int),
            None => best_score(scores@) is None,
        },
{
    let mut best: Option<usize> = None;
    let mut i: usize = 0;
    proof {
        assert(best_score(scores@.take(0)) is None);
    }
    while i < scores.len()
        invariant
            i <= scores.len(),
            match best {
                Some(b) => b < i && scores@[b as int] is Some && best_score(scores@.take(i as int))
                    == Some(b as int),
                None => best_score(scores@.take(i as int)) is None,
            },
        decreases scores.len() - i,
    {
        proof {
            assert(scores@.take(i + 1).drop_last() =~= scores@.take(i as int));
            assert(scores@.take(i + 1).last() == scores@[i as int]);
            if let Some(b) = best {
                assert(scores@.take(i + 1)[b as int] == scores@[b as int]);
                assert(scores@.take(i as int)[b as int] == scores@[b as int]);
            }
        }
        if let Some(score) = scores[i] {
            match best {
                None => {
                    best = Some(i);
                },
                Some(b) => {
                    if let Some(top) = scores[b] {
                        if score >= top {
                            best = Some(i);
                        }
                    }
                },
            }
        }
        i += 1;
    }
    proof {
        assert(scores@.take(i as int) =~= scores@);
    }
    best
}

/// Applies a material table that the application read for a model; a table whose materials use
/// textures that it lacks is left out.
pub fn apply_model_material_table(
    preview: &mut J3dGeometryPreview,
    materials: Vec<J3dMaterial>,
    textures: Vec<J3dTexturePreview>,
) -> (r: bool)
    ensures
        r == table_is_complete(materials@, textures@.len() as int),
        !r ==> *final(preview) == *old(preview),
        r ==> preview::material_views(final(preview).materials@) == with_table(
            preview::material_views(old(preview).materials@),
            preview::material_views(materials@),
            materials@.len(),
        ) && final(preview).textures@ == (if textures@.len() == 0 {
            old(preview).textures@
        } else {
            textures@
        }) && final(preview).triangles@ == Seq::new(
            old(preview).triangles@.len(),
            |i: int|
                in_material_state(
                    old(preview).triangles@[i],
                    preview::material_views(final(preview).materials@),
                    final(preview).textures@.len() as int,
                ),
        ),
{
    if !is_complete_table(materials.as_slice(), textures.len()) {
        return false;
    }
    apply_material_table_to_preview(preview, materials, textures);
    true
}

/// A material table changes no material whose name it lacks, and moves none.
pub proof fn law_table_keeps_positions(materials: Seq<MaterialView>, table: Seq<MaterialView>, n: nat)
    requires
        n <= table.len(),
    ensures
        with_table(materials, table, n).len() == materials.len(),
        forall|i: int|
            0 <= i < materials.len() ==> (#[trigger] with_table(materials, table, n)[i]).name
                == materials[i].name && with_table(materials, table, n)[i].material_index
                == materials[i].material_index && with_table(materials, table, n)[i].material_id
                == materials[i].material_id,
    decreases n,
{
    if n > 0 {
        law_table_keeps_positions(materials, table, (n - 1) as nat);
        let rest = with_table(materials, table, (n - 1) as nat);
        search::lemma_first_position(rest, view_is_named(table[n - 1].name));
    }
}

/// An NPC's eyes are drawn from both sides.
pub open spec fn with_open_eyes(material: MaterialView) -> MaterialView {
    if preview_assets::is_eye_name(material.name) {
        MaterialView { cull_mode: 0, ..material }
    } else {
        material
    }
}

/// A triangle of an eye is drawn from both sides.
pub open spec fn with_open_eye(
    triangle: PreviewTriangle,
    materials: Seq<MaterialView>,
) -> PreviewTriangle {
    match triangle.material_index {
        Some(m) => if m < materials.len() && preview_assets::is_eye_name(
            materials[m as int].name,
        ) {
            PreviewTriangle { cull_mode: Some(0), ..triangle }
        } else {
            triangle
        },
        None => triangle,
    }
}

/// Draws the eyes of an NPC from both sides.
pub fn apply_npc_eye_decal_culling(object: &SceneObject, preview: &mut J3dGeometryPreview)
    ensures
        final(preview).textures == old(preview).textures,
        !"NPC"@.is_prefix_of(object.factory_name@) ==> *final(preview) == *old(preview),
        "NPC"@.is_prefix_of(object.factory_name@) ==> preview::material_views(
            final(preview).materials@,
        ) == Seq::new(
            old(preview).materials@.len(),
            |i: int| with_open_eyes(old(preview).materials@[i]@),
        ) && final(preview).triangles@ == Seq::new(
            old(preview).triangles@.len(),
            |i: int|
                with_open_eye(
                    old(preview).triangles@[i],
                    preview::material_views(old(preview).materials@),
                ),
        ),
{
    if !text::starts_with(object.factory_name.as_str(), "NPC") {
        return;
    }
    let ghost materials = preview::material_views(preview.materials@);
    let mut i: usize = 0;
    while i < preview.triangles.len()
        invariant
            i <= preview.triangles.len(),
            preview.materials == old(preview).materials,
            preview.textures == old(preview).textures,
            materials == preview::material_views(old(preview).materials@),
            preview.triangles@.len() == old(preview).triangles@.len(),
            forall|j: int|
                0 <= j < i ==> #[trigger] preview.triangles@[j] == with_open_eye(
                    old(preview).triangles@[j],
                    materials,
                ),
            forall|j: int|
                i <= j < preview.triangles@.len() ==> #[trigger] preview.triangles@[j] == old(
                    preview,
                ).triangles@[j],
        decreases preview.triangles.len() - i,
    {
        let mut triangle = preview.triangles[i];
        if let Some(m) = triangle.material_index {
            if m < preview.materials.len() && preview_assets::is_npc_eye_material_name(
                preview.materials[m].name.as_str(),
            ) {
                triangle.cull_mode = Some(0);
            }
        }
        preview.triangles.set(i, triangle);
        i += 1;
    }
    proof {
        assert(preview.triangles@ =~= Seq::new(
            old(preview).triangles@.len(),
            |i: int| with_open_eye(old(preview).triangles@[i], materials),
        ));
    }
    let ghost triangles = preview.triangles@;
    let mut i: usize = 0;
    while i < preview.materials.len()
        invariant
            i <= preview.materials.len(),
            preview.triangles@ == triangles,
            preview.textures == old(preview).textures,
            preview.materials@.len() == old(preview).materials@.len(),
            forall|j: int|
                0 <= j < i ==> (#[trigger] preview.materials@[j])@ == with_open_eyes(
                    old(preview).materials@[j]@,
                ),
            forall|j: int|
                i <= j < preview.materials@.len() ==> #[trigger] preview.materials@[j] == old(
                    preview,
                ).materials@[j],
        decreases preview.materials.len() - i,
    {
        if preview_assets::is_npc_eye_material_name(preview.materials[i].name.as_str()) {
            let mut material = preview.materials[i].duplicate();
            material.cull_mode = 0;
            preview.materials.set(i, material);
        }
        i += 1;
    }
    proof {
        assert(preview::material_views(preview.materials@) =~= Seq::new(
            old(preview).materials@.len(),
            |i: int| with_open_eyes(old(preview).materials@[i]@),
        ));
    }
}

/// The picture of a goop layer: its model's path with the extension of a bitmap.
pub open spec fn mask_path(model_path: Seq<char>) -> Option<Seq<char>> {
    match text::split_last(model_path, '.') {
        Some((base, _)) => Some(base + ".bmp"@),
        None => None,
    }
}

/// Position of the mask bitmap of a goop layer; other models have none.
pub fn find_pollution_bitmap(
    assets: &[StageAsset],
    model_path: &str,
    is_pollution_layer: bool,
) -> (r: Option<usize>)
    ensures
        match r {
            Some(i) => is_pollution_layer && i < assets@.len() && (mask_path(model_path@)
                matches Some(path) && search::first_position(
                assets@,
                preview_assets::is_asset_at(StageAssetKind::Texture, path),
            ) == Some(i as int)),
            None => !is_pollution_layer || mask_path(model_path@) is None || (mask_path(
                model_path@,
            ) matches Some(path) && search::first_position(
                assets@,
                preview_assets::is_asset_at(StageAssetKind::Texture, path),
            ) is None),
        },
        forall|base: Seq<char>|
            is_pollution_layer && model_path@ == #[trigger] (base + ".bmd"@) ==> (match r {
                Some(i) => assets@[i as int].kind == StageAssetKind::Texture && text::lower(
                    text::with_replaced(assets@[i as int].path@, '\\', '/'),
                ) == text::lower(base + ".bmp"@),
                None => forall|j: int|
                    0 <= j < assets@.len() && (#[trigger] assets@[j]).kind
                        == StageAssetKind::Texture ==> text::lower(
                        text::with_replaced(assets@[j].path@, '\\', '/'),
                    ) != text::lower(base + ".bmp"@),
            }),
{
    proof {
        assert forall|base: Seq<char>| model_path@ == #[trigger] (base + ".bmd"@) implies mask_path(
            model_path@,
        ) == Some(base + ".bmp"@) by {
            law_masks_lie_beside_their_models(base, "bmd"@);
        }
        if let Some(path) = mask_path(model_path@) {
            search::lemma_first_position(
                assets@,
                preview_assets::is_asset_at(StageAssetKind::Texture, path),
            );
        }
    }
    if !is_pollution_layer {
        return None;
    }
    match text::rsplit_once(model_path, '.') {
        Some((base, _)) => {
            let path = base.concat(".bmp");
            preview_assets::find_stage_asset_at(assets, StageAssetKind::Texture, path.as_str())
        },
        None => None,
    }
}

/// Puts the mask of a goop layer, read from its bitmap, into the model's live texture.
pub fn apply_pollution_bitmap_mask(bytes: &[u8], preview: &mut J3dGeometryPreview)
    ensures
        final(preview).materials == old(preview).materials,
        final(preview).triangles == old(preview).triangles,
        final(preview).textures@.len() == old(preview).textures@.len(),
        ({
            let width = preview_textures::signed(preview_textures::le32(bytes@, 18)) as u16;
            let height = preview_textures::bitmap_rows(
                preview_textures::signed(preview_textures::le32(bytes@, 22)),
            ) as u16;
            if preview_textures::is_mask_bitmap(bytes@) && preview_textures::mask_applies(
                old(preview).textures@,
                width,
                height,
            ) {
                forall|i: int|
                    0 <= i < old(preview).textures@.len() ==> preview_textures::masked(
                        #[trigger] final(preview).textures@[i],
                        old(preview).textures@[i],
                        old(preview).textures@[0].name@,
                        width,
                        height,
                        preview_textures::mask_picture(bytes@),
                    )
            } else {
                final(preview).textures@ == old(preview).textures@
            }
        }),
{
    if let Some((width, height, rgba)) = preview_textures::decode_pollution_bitmap_mask(bytes) {
        preview_textures::replace_pollution_mask_texture_aliases(
            &mut preview.textures,
            width,
            height,
            rgba.as_slice(),
        );
    }
}

/// The mask of a goop layer is the bitmap of the same name beside its model.
pub proof fn law_masks_lie_beside_their_models(base: Seq<char>, extension: Seq<char>)
    requires
        extension == "bmd"@ || extension == "bdl"@,
    ensures
        mask_path(base + "."@ + extension) == Some(base + ".bmp"@),
        extension == "bmd"@ ==> mask_path(base + ".bmd"@) == Some(base + ".bmp"@),
{
    reveal_strlit("bmd");
    reveal_strlit("bdl");
    reveal_strlit(".");
    reveal_strlit(".bmd");
    text::law_joined_texts_come_apart(base, '.', extension);
    assert(base + "."@ + extension =~= base.push('.') + extension);
    if extension == "bmd"@ {
        assert(base + ".bmd"@ =~= base.push('.') + "bmd"@);
    }
}

/// Where the stage has the bitmap beside a goop layer's model, up to case and slashes, the search
/// ends at such a bitmap.
pub proof fn law_present_masks_are_found(assets: Seq<StageAsset>, base: Seq<char>, at: int)
    requires
        0 <= at < assets.len(),
        assets[at].kind == StageAssetKind::Texture,
        text::lower(text::with_replaced(assets[at].path@, '\\', '/')) == text::lower(
            base + ".bmp"@,
        ),
    ensures
        mask_path(base + ".bmd"@) matches Some(path) && (search::first_position(
            assets,
            preview_assets::is_asset_at(StageAssetKind::Texture, path),
        ) matches Some(i) && 0 <= i <= at && text::lower(
            text::with_replaced(assets[i].path@, '\\', '/'),
        ) == text::lower(base + ".bmp"@)),
{
    law_masks_lie_beside_their_models(base, "bmd"@);
    let wanted = preview_assets::is_asset_at(StageAssetKind::Texture, base + ".bmp"@);
    search::lemma_first_position(assets, wanted);
    assert(wanted(assets[at]));
}

} // verus!
