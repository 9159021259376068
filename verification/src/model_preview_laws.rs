//! How models, their materials and their pictures come into the preview.
use vstd::prelude::*;

use crate::authored_preview;
use crate::authored_preview::{AppendSource, Appended, PreviewResource, PreviewView};
use crate::model_instances;
use crate::model_instances::{
    AuthoredModelPreviewKey, EditorModelInstance, LoaderFlagsError, ModelInstanceExportMode,
    StageLoaderFlags,
};
use crate::model_preview;
use crate::preview::{
    ImageView, J3dGeometryPreview, J3dMaterial, J3dTexturePreview, MaterialView,
    PreviewMaterialAnimationBinding, PreviewRenderLayer, PreviewTriangle, TextureSampler,
};
use crate::preview_cache;
use crate::preview_textures;
use crate::registry::ObjectRegistry;
use crate::search;
use crate::text;
use crate::wire_laws;

verus! {

/// A pixel is weighed by its opacity: an opaque one stays, a clear one is black, and any other is
/// the part that its opacity gives, rounded to the next number; the opacity itself stays.
pub proof fn law_pictures_are_weighed_by_their_alpha(rgba: Seq<u8>, p: int, c: int)
    requires
        0 <= p,
        4 * p + 4 <= rgba.len(),
        0 <= c < 3,
    ensures
        ({
            let out = preview_textures::premultiplied(rgba);
            let alpha = rgba[4 * p + 3];
            let value = rgba[4 * p + c];
            let weighed = out[4 * p + c];
            &&& out.len() == rgba.len()
            &&& out[4 * p + 3] == alpha
            &&& alpha == 255 ==> weighed == value
            &&& alpha == 0 ==> weighed == 0
            &&& 2 * (255 * weighed - value * alpha) <= 255
            &&& 2 * (value * alpha - 255 * weighed) <= 255
            &&& weighed <= alpha
            &&& weighed <= value
        }),
{
    let alpha = rgba[4 * p + 3];
    let value = rgba[4 * p + c];
    assert((4 * p + c) % 4 == c);
    assert((4 * p + 3) % 4 == 3);
    assert(0 <= value * alpha <= 255 * 255 && value * alpha <= 255 * alpha && value * alpha <= 255
        * value && (alpha == 255 ==> value * alpha == 255 * value) && (alpha == 0 ==> value * alpha
        == 0)) by (nonlinear_arith)
        requires
            0 <= value <= 255,
            0 <= alpha <= 255,
    ;
    assert(2 * value * alpha == 2 * (value * alpha)) by (nonlinear_arith);
    if 0 < alpha < 255 {
        let q = (2 * (value * alpha) + 255) / 510;
        assert(0 <= q <= 255);
        assert(preview_textures::alpha_scaled(value, alpha) == q);
        assert(q <= alpha && q <= value);
    }
    assert(preview_textures::premultiplied(rgba)[4 * p + c]
        == preview_textures::premultiplied_byte(rgba, 4 * p + c));
}

/// A picture has alpha where a pixel is clearly not opaque, and translucent alpha where one is
/// also clearly not clear.
pub proof fn law_pixels_make_a_picture_translucent(texture: J3dTexturePreview)
    requires
        texture.rgba@.len() == texture.width * texture.height * 4,
        texture.rgba@.len() > 0,
    ensures
        preview_textures::preview_of(texture).sampler == texture.sampler,
        preview_textures::preview_of(texture).has_alpha <==> exists|p: int|
            0 <= p < texture.rgba@.len() / 4 && (#[trigger] preview_textures::alpha_of(
                texture.rgba@,
                p,
            )) <= 244,
        preview_textures::preview_of(texture).has_translucent_alpha <==> exists|p: int|
            0 <= p < texture.rgba@.len() / 4 && 13 <= (#[trigger] preview_textures::alpha_of(
                texture.rgba@,
                p,
            )) <= 244,
        forall|p: int|
            (#[trigger] preview_textures::alpha_of(texture.rgba@, p)) == texture.rgba@[4 * p + 3],
{
}

/// A texture whose data is not its size is shown as one opaque white pixel.
pub proof fn law_broken_pictures_are_white(texture: J3dTexturePreview)
    requires
        texture.rgba@.len() != texture.width * texture.height * 4 || texture.rgba@.len() == 0,
    ensures
        ({
            let shown = preview_textures::preview_of(texture);
            &&& shown.mips.len() == 1
            &&& shown.mips[0].width == 1
            &&& shown.mips[0].height == 1
            &&& shown.mips[0].pixels == seq![255u8, 255u8, 255u8, 255u8]
            &&& !shown.has_alpha
            &&& !shown.has_translucent_alpha
            &&& shown.sampler == texture.sampler
        }),
{
}

/// Where every level of a texture is sound, all are shown in order, each in its own size; where a
/// texture has none, its picture is the only one.
pub proof fn law_all_levels_are_shown(texture: J3dTexturePreview, i: int)
    requires
        texture.rgba@.len() == texture.width * texture.height * 4,
        texture.rgba@.len() > 0,
        forall|j: int|
            0 <= j < texture.mips@.len() ==> (#[trigger] texture.mips@[j]).rgba@.len()
                == texture.mips@[j].width * texture.mips@[j].height * 4
                && texture.mips@[j].rgba@.len() > 0,
    ensures
        ({
            let shown = preview_textures::preview_of(texture).mips;
            &&& texture.mips@.len() == 0 ==> shown.len() == 1 && shown[0].width == texture.width
                && shown[0].height == texture.height && shown[0].pixels
                == preview_textures::premultiplied(texture.rgba@)
            &&& texture.mips@.len() > 0 ==> shown.len() == texture.mips@.len()
            &&& 0 <= i < texture.mips@.len() ==> shown[i].width == texture.mips@[i].width
                && shown[i].height == texture.mips@[i].height && shown[i].pixels
                == preview_textures::premultiplied(texture.mips@[i].rgba@)
        }),
{
    lemma_levels(texture.mips@, i);
}

proof fn lemma_levels(mips: Seq<crate::preview::J3dMip>, i: int)
    requires
        forall|j: int|
            0 <= j < mips.len() ==> (#[trigger] mips[j]).rgba@.len() == mips[j].width
                * mips[j].height * 4 && mips[j].rgba@.len() > 0,
    ensures
        preview_textures::uploaded_mips(mips).len() == mips.len(),
        0 <= i < mips.len() ==> preview_textures::uploaded_mips(mips)[i] == (ImageView {
            width: mips[i].width as nat,
            height: mips[i].height as nat,
            pixels: preview_textures::premultiplied(mips[i].rgba@),
        }),
    decreases mips.len(),
{
    if mips.len() > 0 {
        let rest = mips.drop_last();
        assert(forall|j: int| 0 <= j < rest.len() ==> (#[trigger] rest[j]) == mips[j]);
        lemma_levels(rest, i);
        assert(mips.last() == mips[mips.len() - 1]);
    }
}

/// A mask is a bitmap of one plane with eight bits to a pixel and no compression; its rows are
/// padded to four bytes and stand from the bottom up, unless its height is below zero, and each of
/// its values is all four channels of a pixel.
pub proof fn law_masks_are_grey_bitmaps(bytes: Seq<u8>, x: int, y: int, c: int)
    requires
        preview_textures::is_mask_bitmap(bytes),
        0 <= x < preview_textures::signed(preview_textures::le32(bytes, 18)),
        0 <= y < preview_textures::bitmap_rows(
            preview_textures::signed(preview_textures::le32(bytes, 22)),
        ),
        0 <= c < 4,
    ensures
        bytes[0] == 'B' as u8,
        bytes[1] == 'M' as u8,
        bytes[26] == 1 && bytes[27] == 0,
        bytes[28] == 8 && bytes[29] == 0,
        bytes[30] == 0 && bytes[31] == 0 && bytes[32] == 0 && bytes[33] == 0,
        ({
            let width = preview_textures::signed(preview_textures::le32(bytes, 18));
            let height = preview_textures::signed(preview_textures::le32(bytes, 22));
            let data = bytes[10] + 256 * bytes[11] + 65_536 * bytes[12] + 16_777_216 * bytes[13];
            let stride = preview_textures::bitmap_stride(width);
            let row = if height > 0 {
                height - 1 - y
            } else {
                y
            };
            &&& width <= stride < width + 4
            &&& stride % 4 == 0
            &&& height > 0 ==> y < height
            &&& height < 0 ==> y < -height
            &&& 4 * (y * width + x) + c < preview_textures::mask_picture(bytes).len()
            &&& preview_textures::mask_picture(bytes)[4 * (y * width + x) + c] == bytes[data + row
                * stride + x]
        }),
{
    let width = preview_textures::signed(preview_textures::le32(bytes, 18));
    let height = preview_textures::signed(preview_textures::le32(bytes, 22));
    let rows = preview_textures::bitmap_rows(height);
    let at = y * width + x;
    assert(0 <= at < rows * width) by (nonlinear_arith)
        requires
            0 <= x < width,
            0 <= y < rows,
            at == y * width + x,
    ;
    vstd::arithmetic::div_mod::lemma_fundamental_div_mod_converse(at, width, y, x);
    let i = 4 * at + c;
    assert(i / 4 == at);
    assert(rows * width == width * rows) by (nonlinear_arith);
    assert(width * rows * 4 == 4 * (width * rows));
    assert(preview_textures::mask_picture(bytes).len() == width * rows * 4);
}

/// A masked texture has one level: its sampler keeps how it wraps and filters, and nothing of its
/// levels.
pub proof fn law_masked_textures_have_one_level(sampler: TextureSampler)
    ensures
        ({
            let one = preview_textures::single_level(sampler);
            &&& one.mipmap_count == 1
            &&& !one.mipmap_enabled && !one.do_edge_lod && !one.bias_clamp
            &&& one.max_anisotropy == 0 && one.min_lod == 0 && one.max_lod == 0 && one.lod_bias == 0
            &&& one.wrap_s == sampler.wrap_s && one.wrap_t == sampler.wrap_t
            &&& one.min_filter == sampler.min_filter && one.mag_filter == sampler.mag_filter
        }),
{
}

/// A material that is loaded is numbered by its place, reads its textures behind those loaded
/// before, and is otherwise as it is modelled.
pub proof fn law_materials_move_behind_the_others(
    material: MaterialView,
    index: usize,
    base: usize,
    i: int,
)
    requires
        0 <= i < material.texture_indices.len(),
        material.texture_indices[i] matches Some(k) ==> k + base <= usize::MAX,
    ensures
        ({
            let after = model_preview::placed(material, index, base);
            &&& after.material_index == index
            &&& after.texture_indices.len() == material.texture_indices.len()
            &&& material.texture_indices[i] is None ==> after.texture_indices[i] is None
            &&& material.texture_indices[i] matches Some(k) ==> (
            after.texture_indices[i] matches Some(j) && j == base + k)
            &&& after.name == material.name
            &&& after.material_id == material.material_id
            &&& after.material_colors == material.material_colors
            &&& after.tev_colors == material.tev_colors
            &&& after.tev_k_colors == material.tev_k_colors
            &&& after.cull_mode == material.cull_mode
            &&& after.alpha_compare == material.alpha_compare
            &&& after.blend_mode == material.blend_mode
            &&& after.z_mode == material.z_mode
            &&& after.z_comp_loc == material.z_comp_loc
        }),
{
}

/// An animation's track is bound to the first material of its name, behind the materials loaded
/// before, as the track's own number; the other materials keep their bindings.
pub proof fn law_tracks_drive_the_material_they_name(
    bindings: Seq<Seq<PreviewMaterialAnimationBinding>>,
    materials: Seq<J3dMaterial>,
    names: Seq<Seq<char>>,
    base: int,
    animation: usize,
    n: nat,
    m: int,
)
    requires
        n < names.len() <= usize::MAX,
        0 <= m < materials.len(),
        0 <= base,
        base + m < bindings.len(),
        materials[m].name@ == names[n as int],
        forall|j: int| 0 <= j < m ==> (#[trigger] materials[j]).name@ != names[n as int],
    ensures
        ({
            let before = model_preview::with_bindings(
                bindings,
                materials,
                names,
                base,
                animation,
                n,
            );
            let after = model_preview::with_bindings(
                bindings,
                materials,
                names,
                base,
                animation,
                n + 1,
            );
            &&& before.len() == after.len() == bindings.len()
            &&& after[base + m].len() == before[base + m].len() + 1
            &&& after[base + m].drop_last() == before[base + m]
            &&& after[base + m].last().animation_index == animation
            &&& after[base + m].last().binding_index == n
            &&& forall|j: int|
                0 <= j < bindings.len() && j != base + m ==> (#[trigger] after[j]) == before[j]
        }),
{
    lemma_bindings_len(bindings, materials, names, base, animation, n);
    let named = model_preview::is_named(names[n as int]);
    assert(named(materials[m]));
    assert forall|j: int| 0 <= j < m implies !named(#[trigger] materials[j]) by {}
    search::lemma_found(materials, named, m);
    let before = model_preview::with_bindings(bindings, materials, names, base, animation, n);
    let after = model_preview::with_bindings(bindings, materials, names, base, animation, n + 1);
    assert(after[base + m].drop_last() =~= before[base + m]);
}

proof fn lemma_bindings_len(
    bindings: Seq<Seq<PreviewMaterialAnimationBinding>>,
    materials: Seq<J3dMaterial>,
    names: Seq<Seq<char>>,
    base: int,
    animation: usize,
    n: nat,
)
    requires
        0 <= base,
    ensures
        model_preview::with_bindings(bindings, materials, names, base, animation, n).len()
            == bindings.len(),
    decreases n,
{
    if n > 0 {
        search::lemma_first_position(materials, model_preview::is_named(names[n - 1]));
        lemma_bindings_len(bindings, materials, names, base, animation, (n - 1) as nat);
    }
}

/// A track that names no material of the model drives none.
pub proof fn law_tracks_without_a_material_drive_none(
    bindings: Seq<Seq<PreviewMaterialAnimationBinding>>,
    materials: Seq<J3dMaterial>,
    names: Seq<Seq<char>>,
    base: int,
    animation: usize,
    n: nat,
)
    requires
        n < names.len(),
        forall|j: int|
            0 <= j < materials.len() ==> (#[trigger] materials[j]).name@ != names[n as int],
    ensures
        model_preview::with_bindings(bindings, materials, names, base, animation, n + 1)
            == model_preview::with_bindings(bindings, materials, names, base, animation, n),
{
    let named = model_preview::is_named(names[n as int]);
    assert forall|j: int| 0 <= j < materials.len() implies !named(#[trigger] materials[j]) by {}
    search::lemma_not_found(materials, named);
}

/// An entry of a material table dresses the first material of its name in all its looks, and
/// leaves it its name and its numbers; a name that the model lacks dresses none.
pub proof fn law_tables_dress_the_material_they_name(
    materials: Seq<MaterialView>,
    table: Seq<MaterialView>,
    n: nat,
    m: int,
)
    requires
        n < table.len(),
    ensures
        ({
            let before = model_preview::with_table(materials, table, n);
            let after = model_preview::with_table(materials, table, n + 1);
            let entry = table[n as int];
            &&& (forall|j: int| 0 <= j < before.len() ==> (#[trigger] before[j]).name != entry.name)
                ==> after == before
            &&& 0 <= m < before.len() && before[m].name == entry.name && (forall|j: int|
                0 <= j < m ==> (#[trigger] before[j]).name != entry.name) ==> {
                &&& after.len() == before.len()
                &&& after[m].name == before[m].name
                &&& after[m].material_index == before[m].material_index
                &&& after[m].material_id == before[m].material_id
                &&& after[m].texture_indices == entry.texture_indices
                &&& after[m].material_colors == entry.material_colors
                &&& after[m].tev_colors == entry.tev_colors
                &&& after[m].tev_k_colors == entry.tev_k_colors
                &&& after[m].cull_mode == entry.cull_mode
                &&& after[m].alpha_compare == entry.alpha_compare
                &&& after[m].blend_mode == entry.blend_mode
                &&& after[m].z_mode == entry.z_mode
                &&& after[m].z_comp_loc == entry.z_comp_loc
                &&& forall|j: int|
                    0 <= j < before.len() && j != m ==> (#[trigger] after[j]) == before[j]
            }
        }),
{
    let before = model_preview::with_table(materials, table, n);
    let named = model_preview::view_is_named(table[n as int].name);
    search::lemma_first_position(before, named);
    let found = search::first_position(before, named);
    if found is Some {
        assert(named(before[found->0]));
        if 0 <= m < found->0 {
            assert(!named(before[m]));
        }
    } else if 0 <= m < before.len() {
        assert(!named(before[m]));
    }
}

/// A triangle is drawn in the state of its material, with the first of its textures that there is.
pub proof fn law_triangles_wear_their_material(
    triangle: PreviewTriangle,
    materials: Seq<MaterialView>,
    textures: int,
    s: int,
)
    ensures
        ({
            let after = model_preview::in_material_state(triangle, materials, textures);
            &&& triangle.material_index is None ==> after == triangle
            &&& triangle.material_index matches Some(m) ==> {
                let material = materials[m as int];
                let slots = material.texture_indices;
                &&& m >= materials.len() ==> after == triangle
                &&& m < materials.len() ==> {
                    &&& after.cull_mode == Some(material.cull_mode)
                    &&& after.alpha_compare == Some(material.alpha_compare)
                    &&& after.blend_mode == Some(material.blend_mode)
                    &&& after.z_mode == Some(material.z_mode)
                    &&& after.z_comp_loc == Some(material.z_comp_loc)
                    &&& after.material_index == triangle.material_index
                    &&& after.model_index == triangle.model_index
                    &&& after.packet_index == triangle.packet_index
                    &&& after.vertex_colors == triangle.vertex_colors
                    &&& after.combine_mode == triangle.combine_mode
                    &&& (forall|j: int|
                        0 <= j < slots.len() ==> !shows(#[trigger] slots[j], textures))
                        ==> after.texture_index is None
                    &&& 0 <= s < slots.len() && shows(slots[s], textures) && (forall|j: int|
                        0 <= j < s ==> !shows(#[trigger] slots[j], textures))
                        ==> after.texture_index == slots[s]
                }
            }
        }),
{
    if triangle.material_index is Some {
        let m = triangle.material_index->0;
        let slots = materials[m as int].texture_indices;
        let live = model_preview::is_live_texture(textures);
        search::lemma_first_position(slots, live);
        let found = search::first_position(slots, live);
        if found is Some {
            assert(live(slots[found->0]));
            assert(shows(slots[found->0], textures));
            if 0 <= s < found->0 {
                assert(!live(slots[s]));
            }
        } else if 0 <= s < slots.len() {
            assert(!live(slots[s]));
        }
    }
}

/// A slot that holds one of the first `textures` textures.
pub open spec fn shows(slot: Option<usize>, textures: int) -> bool {
    slot matches Some(k) && k < textures
}

/// The first number above all of a list.
pub proof fn law_new_numbers_are_above_all(list: Seq<usize>, i: int)
    ensures
        0 <= i < list.len() ==> list[i] < authored_preview::first_above(list),
        list.len() == 0 ==> authored_preview::first_above(list) == 0,
        list.len() > 0 ==> exists|j: int|
            0 <= j < list.len() && (#[trigger] list[j]) + 1 == authored_preview::first_above(list),
    decreases list.len(),
{
    if list.len() > 0 {
        let rest = list.drop_last();
        law_new_numbers_are_above_all(rest, i);
        assert(list.last() == list[list.len() - 1]);
        if authored_preview::first_above(list) == authored_preview::first_above(rest) && list.last()
            + 1 != authored_preview::first_above(list) {
            assert(rest.len() > 0);
            let j = choose|j: int|
                0 <= j < rest.len() && (#[trigger] rest[j]) + 1 == authored_preview::first_above(
                    rest,
                );
            assert(list[j] == rest[j]);
        }
    }
}

/// What is appended to a preview is told apart from what it shows: it starts with a model and a
/// packet above all that are there.
pub proof fn law_appended_models_are_told_apart(preview: PreviewView, i: int)
    ensures
        0 <= i < preview.triangles.len() ==> preview.triangles[i].model_index
            < authored_preview::start_of(preview).next_model && preview.triangles[i].packet_index
            < authored_preview::start_of(preview).next_packet,
        0 <= i < preview.points.len() ==> preview.points[i] < authored_preview::start_of(
            preview,
        ).next_model,
{
    law_new_numbers_are_above_all(authored_preview::models(preview.triangles), i);
    law_new_numbers_are_above_all(authored_preview::packets(preview.triangles), i);
    law_new_numbers_are_above_all(preview.points, i);
}

/// An instance of another stage is not appended; one whose geometry is at hand takes the next
/// model, and as many packets as the geometry has, but one at the least.
pub proof fn law_instances_take_the_next_model(state: Appended, source: AppendSource, i: int)
    requires
        0 <= i < source.instances@.len(),
    ensures
        ({
            let after = authored_preview::with_instance(state, source, i);
            let instance = source.instances@[i];
            &&& text::lower(instance.stage_id@) != text::lower(source.stage_id@) ==> after == state
            &&& authored_preview::shown_geometry(source, i) matches Some(c) ==> {
                &&& 0 <= c < source.cache@.len()
                &&& crate::preview_cache::key_of(instance, *source.registry, source.flags) == Ok::<
                    AuthoredModelPreviewKey,
                    crate::model_instances::LoaderFlagsError,
                >(source.cache@[c].key)
                &&& after.next_model == state.next_model + 1
                &&& source.cache@[c].geometry.triangles@.len() == 0 ==> after.next_packet
                    == state.next_packet + 1
                &&& source.cache@[c].geometry.triangles@.len() > 0 ==> after.next_packet
                    == state.next_packet + authored_preview::first_above(
                    authored_preview::packets(source.cache@[c].geometry.triangles@),
                )
            }
            &&& authored_preview::shown_geometry(source, i) is None ==> after == state
        }),
{
    let instance = source.instances@[i];
    match crate::preview_cache::key_of(instance, *source.registry, source.flags) {
        Ok(key) => {
            search::lemma_first_position(source.cache@, authored_preview::has_key(key));
            if authored_preview::shown_geometry(source, i) is Some {
                let c = authored_preview::shown_geometry(source, i)->0;
                assert(authored_preview::has_key(key)(source.cache@[c]));
            }
        },
        Err(_) => {},
    }
}

/// A triangle of an instance is drawn as it is modelled, in the instance's model, behind the
/// packets there are, with the textures and the material of its own geometry; those of a skybox in
/// the sky's layer.
pub proof fn law_instances_keep_their_model(
    triangle: PreviewTriangle,
    resource: PreviewResource,
    state: Appended,
    instance: EditorModelInstance,
)
    requires
        0 <= state.next_model <= usize::MAX,
        0 <= state.next_packet,
        state.next_packet + triangle.packet_index <= usize::MAX,
        state.textures.len() <= usize::MAX,
        state.materials.len() <= usize::MAX,
    ensures
        ({
            let t = authored_preview::placed_triangle(
                triangle,
                resource,
                state,
                authored_preview::layer_of(instance),
            );
            &&& t.model_index == state.next_model
            &&& t.packet_index == state.next_packet + triangle.packet_index
            &&& wire_laws::is_moved(
                triangle.texture_index,
                t.texture_index,
                resource.texture_base as int,
                state.textures.len() as int,
            )
            &&& wire_laws::is_moved(
                triangle.mask_texture_index,
                t.mask_texture_index,
                resource.texture_base as int,
                state.textures.len() as int,
            )
            &&& wire_laws::is_moved(
                triangle.material_index,
                t.material_index,
                resource.material_base as int,
                state.materials.len() as int,
            )
            &&& t.source == triangle.source
            &&& t.vertex_colors == triangle.vertex_colors
            &&& t.color_channels == triangle.color_channels
            &&& t.cull_mode == triangle.cull_mode
            &&& t.blend_mode == triangle.blend_mode
            &&& t.z_mode == triangle.z_mode
            &&& t.alpha_compare == triangle.alpha_compare
            &&& t.combine_mode == triangle.combine_mode
            &&& t.billboard == triangle.billboard
            &&& t.particle_type is None
            &&& instance.placement.export_mode == ModelInstanceExportMode::Skybox
                ==> t.render_layer == PreviewRenderLayer::Sky
            &&& instance.placement.export_mode != ModelInstanceExportMode::Skybox
                ==> t.render_layer == PreviewRenderLayer::Main
        }),
{
}

/// The textures and materials of a geometry are loaded once, behind all others; where they are
/// known they are shared.
pub proof fn law_instances_share_their_resources(
    state: Appended,
    key: AuthoredModelPreviewKey,
    geometry: J3dGeometryPreview,
)
    requires
        state.textures.len() <= usize::MAX,
        state.materials.len() + geometry.materials@.len() <= usize::MAX,
    ensures
        ({
            let after = authored_preview::with_resources(state, key, geometry);
            let known = exists|i: int|
                0 <= i < state.resources.len() && (#[trigger] state.resources[i]).key == key;
            &&& known ==> after == state
            &&& !known ==> {
                &&& after.resources.len() == state.resources.len() + 1
                &&& after.resources.last().key == key
                &&& after.resources.last().texture_base == state.textures.len()
                &&& after.resources.last().material_base == state.materials.len()
                &&& after.textures.len() == state.textures.len() + geometry.textures@.len()
                &&& after.textures.take(state.textures.len() as int) == state.textures
                &&& forall|i: int|
                    0 <= i < geometry.textures@.len() ==> (
                    #[trigger] after.textures[state.textures.len() + i])
                        == preview_textures::preview_of(geometry.textures@[i])
                &&& after.materials.len() == state.materials.len() + geometry.materials@.len()
                &&& after.materials.take(state.materials.len() as int) == state.materials
                &&& forall|i: int|
                    0 <= i < geometry.materials@.len() ==> (
                    #[trigger] after.materials[state.materials.len() + i]).material_index
                        == state.materials.len() + i && after.materials[state.materials.len()
                        + i].name == geometry.materials@[i].name@
                &&& after.bindings.len() == after.materials.len()
                &&& after.triangles == state.triangles
            }
        }),
{
    let of = authored_preview::is_resource_of(key);
    search::lemma_first_position(state.resources, of);
    let found = search::first_position(state.resources, of);
    if found is Some {
        assert(of(state.resources[found->0]));
    } else {
        assert forall|i: int| 0 <= i < state.resources.len() implies (
        #[trigger] state.resources[i]).key != key by {
            assert(!of(state.resources[i]));
        }
        let after = authored_preview::with_resources(state, key, geometry);
        assert(after.textures.take(state.textures.len() as int) =~= state.textures);
        assert(after.materials.take(state.materials.len() as int) =~= state.materials);
    }
}

/// The loader flags that an asset's previews are built for are those of its instances, each once
/// and in order.
pub proof fn law_previews_are_built_for_their_instances(
    found: Seq<u32>,
    list: Seq<EditorModelInstance>,
    id: u128,
    registry: Option<ObjectRegistry>,
    flags: StageLoaderFlags,
    i: int,
    wanted: u32,
)
    requires
        preview_cache::is_flag_list(found, list, id, registry, flags),
        0 <= i < list.len(),
    ensures
        list[i].placement.asset_id == id ==> (model_instances::loader_flags_of(
            list[i].placement,
            registry,
            flags,
        ) matches Ok(needed) ==> found.contains(needed)),
        found.contains(wanted) ==> exists|k: int|
            0 <= k < list.len() && (#[trigger] list[k]).placement.asset_id == id
                && model_instances::loader_flags_of(list[k].placement, registry, flags) == Ok::<
                u32,
                LoaderFlagsError,
            >(wanted),
        forall|j: int, k: int|
            0 <= j < k < found.len() ==> (#[trigger] found[j]) < (#[trigger] found[k]),
{
    if list[i].placement.asset_id == id {
        match model_instances::loader_flags_of(list[i].placement, registry, flags) {
            Ok(needed) => {
                assert(preview_cache::needs_flags(
                    list,
                    id,
                    registry,
                    flags,
                    list.len() as int,
                    needed,
                ));
            },
            Err(_) => {},
        }
    }
    assert(found.contains(wanted) <==> preview_cache::needs_flags(
        list,
        id,
        registry,
        flags,
        list.len() as int,
        wanted,
    ));
}

} // verus!
