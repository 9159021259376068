//! Which flags a stage shows, and how large they are.
use vstd::prelude::*;
use vstd::arithmetic::power2::pow2;

use crate::flag_shapes;
use crate::flag_shapes::{AreaArchive, FlagGrid, FlagScale};
use crate::grids;
use crate::paths;
use crate::preview::{J3dPreviewCombineMode, PreviewRenderLayer};
use crate::preview_flags;
use crate::preview_flags::{FlagSource, FlagState, FlagTexture, PreviewFlag};
use crate::preview_textures;
use crate::registry::MapObjFlagDefinition;
use crate::search;
use crate::stage::SceneObject;
use crate::stage_table;
use crate::text;

verus! {

/// A flag's texture is named in the stream at its class's place; where that place is the first, in
/// the tail of the actor before all.
pub proof fn law_flags_name_their_cloth(object: SceneObject, definition: MapObjFlagDefinition)
    ensures
        ({
            let numbered = object.param(
                "stream_string_"@ + text::decimal(definition.resource_name_stream_index as nat),
            );
            let tail = object.param("actor_tail_string"@);
            let name = flag_shapes::resource_of(object, definition);
            &&& definition.resource_name_stream_index != 0 || tail is None ==> name == numbered
            &&& definition.resource_name_stream_index == 0 && tail is Some ==> name == tail
        }),
{
}

/// The path of a flag's texture: the class's pattern with the name in its place, without the root
/// of the scene, with forward separators and in lower case.
pub proof fn law_cloth_lies_where_the_pattern_says(
    definition: MapObjFlagDefinition,
    before: Seq<char>,
    resource: Seq<char>,
    after: Seq<char>,
)
    requires
        definition.texture_path_pattern@ == "/scene"@ + before + "%s"@ + after,
        forall|i: int| 0 <= i < before.len() ==> (#[trigger] before[i]) != '%',
    ensures
        flag_shapes::texture_path(definition, resource) == text::lower(
            text::with_replaced(before + resource + after, '\\', '/'),
        ),
{
    reveal_strlit("/scene");
    reveal_strlit("%s");
    let pattern = definition.texture_path_pattern@;
    let head = "/scene"@ + before;
    text::law_searches_find_the_first_place(pattern, "%s"@, 0);
    assert(pattern.subrange(head.len() as int, head.len() as int + 2) =~= "%s"@);
    assert(text::stands_at(pattern, "%s"@, head.len() as int));
    assert forall|j: int| 0 <= j < head.len() implies !#[trigger] text::stands_at(
        pattern,
        "%s"@,
        j,
    ) by {
        if text::stands_at(pattern, "%s"@, j) {
            assert(pattern.subrange(j, j + 2)[0] == '%');
            assert(pattern[j] == '%');
            if j >= 6 {
                assert(before[j - 6] == '%');
            }
        }
    }
    let found = text::find(pattern, "%s"@);
    assert(found is Some);
    assert(text::stands_at(pattern, "%s"@, found->0));
    assert(found->0 == head.len());
    let full = text::with_first_replaced(pattern, "%s"@, resource);
    assert(full =~= "/scene"@ + (before + resource + after));
    let slashed = text::with_replaced(full, '\\', '/');
    assert(slashed.subrange(0, 6) =~= "/scene"@);
    assert(slashed.skip(6) =~= text::with_replaced(before + resource + after, '\\', '/'));
}

/// A flag flutters at the speed of its area, the first one listed, and else at that of its class.
pub proof fn law_areas_set_the_flutter(definition: MapObjFlagDefinition, area: u32, i: int)
    ensures
        flag_shapes::flutter_speed(definition, None)
            == definition.default_flutter_speed_degrees_per_frame,
        (forall|j: int|
            0 <= j < definition.area_flutter_speeds@.len() ==> (
            #[trigger] definition.area_flutter_speeds@[j]).area_index != area)
            ==> flag_shapes::flutter_speed(definition, Some(area))
            == definition.default_flutter_speed_degrees_per_frame,
        0 <= i < definition.area_flutter_speeds@.len()
            && definition.area_flutter_speeds@[i].area_index == area && (forall|j: int|
            0 <= j < i ==> (#[trigger] definition.area_flutter_speeds@[j]).area_index != area)
            ==> flag_shapes::flutter_speed(definition, Some(area))
            == definition.area_flutter_speeds@[i].degrees_per_frame,
{
    let speeds = definition.area_flutter_speeds@;
    search::lemma_first_position(speeds, flag_shapes::is_speed_of(area));
    let found = search::first_position(speeds, flag_shapes::is_speed_of(area));
    if found is Some {
        assert(flag_shapes::is_speed_of(area)(speeds[found->0]));
        if 0 <= i < found->0 {
            assert(!flag_shapes::is_speed_of(area)(speeds[i]));
        }
    } else if 0 <= i < speeds.len() {
        assert(!flag_shapes::is_speed_of(area)(speeds[i]));
    }
}

/// A stage has the area of the first archive that goes by its name, in any case.
pub proof fn law_stages_have_the_area_of_their_archive(
    entries: Vec<AreaArchive>,
    stage: Seq<char>,
    area: u32,
)
    ensures
        flag_shapes::area_of(None, stage) is None,
        flag_shapes::area_of(Some(&entries), stage) == Some(area) ==> exists|i: int|
            0 <= i < entries@.len() && (#[trigger] entries@[i]).area_index == area && (
            stage_table::source_stem(paths::path_view(entries@[i].archive@)) matches Some(stem)
                && text::lower(stem) == text::lower(stage)),
        flag_shapes::area_of(Some(&entries), stage) is None ==> forall|i: int|
            0 <= i < entries@.len() ==> match stage_table::source_stem(
                paths::path_view((#[trigger] entries@[i]).archive@),
            ) {
                Some(stem) => text::lower(stem) != text::lower(stage),
                None => true,
            },
{
    search::lemma_first_position(entries@, flag_shapes::is_archive_of(stage));
    let found = search::first_position(entries@, flag_shapes::is_archive_of(stage));
    if found is Some {
        assert(flag_shapes::is_archive_of(stage)(entries@[found->0]));
    } else {
        assert forall|i: int| 0 <= i < entries@.len() implies match stage_table::source_stem(
            paths::path_view((#[trigger] entries@[i]).archive@),
        ) {
            Some(stem) => text::lower(stem) != text::lower(stage),
            None => true,
        } by {
            assert(!flag_shapes::is_archive_of(stage)(entries@[i]));
        }
    }
}

/// How many points a side of a flag has: the whole part of its number from two up to 512; three
/// below two, below zero too; none for a number that is larger, infinite or none.
pub proof fn law_flag_sides_have_whole_points(bits: u32, n: int)
    ensures
        bits < 0x4000_0000 || 0x8000_0000 <= bits < 0xff80_0000 ==> flag_shapes::grid_dimension(
            bits,
        ) == Some(3usize),
        0x4400_0000 < bits < 0x8000_0000 && bits >= 0x4400_4000 || bits >= 0xff80_0000
            ==> flag_shapes::grid_dimension(bits) is None,
        0x4000_0000 <= bits < 0x4400_4000 ==> {
            let unit = pow2((23 - (bits as int / 0x80_0000 - 127)) as nat) as int;
            let value = 0x80_0000 + bits as int % 0x80_0000;
            &&& flag_shapes::grid_dimension(bits) matches Some(side)
            &&& 2 <= side <= 512
            &&& side * unit <= value < (side + 1) * unit
        },
{
    vstd::arithmetic::power2::lemma2_to64();
    let e = flag_shapes::exponent(bits);
    if 0x4000_0000 <= bits < 0x4480_0000 {
        let unit = pow2((23 - e) as nat) as int;
        let value = 0x80_0000 + bits as int % 0x80_0000;
        vstd::arithmetic::power2::lemma_pow2_pos((23 - e) as nat);
        let side = value / unit;
        vstd::arithmetic::div_mod::lemma_fundamental_div_mod(value, unit);
        vstd::arithmetic::div_mod::lemma_mod_bound(value, unit);
        assert(side * unit <= value < (side + 1) * unit) by (nonlinear_arith)
            requires
                value == unit * side + value % unit,
                0 <= value % unit < unit,
        ;
        assert(1 <= e <= 9);
        assert(e == 1 || e == 2 || e == 3 || e == 4 || e == 5 || e == 6 || e == 7 || e == 8 || e
            == 9);
        assert(flag_shapes::whole_part(bits) == side);
        if e == 9 {
            assert(unit == 0x4000);
        }
    }
}

/// A flag can be shown where both of its scales are finite and neither vanishes, and both of its
/// sides have points; rows and columns keep apart.
pub proof fn law_flags_need_a_size(scale: FlagScale)
    ensures
        match flag_shapes::grid_of(scale) {
            Some(grid) => flag_shapes::grid_dimension(scale.rows) == Some(grid.rows)
                && flag_shapes::grid_dimension(scale.cols) == Some(grid.cols)
                && has_size(scale.scale_y) && has_size(scale.scale_z),
            None => !has_size(scale.scale_y) || !has_size(scale.scale_z)
                || flag_shapes::grid_dimension(scale.rows) is None || flag_shapes::grid_dimension(
                scale.cols,
            ) is None,
        },
{
}

/// A number that is finite and larger than the step at one, whatever its sign.
pub open spec fn has_size(bits: u32) -> bool {
    0x3400_0000 < bits < 0x7f80_0000 || 0xb400_0000 < bits < 0xff80_0000
}

/// The phase of a flag comes of its name alone, byte by byte.
pub proof fn law_phases_come_byte_by_byte(bytes: Seq<u8>, byte: u8)
    ensures
        flag_shapes::fnv32(Seq::empty()) == 0x811c_9dc5,
        flag_shapes::fnv32(bytes.push(byte)) as int == ((flag_shapes::fnv32(bytes) ^ (
        byte as u32)) * 0x100_0193) % 0x1_0000_0000,
{
    assert(bytes.push(byte).drop_last() =~= bytes);
    assert(bytes.push(byte).last() == byte);
    let mixed = flag_shapes::fnv32(bytes) ^ (byte as u32);
    assert(mixed.wrapping_mul(16_777_619) as int == (mixed * 16_777_619) % 0x1_0000_0000);
}

/// The points of a flag lie column by column; the two triangles of a cell join its four corners.
pub proof fn law_cloth_is_woven_by_columns(grid: FlagGrid, start: int, column: int, row: int)
    requires
        2 <= grid.rows <= 512,
        2 <= grid.cols <= 512,
        0 <= start <= usize::MAX - 512 * 512,
        0 <= column < grid.cols - 1,
        0 <= row < grid.rows - 1,
    ensures
        ({
            let cloth = flag_shapes::flag_surface(grid, start);
            let at = 2 * (column * (grid.rows - 1) + row);
            let corner = start + column * grid.rows + row;
            &&& 0 <= at
            &&& at + 1 < cloth.len()
            &&& cloth[at].a == corner
            &&& cloth[at].b == corner + grid.rows
            &&& cloth[at].c == corner + 1
            &&& cloth[at + 1].a == corner + 1
            &&& cloth[at + 1].b == corner + grid.rows
            &&& cloth[at + 1].c == corner + grid.rows + 1
        }),
{
    grids::law_cells_are_cut_in_two(
        (grid.cols - 1) as nat,
        (grid.rows - 1) as nat,
        column,
        row,
    );
    let rows = grid.rows as int;
    assert((column + 1) * rows == column * rows + rows && 0 <= column * rows && column * rows <= 510
        * 512) by (nonlinear_arith)
        requires
            0 <= column <= 510,
            0 <= rows <= 512,
    ;
    assert(column * ((grid.rows - 1) as nat) == column * (grid.rows - 1));
    let all = grids::triangles((grid.cols - 1) as nat, (grid.rows - 1) as nat);
    let cloth = flag_shapes::flag_surface(grid, start);
    let at = 2 * (column * (grid.rows - 1) + row);
    assert(cloth.len() == all.len());
    assert(at + 1 < all.len());
    assert(cloth[at] == flag_shapes::flag_corners(grid, start, all[at]));
    assert(cloth[at + 1] == flag_shapes::flag_corners(grid, start, all[at + 1]));
    assert(all[at].a.outer * grid.rows == column * rows);
    assert(all[at].b.outer * grid.rows == (column + 1) * rows);
}

/// A flag's own points and triangles: as many as its grid has, all of its own model, the triangles
/// numbered from zero and drawn with its own cloth.
pub open spec fn is_shown(state: FlagState, flag: PreviewFlag) -> bool {
    let ranges = flag.ranges;
    &&& ranges.point_start <= ranges.point_end <= state.points.len()
    &&& ranges.triangle_start <= ranges.triangle_end <= state.triangles.len()
    &&& ranges.point_end - ranges.point_start == flag.grid.rows * flag.grid.cols
    &&& ranges.triangle_end - ranges.triangle_start == 2 * ((flag.grid.rows - 1) * (flag.grid.cols
        - 1))
    &&& forall|i: int|
        ranges.point_start <= i < ranges.point_end ==> (#[trigger] state.points[i])
            == flag.model_index
    &&& forall|i: int|
        ranges.triangle_start <= i < ranges.triangle_end ==> {
            let t = #[trigger] state.triangles[i];
            &&& t.model_index == flag.model_index
            &&& t.source == i - ranges.triangle_start
            &&& t.render_layer == PreviewRenderLayer::Main
            &&& t.combine_mode == J3dPreviewCombineMode::TextureOnly
            &&& t.cull_mode == Some(0u8)
        }
}

/// All flags of a preview are shown, each with a model of its own.
pub open spec fn all_shown(state: FlagState, first_model: int) -> bool {
    forall|i: int|
        0 <= i < state.flags.len() ==> is_shown(state, #[trigger] state.flags[i])
            && state.flags[i].model_index == first_model + i && state.models.len()
            == state.flags.len() && state.models[i].1 == first_model + i
}

/// The state fits the machine.
pub open spec fn fits(state: FlagState, source: FlagSource) -> bool {
    &&& state.points.len() <= usize::MAX
    &&& state.triangles.len() <= usize::MAX
    &&& source.first_model_index + state.flags.len() <= usize::MAX
    &&& state.models.len() == state.flags.len()
}

/// A flag that is added takes the points and triangles after all others, the next model, the name
/// of its object and the texture it was given; flags before it stay as they are.
pub proof fn law_flags_are_added_behind_the_others(
    state: FlagState,
    source: FlagSource,
    d: int,
    o: int,
    texture: FlagTexture,
    grid: FlagGrid,
)
    requires
        all_shown(state, source.first_model_index as int),
        2 <= grid.rows <= 512,
        2 <= grid.cols <= 512,
        0 <= d <= usize::MAX,
        0 <= o <= usize::MAX,
        fits(state, source),
        fits(preview_flags::with_flag(state, source, d, o, texture, grid), source),
    ensures
        ({
            let after = preview_flags::with_flag(state, source, d, o, texture, grid);
            let flag = after.flags.last();
            &&& all_shown(after, source.first_model_index as int)
            &&& after.flags.len() == state.flags.len() + 1
            &&& flag.definition == d
            &&& flag.object == o
            &&& flag.grid == grid
            &&& flag.ranges.point_start == state.points.len()
            &&& flag.ranges.triangle_start == state.triangles.len()
            &&& after.models.last().0 == source.objects@[o].id@
            &&& after.models.last().1 == flag.model_index
            &&& forall|i: int|
                state.triangles.len() <= i < after.triangles.len() ==> {
                    let t = #[trigger] after.triangles[i];
                    &&& t.texture_index == Some(texture.texture_index)
                    &&& t.material_index == Some(texture.material_index)
                    &&& t.packet_index == texture.packet_index
                }
            &&& after.named == state.named
            &&& after.preview_textures == state.preview_textures
            &&& after.preview_materials == state.preview_materials
        }),
{
    let after = preview_flags::with_flag(state, source, d, o, texture, grid);
    let (r, c) = (grid.rows as int, grid.cols as int);
    assert(r * c >= 0 && (r - 1) * (c - 1) >= 0) by (nonlinear_arith)
        requires
            r >= 2,
            c >= 2,
    ;
    assert forall|i: int| 0 <= i < after.flags.len() implies is_shown(
        after,
        #[trigger] after.flags[i],
    ) && after.flags[i].model_index == source.first_model_index + i && after.models.len()
        == after.flags.len() && after.models[i].1 == source.first_model_index + i by {
        if i < state.flags.len() {
            assert(after.flags[i] == state.flags[i]);
            assert(after.models[i] == state.models[i]);
            let flag = state.flags[i];
            assert(is_shown(state, flag));
            assert forall|j: int| flag.ranges.point_start <= j < flag.ranges.point_end implies (
            #[trigger] after.points[j]) == flag.model_index by {
                assert(after.points[j] == state.points[j]);
            }
            assert forall|j: int|
                flag.ranges.triangle_start <= j < flag.ranges.triangle_end implies ({
                let t = #[trigger] after.triangles[j];
                &&& t.model_index == flag.model_index
                &&& t.source == j - flag.ranges.triangle_start
                &&& t.render_layer == PreviewRenderLayer::Main
                &&& t.combine_mode == J3dPreviewCombineMode::TextureOnly
                &&& t.cull_mode == Some(0u8)
            }) by {
                assert(after.triangles[j] == state.triangles[j]);
            }
        }
    }
}

/// A cloth that is new to the stage gets a texture, a material over it and a packet of its own,
/// each behind those before it; one that is known, in any case of its name, is shared.
pub proof fn law_cloth_is_shared_by_name(
    state: FlagState,
    source: FlagSource,
    definition: MapObjFlagDefinition,
    resource: Seq<char>,
)
    requires
        state.preview_textures.len() < usize::MAX,
        state.preview_materials.len() < usize::MAX,
        source.first_packet_index + state.named.len() <= usize::MAX,
    ensures
        ({
            let known = exists|i: int|
                0 <= i < state.named.len() && (#[trigger] state.named[i]).0 == text::lower(resource);
            match preview_flags::textured(state, source, definition, resource) {
                Some((next, texture)) => {
                    &&& next.flags == state.flags
                    &&& next.points == state.points
                    &&& next.triangles == state.triangles
                    &&& known ==> next == state && exists|i: int|
                        0 <= i < state.named.len() && (#[trigger] state.named[i]).0 == text::lower(
                            resource,
                        ) && state.named[i].1 == texture
                    &&& !known ==> {
                        &&& next.named == state.named.push((text::lower(resource), texture))
                        &&& texture.texture_index == state.preview_textures.len()
                        &&& texture.material_index == state.preview_materials.len()
                        &&& texture.packet_index == source.first_packet_index + state.named.len()
                        &&& next.preview_textures.len() == state.preview_textures.len() + 1
                        &&& next.preview_materials.len() == state.preview_materials.len() + 1
                        &&& next.preview_materials.last().name == "_runtime_flag_"@ + resource
                        &&& next.preview_materials.last().texture_indices[0] == Some(
                            texture.texture_index,
                        )
                        &&& exists|i: int|
                            #![trigger source.assets@[i]]
                            0 <= i < source.assets@.len() && (source.decoded@[i] matches Some(
                                decoded,
                            ) && next.preview_textures.last() == preview_textures::preview_of(
                                decoded,
                            ))
                    }
                },
                None => !known,
            }
        }),
{
    let key = preview_flags::goes_by(text::lower(resource));
    search::lemma_first_position(state.named, key);
    let found = search::first_position(state.named, key);
    if found is Some {
        assert(key(state.named[found->0]));
    } else {
        assert forall|i: int| 0 <= i < state.named.len() implies (#[trigger] state.named[i]).0
            != text::lower(resource) by {
            assert(!key(state.named[i]));
        }
        let place = flag_shapes::texture_position(source.assets@, definition, resource);
        if place is Some {
            search::lemma_first_position(
                source.assets@,
                crate::preview_assets::ends_asset(
                    crate::stage::StageAssetKind::Texture,
                    text::lower(flag_shapes::texture_path(definition, resource)),
                ),
            );
            assert(0 <= place->0 < source.assets@.len());
            let a = source.assets@[place->0];
        }
    }
}

/// An object flies a flag where it is of the flag's class, names a registered texture, its texture
/// can be had, the class turns and the flag has a size; any other leaves the flags as they are.
pub proof fn law_only_flags_fly(state: FlagState, source: FlagSource, d: int, o: int)
    ensures
        ({
            let definition = source.definitions@[d];
            let object = source.objects@[o];
            let after = preview_flags::with_object(state, source, d, o);
            let flies = object.factory_name@ == definition.factory_name@ && (
            flag_shapes::resource_of(object, definition) matches Some(resource)
                && flag_shapes::is_registered(definition, resource) && preview_flags::textured(
                state,
                source,
                definition,
                resource,
            ) is Some) && definition.phase_wrap_degrees != 0 && flag_shapes::grid_of(
                source.scales@[o],
            ) is Some;
            &&& flies ==> after.flags.len() == state.flags.len() + 1 && after.flags.last().grid
                == flag_shapes::grid_of(source.scales@[o])->0
            &&& !flies ==> after.flags == state.flags && after.points == state.points
                && after.triangles == state.triangles && after.models == state.models
        }),
{
}

/// A flag that is shown can be moved: its ranges are as long as its grid asks for.
pub proof fn law_shown_flags_can_be_moved(state: FlagState, flag: PreviewFlag)
    requires
        is_shown(state, flag),
        flag.grid.rows >= 2,
        flag.grid.cols >= 2,
    ensures
        flag_shapes::ranges_fit(
            flag.grid,
            flag.ranges,
            state.points.len() as int,
            state.triangles.len() as int,
        ),
{
    let r = flag.grid.rows as int;
    let c = flag.grid.cols as int;
    assert((r - 1) * (c - 1) * 2 == 2 * ((r - 1) * (c - 1))) by (nonlinear_arith);
    assert(r * c >= 0 && (r - 1) * (c - 1) >= 0) by (nonlinear_arith)
        requires
            r >= 2,
            c >= 2,
    ;
}

} // verus!
