//! Flags: which texture they show, how fast they flutter, and the grid that moves.
use vstd::prelude::*;

use crate::grids;
use crate::paths;
use crate::paths::PathComponent;
use crate::preview_assets;
use crate::registry::{MapObjFlagAreaSpeed, MapObjFlagDefinition};
use crate::search;
use crate::stage::{SceneObject, StageAsset, StageAssetKind};
use crate::stage_table;
use crate::text;

verus! {

/// The most points along one side of a flag.
pub const MAX_FLAG_GRID_DIMENSION: usize = 512;

/// The parameter that names a flag's texture.
pub open spec fn resource_key(definition: MapObjFlagDefinition) -> Seq<char> {
    "stream_string_"@ + text::decimal(definition.resource_name_stream_index as nat)
}

/// The name of a flag's texture. The first text of a flag's own follows the texts that every
/// actor has, so for index 0 it is looked for there first.
pub open spec fn resource_of(object: SceneObject, definition: MapObjFlagDefinition) -> Option<
    Seq<char>,
> {
    let keyed = object.param(resource_key(definition));
    if definition.resource_name_stream_index == 0 {
        match object.param("actor_tail_string"@) {
            Some(name) => Some(name),
            None => keyed,
        }
    } else {
        keyed
    }
}

/// The name of a flag's texture.
pub fn flag_resource_name<'a>(object: &'a SceneObject, definition: &MapObjFlagDefinition) -> (r:
    Option<&'a str>)
    ensures
        match r {
            Some(name) => resource_of(*object, *definition) == Some(name@),
            None => resource_of(*object, *definition) is None,
        },
{
    let mut key = "stream_string_".to_owned();
    let number = text::decimal_text(definition.resource_name_stream_index as u128);
    key.append(number.as_str());
    if definition.resource_name_stream_index == 0 {
        match object.raw_param("actor_tail_string") {
            Some(name) => Some(name),
            None => object.raw_param(key.as_str()),
        }
    } else {
        object.raw_param(key.as_str())
    }
}

/// Whether the object is a flag of this class. Case counts.
pub fn flag_definition_matches_object(object: &SceneObject, definition: &MapObjFlagDefinition) -> (r:
    bool)
    ensures
        r == (object.factory_name@ == definition.factory_name@),
{
    text::same(object.factory_name.as_str(), definition.factory_name.as_str())
}

/// The path of a flag's texture inside the scene archive.
pub open spec fn texture_path(definition: MapObjFlagDefinition, resource: Seq<char>) -> Seq<char> {
    let full = text::with_replaced(
        text::with_first_replaced(definition.texture_path_pattern@, "%s"@, resource),
        '\\',
        '/',
    );
    let inner = if "/scene"@.is_prefix_of(full) {
        full.skip("/scene"@.len() as int)
    } else {
        full
    };
    text::lower(inner)
}

/// Where a flag's texture stands among the assets.
pub open spec fn texture_position(
    assets: Seq<StageAsset>,
    definition: MapObjFlagDefinition,
    resource: Seq<char>,
) -> Option<int> {
    search::first_position(
        assets,
        preview_assets::ends_asset(
            StageAssetKind::Texture,
            text::lower(texture_path(definition, resource)),
        ),
    )
}

/// Finds a flag's texture among the assets.
pub fn find_flag_texture_asset(
    assets: &[StageAsset],
    definition: &MapObjFlagDefinition,
    resource_name: &str,
) -> (r: Option<usize>)
    ensures
        match r {
            Some(i) => i < assets@.len() && texture_position(assets@, *definition, resource_name@)
                == Some(i as int),
            None => texture_position(assets@, *definition, resource_name@) is None,
        },
{
    let named = text::replace_first(definition.texture_path_pattern.as_str(), "%s", resource_name);
    let full = text::replaced(named.as_str(), '\\', '/');
    let inner = if text::starts_with(full.as_str(), "/scene") {
        let prefix: usize = "/scene".unicode_len();
        text::skip_text(full.as_str(), prefix)
    } else {
        full
    };
    let folded = text::to_lower(inner.as_str());
    preview_assets::find_stage_asset_by_suffix(assets, StageAssetKind::Texture, folded.as_str())
}

/// The texture is one that the game registers for this class, up to case.
pub open spec fn is_registered(definition: MapObjFlagDefinition, resource: Seq<char>) -> bool {
    exists|i: int|
        0 <= i < definition.registered_texture_names@.len() && text::same_ignoring_case(
            (#[trigger] definition.registered_texture_names@[i])@,
            resource,
        )
}

/// Whether the texture is one that the game registers for this class, up to case.
pub fn texture_is_registered(definition: &MapObjFlagDefinition, resource_name: &str) -> (r: bool)
    ensures
        r == is_registered(*definition, resource_name@),
{
    let mut i: usize = 0;
    while i < definition.registered_texture_names.len()
        invariant
            i <= definition.registered_texture_names.len(),
            forall|j: int|
                0 <= j < i ==> !text::same_ignoring_case(
                    (#[trigger] definition.registered_texture_names@[j])@,
                    resource_name@,
                ),
        decreases definition.registered_texture_names.len() - i,
    {
        if text::eq_ignoring_case(
            definition.registered_texture_names[i].as_str(),
            resource_name,
        ) {
            return true;
        }
        i += 1;
    }
    false
}

/// The part of the table's path below the game's root.
pub fn flag_table_path(definition: &MapObjFlagDefinition) -> (r: String)
    ensures
        r@ == without_separators(definition.stage_archive_table_path@),
{
    let chars = text::chars_of(definition.stage_archive_table_path.as_str());
    let ghost s = definition.stage_archive_table_path@;
    let mut i: usize = 0;
    proof {
        assert(s.skip(0) =~= s);
    }
    while i < chars.len() && (chars[i] == '/' || chars[i] == '\\')
        invariant
            i <= chars.len(),
            chars@ == s,
            without_separators(s) == without_separators(s.skip(i as int)),
        decreases chars.len() - i,
    {
        proof {
            assert(s.skip(i as int).drop_first() =~= s.skip(i + 1));
        }
        i += 1;
    }
    text::skip_text(definition.stage_archive_table_path.as_str(), i)
}

/// A path from its first character that is no separator on.
pub open spec fn without_separators(path: Seq<char>) -> Seq<char>
    decreases path.len(),
{
    if path.len() > 0 && (path[0] == '/' || path[0] == '\\') {
        without_separators(path.drop_first())
    } else {
        path
    }
}

/// An archive of the stage table and the area that loads it.
#[derive(Debug)]
pub struct AreaArchive {
    pub archive: Vec<PathComponent>,
    pub area_index: u32,
}

/// The archive is that of the stage, up to case.
pub open spec fn is_archive_of(stage: Seq<char>) -> spec_fn(AreaArchive) -> bool {
    |entry: AreaArchive|
        match stage_table::source_stem(paths::path_view(entry.archive@)) {
            Some(stem) => text::same_ignoring_case(stem, stage),
            None => false,
        }
}

/// The area of the stage in the table, if there is a table.
pub open spec fn area_of(table: Option<&Vec<AreaArchive>>, stage: Seq<char>) -> Option<u32> {
    match table {
        Some(entries) => match search::first_position(entries@, is_archive_of(stage)) {
            Some(i) => Some(entries@[i].area_index),
            None => None,
        },
        None => None,
    }
}

/// The area of the stage in the table, if there is a table.
pub fn runtime_stage_area_index(table: Option<&Vec<AreaArchive>>, stage_id: &str) -> (r: Option<
    u32,
>)
    ensures
        r == area_of(table, stage_id@),
{
    let entries = match table {
        Some(entries) => entries,
        None => {
            return None;
        },
    };
    let mut i: usize = 0;
    while i < entries.len()
        invariant
            i <= entries.len(),
            table == Some(entries),
            forall|j: int| 0 <= j < i ==> !is_archive_of(stage_id@)(#[trigger] entries@[j]),
        decreases entries.len() - i,
    {
        let found: bool = match stage_table::find_source_stem(entries[i].archive.as_slice()) {
            Some(stem) => text::eq_ignoring_case(stem.as_str(), stage_id),
            None => false,
        };
        if found {
            proof {
                search::lemma_found(entries@, is_archive_of(stage_id@), i as int);
            }
            return Some(entries[i].area_index);
        }
        i += 1;
    }
    proof {
        search::lemma_not_found(entries@, is_archive_of(stage_id@));
    }
    None
}

/// The speed is that of the area.
pub open spec fn is_speed_of(area: u32) -> spec_fn(MapObjFlagAreaSpeed) -> bool {
    |speed: MapObjFlagAreaSpeed| speed.area_index == area
}

/// How fast flags flutter, in degrees per frame.
pub open spec fn flutter_speed(definition: MapObjFlagDefinition, area: Option<u32>) -> u32 {
    match area {
        Some(area) => match search::first_position(
            definition.area_flutter_speeds@,
            is_speed_of(area),
        ) {
            Some(i) => definition.area_flutter_speeds@[i].degrees_per_frame,
            None => definition.default_flutter_speed_degrees_per_frame,
        },
        None => definition.default_flutter_speed_degrees_per_frame,
    }
}

/// How fast flags flutter, in degrees per frame.
pub fn runtime_flag_flutter_speed(definition: &MapObjFlagDefinition, area_index: Option<u32>) -> (r:
    u32)
    ensures
        r == flutter_speed(*definition, area_index),
{
    let area: u32 = match area_index {
        Some(area) => area,
        None => {
            return definition.default_flutter_speed_degrees_per_frame;
        },
    };
    let mut i: usize = 0;
    while i < definition.area_flutter_speeds.len()
        invariant
            i <= definition.area_flutter_speeds.len(),
            area_index == Some(area),
            forall|j: int|
                0 <= j < i ==> !is_speed_of(area)(#[trigger] definition.area_flutter_speeds@[j]),
        decreases definition.area_flutter_speeds.len() - i,
    {
        if definition.area_flutter_speeds[i].area_index == area {
            proof {
                search::lemma_found(definition.area_flutter_speeds@, is_speed_of(area), i as int);
            }
            return definition.area_flutter_speeds[i].degrees_per_frame;
        }
        i += 1;
    }
    proof {
        search::lemma_not_found(definition.area_flutter_speeds@, is_speed_of(area));
    }
    definition.default_flutter_speed_degrees_per_frame
}

/// The exponent of a 32-bit float, without its bias.
pub open spec fn exponent(bits: u32) -> int {
    bits as int / 0x80_0000 - 127
}

/// The whole part of a 32-bit float from 1 up to what 24 bits hold.
pub open spec fn whole_part(bits: u32) -> int {
    (0x80_0000 + bits as int % 0x80_0000) / vstd::arithmetic::power2::pow2((23 - exponent(bits)) as nat) as int
}

/// The number of points along a side, from the bits of the number that the side asks for: its
/// whole part, 3 where it asks for less than 2, and none where it is too many or not finite.
pub open spec fn grid_dimension(bits: u32) -> Option<usize> {
    if bits >= 0x8000_0000 {
        if bits < 0xff80_0000 {
            Some(3)
        } else {
            None
        }
    } else if bits < 0x4000_0000 {
        Some(3)
    } else if bits >= 0x4480_0000 || whole_part(bits) > MAX_FLAG_GRID_DIMENSION {
        None
    } else {
        Some(whole_part(bits) as usize)
    }
}

/// The number of points along a side, from the bits of the number that the side asks for.
pub fn retail_flag_grid_dimension(bits: u32) -> (r: Option<usize>)
    ensures
        r == grid_dimension(bits),
        r matches Some(n) ==> 2 <= n <= MAX_FLAG_GRID_DIMENSION,
{
    if bits >= 0x8000_0000 {
        return if bits < 0xff80_0000 {
            Some(3)
        } else {
            None
        };
    }
    if bits < 0x4000_0000 {
        return Some(3);
    }
    if bits >= 0x4480_0000 {
        return None;
    }
    let scale: u32 = 150 - bits / 0x80_0000;
    let digits: u32 = 0x80_0000 + bits % 0x80_0000;
    let whole: u32 = digits >> scale;
    proof {
        assert(128 <= bits / 0x80_0000 <= 136);
        assert(14 <= scale <= 22);
        vstd::bits::lemma_u32_shr_is_div(digits, scale);
        assert(scale == 23 - exponent(bits));
        assert(digits >> scale >= 2 && digits >> scale < 1024) by (bit_vector)
            requires
                14 <= scale <= 22,
                0x80_0000 <= digits < 0x100_0000,
        ;
    }
    if whole as usize > MAX_FLAG_GRID_DIMENSION {
        None
    } else {
        Some(whole as usize)
    }
}

/// What the scale of an object says about its flag, as the bits of 32-bit floats.
#[derive(Debug, Clone, Copy, PartialEq, Eq, Structural)]
pub struct FlagScale {
    pub scale_y: u32,
    pub scale_z: u32,
    /// How many rows the scaled height asks for.
    pub rows: u32,
    /// How many columns the scaled width asks for.
    pub cols: u32,
}

/// The grid of a flag.
#[derive(Debug, Clone, Copy, PartialEq, Eq, Structural)]
pub struct FlagGrid {
    pub rows: usize,
    pub cols: usize,
}

/// A finite number that differs from zero by more than the spacing of floats at 1.
pub open spec fn is_usable_scale(bits: u32) -> bool {
    let size = bits as int % 0x8000_0000;
    0x3400_0000 < size < 0x7f80_0000
}

/// The grid of a flag, if its scale allows one.
pub open spec fn grid_of(scale: FlagScale) -> Option<FlagGrid> {
    if !is_usable_scale(scale.scale_y) || !is_usable_scale(scale.scale_z) {
        None
    } else {
        match (grid_dimension(scale.rows), grid_dimension(scale.cols)) {
            (Some(rows), Some(cols)) => Some(FlagGrid { rows, cols }),
            _ => None,
        }
    }
}

/// The grid of a flag, if its scale allows one; a class whose phase never wraps has none.
pub fn build_flag_animation(scale: FlagScale, phase_wrap_degrees: u32) -> (r: Option<FlagGrid>)
    ensures
        r == (if phase_wrap_degrees == 0 {
            None
        } else {
            grid_of(scale)
        }),
        r matches Some(grid) ==> 2 <= grid.rows <= MAX_FLAG_GRID_DIMENSION && 2 <= grid.cols
            <= MAX_FLAG_GRID_DIMENSION,
{
    let y: u32 = scale.scale_y % 0x8000_0000;
    let z: u32 = scale.scale_z % 0x8000_0000;
    if y <= 0x3400_0000 || y >= 0x7f80_0000 || z <= 0x3400_0000 || z >= 0x7f80_0000
        || phase_wrap_degrees == 0 {
        return None;
    }
    match (retail_flag_grid_dimension(scale.rows), retail_flag_grid_dimension(scale.cols)) {
        (Some(rows), Some(cols)) => Some(FlagGrid { rows, cols }),
        _ => None,
    }
}

/// One step of the 32-bit FNV-1a hash.
pub open spec fn fnv32_step(hash: u32, byte: u8) -> u32 {
    (hash ^ (byte as u32)).wrapping_mul(16_777_619)
}

/// The 32-bit FNV-1a hash of bytes.
pub open spec fn fnv32(bytes: Seq<u8>) -> u32
    decreases bytes.len(),
{
    if bytes.len() == 0 {
        2_166_136_261
    } else {
        fnv32_step(fnv32(bytes.drop_last()), bytes.last())
    }
}

/// Where in its swing a flag starts, in degrees: the same in every run.
pub fn stable_flag_phase(id: &str) -> (r: u32)
    ensures
        r == fnv32(vstd::utf8::encode_utf8(id@)) % 360,
{
    let bytes = id.as_bytes_vec();
    let mut hash: u32 = 2_166_136_261;
    let mut i: usize = 0;
    while i < bytes.len()
        invariant
            i <= bytes.len(),
            hash == fnv32(bytes@.take(i as int)),
        decreases bytes.len() - i,
    {
        proof {
            assert(bytes@.take(i + 1).drop_last() =~= bytes@.take(i as int));
            assert(bytes@.take(i + 1).last() == bytes@[i as int]);
        }
        hash = (hash ^ bytes[i] as u32).wrapping_mul(16_777_619);
        i += 1;
    }
    proof {
        assert(bytes@.take(i as int) =~= bytes@);
    }
    hash % 360
}

/// Where a flag's points and triangles lie in the preview.
#[derive(Debug, Clone, Copy, PartialEq, Eq, Structural)]
pub struct FlagRanges {
    pub point_start: usize,
    pub point_end: usize,
    pub triangle_start: usize,
    pub triangle_end: usize,
}

/// How many places lie in a range.
pub open spec fn span(start: usize, end: usize) -> int {
    if start < end {
        end - start
    } else {
        0
    }
}

/// The ranges fit the grid and lie in the preview.
pub open spec fn ranges_fit(grid: FlagGrid, ranges: FlagRanges, points: int, triangles: int) -> bool {
    &&& span(ranges.point_start, ranges.point_end) == grid.rows * grid.cols
    &&& span(ranges.triangle_start, ranges.triangle_end) == (grid.rows - 1) * (grid.cols - 1) * 2
    &&& ranges.point_end <= points
    &&& ranges.triangle_end <= triangles
}

/// The points of a triangle of a flag.
#[derive(Debug, Clone, Copy, PartialEq, Eq, Structural)]
pub struct FlagTriangle {
    pub a: usize,
    pub b: usize,
    pub c: usize,
}

/// The place of a grid point in the preview.
pub open spec fn point_place(grid: FlagGrid, start: int, at: grids::GridPoint) -> int {
    start + at.outer * grid.rows + at.inner
}

/// The points of a triangle of a flag.
pub open spec fn flag_corners(grid: FlagGrid, start: int, at: grids::GridTriangle) -> FlagTriangle {
    FlagTriangle {
        a: point_place(grid, start, at.a) as usize,
        b: point_place(grid, start, at.b) as usize,
        c: point_place(grid, start, at.c) as usize,
    }
}

/// The points of the triangles of a flag: columns are the outer direction of its grid.
pub open spec fn flag_surface(grid: FlagGrid, start: int) -> Seq<FlagTriangle> {
    let all = grids::triangles((grid.cols - 1) as nat, (grid.rows - 1) as nat);
    Seq::new(all.len(), |i: int| flag_corners(grid, start, all[i]))
}

fn place_of(grid: FlagGrid, start: usize, at: grids::GridPoint) -> (r: usize)
    requires
        at.outer < grid.cols,
        at.inner < grid.rows,
        start + grid.rows * grid.cols <= usize::MAX,
    ensures
        r == point_place(grid, start as int, at),
        r < start + grid.rows * grid.cols,
{
    proof {
        let (o, i, rows, cols) = (
            at.outer as int,
            at.inner as int,
            grid.rows as int,
            grid.cols as int,
        );
        assert(o * rows + i < rows * cols) by (nonlinear_arith)
            requires
                0 <= o < cols,
                0 <= i < rows,
        ;
        assert(0 <= o * rows) by (nonlinear_arith)
            requires
                0 <= o,
                0 <= i < rows,
        ;
    }
    start + at.outer * grid.rows + at.inner
}

/// The triangle lies in the grid.
pub open spec fn in_grid(triangle: grids::GridTriangle, outer: int, inner: int) -> bool {
    &&& triangle.a.outer < outer && triangle.a.inner < inner
    &&& triangle.b.outer < outer && triangle.b.inner < inner
    &&& triangle.c.outer < outer && triangle.c.inner < inner
}

proof fn lemma_row_in_grid(at: int, n: nat)
    requires
        0 <= at,
        at + 1 <= usize::MAX,
        n + 1 <= usize::MAX,
    ensures
        forall|i: int|
            0 <= i < grids::row_triangles(at, n).len() ==> in_grid(
                #[trigger] grids::row_triangles(at, n)[i],
                at + 2,
                n as int + 1,
            ),
    decreases n,
{
    if n > 0 {
        lemma_row_in_grid(at, (n - 1) as nat);
        let rest = grids::row_triangles(at, (n - 1) as nat);
        let all = grids::row_triangles(at, n);
        assert forall|i: int| 0 <= i < all.len() implies in_grid(
            #[trigger] all[i],
            at + 2,
            n as int + 1,
        ) by {
            if i < rest.len() {
                assert(all[i] == rest[i]);
            }
        }
    }
}

proof fn lemma_all_in_grid(outer: nat, inner: nat)
    requires
        outer + 1 <= usize::MAX,
        inner + 1 <= usize::MAX,
    ensures
        forall|i: int|
            0 <= i < grids::triangles(outer, inner).len() ==> in_grid(
                #[trigger] grids::triangles(outer, inner)[i],
                outer as int + 1,
                inner as int + 1,
            ),
    decreases outer,
{
    if outer > 0 {
        lemma_all_in_grid((outer - 1) as nat, inner);
        lemma_row_in_grid(outer - 1, inner);
        let rest = grids::triangles((outer - 1) as nat, inner);
        let row = grids::row_triangles(outer - 1, inner);
        let all = grids::triangles(outer, inner);
        assert forall|i: int| 0 <= i < all.len() implies in_grid(
            #[trigger] all[i],
            outer as int + 1,
            inner as int + 1,
        ) by {
            if i < rest.len() {
                assert(all[i] == rest[i]);
            } else {
                assert(all[i] == row[i - rest.len()]);
            }
        }
    }
}

/// Which points each triangle of a moving flag takes its corners from; nothing where the flag's
/// ranges do not fit its grid or the preview.
pub fn animate_flag_preview(grid: FlagGrid, ranges: FlagRanges, points: usize, triangles: usize) -> (r:
    Option<Vec<FlagTriangle>>)
    requires
        2 <= grid.rows <= MAX_FLAG_GRID_DIMENSION,
        2 <= grid.cols <= MAX_FLAG_GRID_DIMENSION,
    ensures
        match r {
            Some(list) => ranges_fit(grid, ranges, points as int, triangles as int) && list@
                == flag_surface(grid, ranges.point_start as int),
            None => !ranges_fit(grid, ranges, points as int, triangles as int),
        },
{
    let (rows, cols): (usize, usize) = (grid.rows, grid.cols);
    proof {
        assert(rows * cols <= 512 * 512) by (nonlinear_arith)
            requires
                rows <= 512,
                cols <= 512,
        ;
        assert(0 <= (rows - 1) * (cols - 1) <= 512 * 512) by (nonlinear_arith)
            requires
                1 <= rows <= 512,
                1 <= cols <= 512,
        ;
    }
    let point_span: usize = if ranges.point_start < ranges.point_end {
        ranges.point_end - ranges.point_start
    } else {
        0
    };
    let triangle_span: usize = if ranges.triangle_start < ranges.triangle_end {
        ranges.triangle_end - ranges.triangle_start
    } else {
        0
    };
    if point_span != rows * cols || triangle_span != (rows - 1) * (cols - 1) * 2
        || ranges.point_end > points || ranges.triangle_end > triangles {
        return None;
    }
    let cells = grids::grid_triangles(cols - 1, rows - 1);
    let start: usize = ranges.point_start;
    proof {
        lemma_all_in_grid((cols - 1) as nat, (rows - 1) as nat);
        assert(rows * cols > 0) by (nonlinear_arith)
            requires
                rows > 0,
                cols > 0,
        ;
        assert(start + rows * cols <= usize::MAX);
    }
    let mut list: Vec<FlagTriangle> = Vec::new();
    let mut i: usize = 0;
    while i < cells.len()
        invariant
            i <= cells.len(),
            rows == grid.rows,
            cols == grid.cols,
            start + rows * cols <= usize::MAX,
            cells@ == grids::triangles((cols - 1) as nat, (rows - 1) as nat),
            forall|j: int|
                0 <= j < cells@.len() ==> in_grid(
                    #[trigger] cells@[j],
                    cols as int,
                    rows as int,
                ),
            list@ == flag_surface(grid, start as int).take(i as int),
        decreases cells.len() - i,
    {
        let cell = cells[i];
        proof {
            assert(in_grid(cells@[i as int], cols as int, rows as int));
        }
        list.push(
            FlagTriangle {
                a: place_of(grid, start, cell.a),
                b: place_of(grid, start, cell.b),
                c: place_of(grid, start, cell.c),
            },
        );
        i += 1;
        proof {
            assert(list@ =~= flag_surface(grid, start as int).take(i as int));
        }
    }
    proof {
        assert(flag_surface(grid, start as int).take(i as int) =~= flag_surface(
            grid,
            start as int,
        ));
    }
    Some(list)
}

/// A moving flag takes its corners from its own points only.
pub proof fn law_flags_move_their_own_points(
    grid: FlagGrid,
    ranges: FlagRanges,
    points: usize,
    triangles: usize,
    i: int,
)
    requires
        2 <= grid.rows <= MAX_FLAG_GRID_DIMENSION,
        2 <= grid.cols <= MAX_FLAG_GRID_DIMENSION,
        ranges_fit(grid, ranges, points as int, triangles as int),
        0 <= i < flag_surface(grid, ranges.point_start as int).len(),
    ensures
        ({
            let corner = flag_surface(grid, ranges.point_start as int)[i];
            &&& ranges.point_start <= corner.a < ranges.point_end
            &&& ranges.point_start <= corner.b < ranges.point_end
            &&& ranges.point_start <= corner.c < ranges.point_end
        }),
{
    let all = grids::triangles((grid.cols - 1) as nat, (grid.rows - 1) as nat);
    lemma_all_in_grid((grid.cols - 1) as nat, (grid.rows - 1) as nat);
    assert(in_grid(all[i], grid.cols as int, grid.rows as int));
    lemma_place_in_range(grid, all[i].a);
    lemma_place_in_range(grid, all[i].b);
    lemma_place_in_range(grid, all[i].c);
}

proof fn lemma_place_in_range(grid: FlagGrid, at: grids::GridPoint)
    requires
        at.outer < grid.cols,
        at.inner < grid.rows,
    ensures
        0 <= at.outer * grid.rows + at.inner < grid.rows * grid.cols,
{
    let (o, i, rows, cols) = (at.outer as int, at.inner as int, grid.rows as int, grid.cols as int);
    assert(0 <= o * rows + i < rows * cols) by (nonlinear_arith)
        requires
            0 <= o < cols,
            0 <= i < rows,
    ;
}

} // verus!
