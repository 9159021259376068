//! Wires: the tables that place them and the style that they are drawn in.
use vstd::prelude::*;

use crate::jdrama::VectorBits;
use crate::preview::Rgba;
use crate::preview_assets;
use crate::search;
use crate::stage::{StageAsset, StageAssetKind};
use crate::text;

verus! {

/// The most points inside a wire.
pub const MAX_WIRE_POINTS: usize = 4096;

/// A box of a table. Components are the bits of 32-bit floats.
#[derive(Debug, Clone, Copy, PartialEq, Eq, Structural)]
pub struct CubeGeneralInfo {
    pub center: VectorBits,
    pub rotation_degrees: VectorBits,
    pub dimensions: VectorBits,
}

/// A wire: it spans the length of its box.
#[derive(Debug, Clone, Copy, PartialEq, Eq, Structural)]
pub struct WireDefinition {
    pub center: VectorBits,
    pub rotation_degrees: VectorBits,
    pub dimensions: VectorBits,
}

/// How wires are drawn. Width and height are the bits of 32-bit floats.
#[derive(Debug, Clone, Copy, PartialEq, Eq, Structural)]
pub struct WireStyle {
    pub draw_width: u32,
    pub draw_height: u32,
    pub upper_surface: Rgba,
    pub lower_surface: Rgba,
}

/// A record of a placement file, as far as it concerns wires.
#[derive(Debug)]
pub struct WireRecord {
    pub record_type: String,
    pub object_name: Option<String>,
    pub offset: usize,
    pub size: usize,
    pub cube_general_info: Option<CubeGeneralInfo>,
    pub map_wire_manager: Option<WireStyle>,
}

/// The box is a wire: all its numbers are finite and it is longer than 50 and at most a million.
pub open spec fn is_wire(info: CubeGeneralInfo) -> bool {
    &&& info.center.finite()
    &&& info.rotation_degrees.finite()
    &&& info.dimensions.finite()
    &&& 0x4248_0000 < info.dimensions.z <= 0x4974_2400
}

/// The wire of a box, if it is one.
pub fn wire_definition_from_cube(info: CubeGeneralInfo) -> (r: Option<WireDefinition>)
    ensures
        r == (if is_wire(info) {
            Some(
                WireDefinition {
                    center: info.center,
                    rotation_degrees: info.rotation_degrees,
                    dimensions: info.dimensions,
                },
            )
        } else {
            None
        }),
{
    if !info.center.is_finite() || !info.rotation_degrees.is_finite()
        || !info.dimensions.is_finite() || info.dimensions.z <= 0x4248_0000 || info.dimensions.z
        > 0x4974_2400 {
        None
    } else {
        Some(
            WireDefinition {
                center: info.center,
                rotation_degrees: info.rotation_degrees,
                dimensions: info.dimensions,
            },
        )
    }
}

/// How many points a wire has: its start, the points inside it up to their limit, and its end
/// where the last of them does not stand there already.
pub fn wire_point_count(interior: usize, end_apart: bool) -> (r: usize)
    ensures
        r == 1 + (if interior < MAX_WIRE_POINTS {
            interior
        } else {
            MAX_WIRE_POINTS
        }) + (if end_apart {
            1int
        } else {
            0
        }),
{
    let inside: usize = if interior < MAX_WIRE_POINTS {
        interior
    } else {
        MAX_WIRE_POINTS
    };
    if end_apart {
        inside + 2
    } else {
        inside + 1
    }
}

/// The last part of a qualified type name.
pub open spec fn short_type(record: WireRecord) -> Seq<char> {
    text::after_last_pattern(record.record_type@, "::"@)
}

/// The record is the table of wires.
pub open spec fn is_wire_table(record: WireRecord) -> bool {
    short_type(record) == "CubeGeneralInfoTable"@ && (record.object_name matches Some(name) && name@
        == "ワイヤーキューブテーブル"@)
}

/// The record lies inside a table.
pub open spec fn lies_in(record: WireRecord, table: WireRecord) -> bool {
    record.offset > table.offset && record.offset + record.size <= table.offset + table.size
}

/// The record lies inside a table of wires.
pub open spec fn lies_in_wire_table(records: Seq<WireRecord>, record: WireRecord) -> bool {
    exists|t: int|
        0 <= t < records.len() && is_wire_table(#[trigger] records[t]) && lies_in(
            record,
            records[t],
        )
}

/// The wire of a record, if it holds one.
pub open spec fn wire_of(records: Seq<WireRecord>, i: int) -> Option<WireDefinition> {
    let record = records[i];
    match record.cube_general_info {
        Some(info) => if short_type(record) == "CubeGeneralInfo"@ && lies_in_wire_table(
            records,
            record,
        ) && is_wire(info) {
            Some(
                WireDefinition {
                    center: info.center,
                    rotation_degrees: info.rotation_degrees,
                    dimensions: info.dimensions,
                },
            )
        } else {
            None
        },
        None => None,
    }
}

/// The wires of the first `n` records of a file.
pub open spec fn wires_in(records: Seq<WireRecord>, n: nat) -> Seq<WireDefinition>
    decreases n,
{
    if n == 0 {
        Seq::empty()
    } else {
        let rest = wires_in(records, (n - 1) as nat);
        match wire_of(records, n - 1) {
            Some(wire) => rest.push(wire),
            None => rest,
        }
    }
}

/// The wires of the first `n` files.
pub open spec fn wires(files: Seq<Vec<WireRecord>>, n: nat) -> Seq<WireDefinition>
    decreases n,
{
    if n == 0 {
        Seq::empty()
    } else {
        wires(files, (n - 1) as nat) + wires_in(files[n - 1]@, files[n - 1]@.len())
    }
}

/// Every record ends inside the machine's range.
pub open spec fn records_end(records: Seq<WireRecord>) -> bool {
    forall|i: int|
        0 <= i < records.len() ==> (#[trigger] records[i]).offset + records[i].size <= usize::MAX
}

/// The asset is a placement file of this name.
pub open spec fn is_placement_file(asset: StageAsset, suffix: Seq<char>) -> bool {
    preview_assets::ends_asset(StageAssetKind::Placement, suffix)(asset)
}

fn asset_is_placement_file(asset: &StageAsset, suffix: &str) -> (r: bool)
    ensures
        r == is_placement_file(*asset, suffix@),
{
    let path = text::to_lower(text::replaced(asset.path.as_str(), '\\', '/').as_str());
    asset.kind == StageAssetKind::Placement && text::ends_with(path.as_str(), suffix)
}

/// Whether an asset is the file of a stage's tables.
pub fn asset_is_table_file(asset: &StageAsset) -> (r: bool)
    ensures
        r == is_placement_file(*asset, "/map/tables.bin"@),
{
    asset_is_placement_file(asset, "/map/tables.bin")
}

/// Whether an asset is the file of a stage's objects.
pub fn asset_is_stage_file(asset: &StageAsset) -> (r: bool)
    ensures
        r == is_placement_file(*asset, "/map/scene.bin"@),
{
    asset_is_placement_file(asset, "/map/scene.bin")
}

fn record_is_wire_table(record: &WireRecord) -> (r: bool)
    ensures
        r == is_wire_table(*record),
{
    let short = text::tail_after_pattern(record.record_type.as_str(), "::");
    text::same(short.as_str(), "CubeGeneralInfoTable") && match &record.object_name {
        Some(name) => text::same(name.as_str(), "ワイヤーキューブテーブル"),
        None => false,
    }
}

fn record_lies_in_wire_table(records: &[WireRecord], i: usize) -> (r: bool)
    requires
        i < records@.len(),
        records_end(records@),
    ensures
        r == lies_in_wire_table(records@, records@[i as int]),
{
    let mut t: usize = 0;
    while t < records.len()
        invariant
            t <= records.len(),
            i < records@.len(),
            records_end(records@),
            forall|j: int|
                0 <= j < t ==> !(is_wire_table(#[trigger] records@[j]) && lies_in(
                    records@[i as int],
                    records@[j],
                )),
        decreases records.len() - t,
    {
        let table = &records[t];
        let record = &records[i];
        if record_is_wire_table(table) && record.offset > table.offset && record.offset
            + record.size <= table.offset + table.size {
            return true;
        }
        t += 1;
    }
    false
}

fn find_wire(records: &[WireRecord], i: usize) -> (r: Option<WireDefinition>)
    requires
        i < records@.len(),
        records_end(records@),
    ensures
        r == wire_of(records@, i as int),
{
    let record = &records[i];
    match record.cube_general_info {
        Some(info) => {
            let short = text::tail_after_pattern(record.record_type.as_str(), "::");
            if text::same(short.as_str(), "CubeGeneralInfo") && record_lies_in_wire_table(
                records,
                i,
            ) {
                wire_definition_from_cube(info)
            } else {
                None
            }
        },
        None => None,
    }
}

/// The wires of a stage: the boxes inside a table of wires, from every table file that could be
/// read, in their order.
pub fn load_wire_definitions(files: &[Vec<WireRecord>]) -> (r: Vec<WireDefinition>)
    requires
        forall|f: int| 0 <= f < files@.len() ==> records_end((#[trigger] files@[f])@),
    ensures
        r@ == wires(files@, files@.len()),
{
    let mut r: Vec<WireDefinition> = Vec::new();
    let mut f: usize = 0;
    while f < files.len()
        invariant
            f <= files.len(),
            forall|g: int| 0 <= g < files@.len() ==> records_end((#[trigger] files@[g])@),
            r@ == wires(files@, f as nat),
        decreases files.len() - f,
    {
        let records = &files[f];
        let ghost before = r@;
        let mut i: usize = 0;
        proof {
            assert(before =~= before + wires_in(records@, 0));
        }
        while i < records.len()
            invariant
                i <= records.len(),
                records_end(records@),
                r@ == before + wires_in(records@, i as nat),
            decreases records.len() - i,
        {
            if let Some(wire) = find_wire(records.as_slice(), i) {
                r.push(wire);
            }
            i += 1;
            proof {
                assert(r@ =~= before + wires_in(records@, i as nat));
            }
        }
        f += 1;
    }
    r
}

/// A positive finite number.
pub open spec fn is_positive(bits: u32) -> bool {
    0 < bits < 0x7f80_0000
}

/// The style of the manager that a file holds, if there is one and it draws something.
pub open spec fn style_in(records: Seq<WireRecord>) -> Option<WireStyle> {
    match search::first_position(records, |record: WireRecord| record.map_wire_manager is Some) {
        Some(i) => {
            let style = records[i].map_wire_manager->Some_0;
            if is_positive(style.draw_width) && is_positive(style.draw_height) {
                Some(style)
            } else {
                None
            }
        },
        None => None,
    }
}

/// The style of wires where no manager says otherwise: width 5, height 6, grey.
pub open spec fn default_style() -> WireStyle {
    WireStyle {
        draw_width: 0x40a0_0000,
        draw_height: 0x40c0_0000,
        upper_surface: Rgba { r: 0x78, g: 0x78, b: 0x78, a: 0xff },
        lower_surface: Rgba { r: 0x32, g: 0x32, b: 0x32, a: 0xff },
    }
}

/// The style that the files from the `n`th on give.
pub open spec fn style_from(files: Seq<Vec<WireRecord>>, n: nat) -> WireStyle
    decreases files.len() - n,
{
    if n >= files.len() {
        default_style()
    } else {
        match style_in(files[n as int]@) {
            Some(style) => style,
            None => style_from(files, n + 1),
        }
    }
}

fn find_style(records: &[WireRecord]) -> (r: Option<WireStyle>)
    ensures
        r == style_in(records@),
{
    let ghost p = |record: WireRecord| record.map_wire_manager is Some;
    let mut i: usize = 0;
    while i < records.len()
        invariant
            i <= records.len(),
            p == (|record: WireRecord| record.map_wire_manager is Some),
            forall|j: int| 0 <= j < i ==> !p(#[trigger] records@[j]),
        decreases records.len() - i,
    {
        if let Some(style) = records[i].map_wire_manager {
            proof {
                search::lemma_found(records@, p, i as int);
            }
            return if 0 < style.draw_width && style.draw_width < 0x7f80_0000 && 0
                < style.draw_height && style.draw_height < 0x7f80_0000 {
                Some(style)
            } else {
                None
            };
        }
        i += 1;
    }
    proof {
        search::lemma_not_found(records@, p);
    }
    None
}

/// The style of a stage's wires: from the first scene file with a manager that draws something.
pub fn load_wire_style(files: &[Vec<WireRecord>]) -> (r: WireStyle)
    ensures
        r == style_from(files@, 0),
{
    let mut f: usize = 0;
    while f < files.len()
        invariant
            f <= files.len(),
            style_from(files@, 0) == style_from(files@, f as nat),
        decreases files.len() - f,
    {
        if let Some(style) = find_style(files[f].as_slice()) {
            return style;
        }
        f += 1;
    }
    WireStyle {
        draw_width: 0x40a0_0000,
        draw_height: 0x40c0_0000,
        upper_surface: Rgba { r: 0x78, g: 0x78, b: 0x78, a: 0xff },
        lower_surface: Rgba { r: 0x32, g: 0x32, b: 0x32, a: 0xff },
    }
}

/// Every wire that is loaded is finite, longer than 50 and at most a million long.
pub proof fn law_wires_are_finite(files: Seq<Vec<WireRecord>>, n: nat, i: int)
    requires
        n <= files.len(),
        0 <= i < wires(files, n).len(),
    ensures
        ({
            let wire = wires(files, n)[i];
            &&& wire.center.finite()
            &&& wire.rotation_degrees.finite()
            &&& wire.dimensions.finite()
            &&& 0x4248_0000 < wire.dimensions.z <= 0x4974_2400
        }),
    decreases n,
{
    if n > 0 {
        let rest = wires(files, (n - 1) as nat);
        if i < rest.len() {
            law_wires_are_finite(files, (n - 1) as nat, i);
            assert(wires(files, n)[i] == rest[i]);
        } else {
            let records = files[n - 1]@;
            lemma_wires_in_are_finite(records, records.len(), i - rest.len());
            assert(wires(files, n)[i] == wires_in(records, records.len())[i - rest.len()]);
        }
    }
}

proof fn lemma_wires_in_are_finite(records: Seq<WireRecord>, n: nat, i: int)
    requires
        n <= records.len(),
        0 <= i < wires_in(records, n).len(),
    ensures
        ({
            let wire = wires_in(records, n)[i];
            &&& wire.center.finite()
            &&& wire.rotation_degrees.finite()
            &&& wire.dimensions.finite()
            &&& 0x4248_0000 < wire.dimensions.z <= 0x4974_2400
        }),
    decreases n,
{
    if n > 0 {
        let rest = wires_in(records, (n - 1) as nat);
        if i < rest.len() {
            lemma_wires_in_are_finite(records, (n - 1) as nat, i);
            assert(wires_in(records, n)[i] == rest[i]);
        }
    }
}

} // verus!
