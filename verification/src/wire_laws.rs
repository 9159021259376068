//! Which wires a stage hangs up, and what they are made of.
use vstd::prelude::*;

use crate::preview::{
    J3dBlendMode, J3dPreviewCombineMode, J3dZMode, PreviewRenderLayer, PreviewTriangle, Rgba,
};
use crate::preview_wires;
use crate::preview_wires::{FittingBases, WirePart, WireSource, WireState};
use crate::search;
use crate::wire_tables;
use crate::wire_tables::{CubeGeneralInfo, WireDefinition, WireRecord, WireStyle};

verus! {

proof fn lemma_wires_in(records: Seq<WireRecord>, n: nat, wire: WireDefinition)
    ensures
        wire_tables::wires_in(records, n).contains(wire) <==> exists|i: int|
            0 <= i < n && #[trigger] wire_tables::wire_of(records, i) == Some(wire),
    decreases n,
{
    if n > 0 {
        let rest = wire_tables::wires_in(records, (n - 1) as nat);
        let all = wire_tables::wires_in(records, n);
        lemma_wires_in(records, (n - 1) as nat, wire);
        if rest.contains(wire) {
            let k = choose|k: int| 0 <= k < rest.len() && rest[k] == wire;
            assert(all[k] == wire);
        }
        if wire_tables::wire_of(records, n - 1) == Some(wire) {
            assert(all[rest.len() as int] == wire);
        }
        if all.contains(wire) && !rest.contains(wire) {
            let k = choose|k: int| 0 <= k < all.len() && all[k] == wire;
            if k < rest.len() {
                assert(rest[k] == wire);
            }
            assert(wire_tables::wire_of(records, n - 1) == Some(wire));
        }
    }
}

/// A cube that hangs up a wire: it lies in a table of wire cubes, is finite, and is longer than
/// fifty and no longer than a million along z.
pub open spec fn hangs(records: Seq<WireRecord>, i: int, t: int, info: CubeGeneralInfo) -> bool {
    &&& records[i].cube_general_info == Some(info)
    &&& wire_tables::short_type(records[i]) == "CubeGeneralInfo"@
    &&& wire_tables::short_type(records[t]) == "CubeGeneralInfoTable"@
    &&& records[t].object_name matches Some(name)
    &&& name@ == "ワイヤーキューブテーブル"@
    &&& records[t].offset < records[i].offset
    &&& records[i].offset + records[i].size <= records[t].offset + records[t].size
    &&& info.center.finite()
    &&& info.rotation_degrees.finite()
    &&& info.dimensions.finite()
    &&& 0x4248_0000 < info.dimensions.z <= 0x4974_2400
}

/// Every cube of a wire table hangs up a wire at its own place, in its own direction and of its
/// own size, and nothing else does.
pub proof fn law_wire_cubes_hang_up_wires(
    records: Seq<WireRecord>,
    i: int,
    t: int,
    info: CubeGeneralInfo,
    wire: WireDefinition,
)
    ensures
        0 <= i < records.len() && 0 <= t < records.len() && hangs(records, i, t, info)
            ==> wire_tables::wires_in(records, records.len()).contains(
            (WireDefinition {
                center: info.center,
                rotation_degrees: info.rotation_degrees,
                dimensions: info.dimensions,
            }),
        ),
        wire_tables::wires_in(records, records.len()).contains(wire) ==> exists|j: int, s: int|
            #![trigger records[j], records[s]]
            0 <= j < records.len() && 0 <= s < records.len() && (
            records[j].cube_general_info matches Some(found) && hangs(records, j, s, found)
                && found.center == wire.center && found.rotation_degrees == wire.rotation_degrees
                && found.dimensions == wire.dimensions),
{
    if 0 <= i < records.len() && 0 <= t < records.len() && hangs(records, i, t, info) {
        let hung = WireDefinition {
            center: info.center,
            rotation_degrees: info.rotation_degrees,
            dimensions: info.dimensions,
        };
        lemma_wires_in(records, records.len(), hung);
        assert(wire_tables::is_wire_table(records[t]));
        assert(wire_tables::wire_of(records, i) == Some(hung));
    }
    lemma_wires_in(records, records.len(), wire);
    if wire_tables::wires_in(records, records.len()).contains(wire) {
        let j = choose|j: int|
            0 <= j < records.len() && #[trigger] wire_tables::wire_of(records, j) == Some(wire);
        let s = choose|s: int|
            0 <= s < records.len() && wire_tables::is_wire_table(#[trigger] records[s])
                && wire_tables::lies_in(records[j], records[s]);
        let a = records[j];
        let b = records[s];
        assert(hangs(records, j, s, a.cube_general_info->0));
    }
}

/// The wires of all files come in the files' order.
pub proof fn law_wires_come_file_by_file(files: Seq<Vec<WireRecord>>, n: nat)
    requires
        n < files.len(),
    ensures
        wire_tables::wires(files, 0).len() == 0,
        wire_tables::wires(files, n + 1) == wire_tables::wires(files, n) + wire_tables::wires_in(
            files[n as int]@,
            files[n as int]@.len(),
        ),
{
}

/// The looks of wires: those of the first manager in the first file whose manager has a width and
/// a height, as it states them, and else five by six, grey above and dark grey below.
pub proof fn law_managers_style_the_wires(files: Seq<Vec<WireRecord>>, f: int, i: int)
    ensures
        (forall|g: int, j: int|
            #![trigger files[g]@[j]]
            0 <= g < files.len() && 0 <= j < files[g]@.len() ==> files[g]@[j].map_wire_manager
                is None) ==> wire_tables::style_from(files, 0) == (WireStyle {
            draw_width: 0x40a0_0000,
            draw_height: 0x40c0_0000,
            upper_surface: Rgba { r: 120, g: 120, b: 120, a: 255 },
            lower_surface: Rgba { r: 50, g: 50, b: 50, a: 255 },
        }),
        0 <= f < files.len() && 0 <= i < files[f]@.len() && (
        files[f]@[i].map_wire_manager matches Some(style) && 0 < style.draw_width < 0x7f80_0000
            && 0 < style.draw_height < 0x7f80_0000) && (forall|g: int, j: int|
            #![trigger files[g]@[j]]
            0 <= g < f && 0 <= j < files[g]@.len() ==> files[g]@[j].map_wire_manager is None) && (
        forall|j: int| 0 <= j < i ==> (#[trigger] files[f]@[j]).map_wire_manager is None)
            ==> wire_tables::style_from(files, 0) == files[f]@[i].map_wire_manager->0,
{
    if forall|g: int, j: int|
        #![trigger files[g]@[j]]
        0 <= g < files.len() && 0 <= j < files[g]@.len() ==> files[g]@[j].map_wire_manager
            is None {
        lemma_no_style(files, 0, files.len() as int);
        assert(wire_tables::style_from(files, files.len()) == wire_tables::default_style());
    }
    if 0 <= f < files.len() && 0 <= i < files[f]@.len() && (
    files[f]@[i].map_wire_manager matches Some(style) && 0 < style.draw_width < 0x7f80_0000 && 0
        < style.draw_height < 0x7f80_0000) && (forall|g: int, j: int|
        #![trigger files[g]@[j]]
        0 <= g < f && 0 <= j < files[g]@.len() ==> files[g]@[j].map_wire_manager is None) && (
    forall|j: int| 0 <= j < i ==> (#[trigger] files[f]@[j]).map_wire_manager is None) {
        lemma_no_style(files, 0, f);
        lemma_style_at(files[f]@, i);
    }
}

proof fn lemma_style_at(records: Seq<WireRecord>, i: int)
    requires
        0 <= i < records.len(),
        records[i].map_wire_manager is Some,
        forall|j: int| 0 <= j < i ==> (#[trigger] records[j]).map_wire_manager is None,
    ensures
        ({
            let style = records[i].map_wire_manager->0;
            wire_tables::style_in(records) == (if wire_tables::is_positive(style.draw_width)
                && wire_tables::is_positive(style.draw_height) {
                Some(style)
            } else {
                None
            })
        }),
{
    let manages = |record: WireRecord| record.map_wire_manager is Some;
    search::lemma_first_position(records, manages);
    let found = search::first_position(records, manages);
    assert(manages(records[i]));
    assert(found == Some(i)) by {
        if found is Some && found->0 < i {
            assert(manages(records[found->0]));
        }
    }
}

proof fn lemma_no_style_in(records: Seq<WireRecord>)
    requires
        forall|j: int| 0 <= j < records.len() ==> (#[trigger] records[j]).map_wire_manager is None,
    ensures
        wire_tables::style_in(records) is None,
{
    let manages = |record: WireRecord| record.map_wire_manager is Some;
    search::lemma_first_position(records, manages);
    let found = search::first_position(records, manages);
    if found is Some {
        assert(manages(records[found->0]));
    }
}

proof fn lemma_no_style(files: Seq<Vec<WireRecord>>, n: nat, f: int)
    requires
        n <= f <= files.len(),
        forall|g: int, j: int|
            #![trigger files[g]@[j]]
            0 <= g < f && 0 <= j < files[g]@.len() ==> files[g]@[j].map_wire_manager is None,
    ensures
        wire_tables::style_from(files, n) == wire_tables::style_from(files, f as nat),
    decreases f - n,
{
    if n < f {
        lemma_no_style_in(files[n as int]@);
        lemma_no_style(files, n + 1, f);
    }
}

/// A piece of wire is a three-sided prism, two triangles to a side, bright on the first side and
/// dark on the two others; it is opaque, culls its inner sides and has no texture.
pub proof fn law_wire_pieces_are_prisms(
    style: WireStyle,
    wire: int,
    piece: int,
    model: usize,
    packet: usize,
    i: int,
)
    requires
        0 <= i < 6,
        0 <= wire <= usize::MAX,
        0 <= piece <= usize::MAX,
    ensures
        ({
            let t = preview_wires::piece_triangles(style, model, packet)[i];
            let color = if i < 2 {
                style.upper_surface
            } else {
                style.lower_surface
            };
            &&& preview_wires::piece_triangles(style, model, packet).len() == 6
            &&& t.source == i % 2
            &&& t.model_index == model
            &&& t.packet_index == packet
            &&& t.color == Some(color)
            &&& t.vertex_colors matches Some(corners)
            &&& corners.a == color && corners.b == color && corners.c == color
            &&& t.color_channels.first == t.vertex_colors
            &&& t.color_channels.second is None
            &&& t.material_index is None
            &&& t.texture_index is None
            &&& t.cull_mode == Some(2u8)
            &&& t.blend_mode == Some(
                J3dBlendMode { mode: 1, src_factor: 4, dst_factor: 5, logic_op: 15 },
            )
            &&& t.z_mode == Some(J3dZMode { compare_enable: 1, func: 3, update_enable: 1 })
            &&& t.alpha_compare is None
            &&& t.render_layer == PreviewRenderLayer::Main
            &&& t.combine_mode == J3dPreviewCombineMode::VertexOnly
            &&& t.billboard is None
            &&& preview_wires::piece_parts(wire, piece)[i] == (WirePart::Prism {
                wire: wire as usize,
                piece: piece as usize,
                side: (if i < 2 {
                    0usize
                } else if i < 4 {
                    1usize
                } else {
                    2usize
                }),
            })
        }),
{
}

/// How many of the first pieces of a wire are drawn.
pub open spec fn drawn_pieces(drawn: Seq<bool>, n: nat) -> nat
    decreases n,
{
    if n == 0 {
        0
    } else if drawn[n - 1] {
        drawn_pieces(drawn, (n - 1) as nat) + 1
    } else {
        drawn_pieces(drawn, (n - 1) as nat)
    }
}

/// A drawn piece brings its six triangles behind those of the drawn pieces before it, in the
/// wire's model and packet, and one that is not drawn brings none.
pub proof fn law_drawn_pieces_follow_each_other(
    drawn: Seq<bool>,
    style: WireStyle,
    wire: int,
    model: usize,
    packet: usize,
    n: nat,
    k: int,
)
    requires
        0 <= k < n <= drawn.len(),
        drawn[k],
    ensures
        ({
            let all = preview_wires::prism(drawn, style, model, packet, n);
            let parts = preview_wires::prism_parts(drawn, wire, n);
            let at = 6 * drawn_pieces(drawn, k as nat) as int;
            &&& all.len() == 6 * drawn_pieces(drawn, n)
            &&& parts.len() == all.len()
            &&& at + 6 <= all.len()
            &&& all.subrange(at, at + 6) == preview_wires::piece_triangles(style, model, packet)
            &&& parts.subrange(at, at + 6) == preview_wires::piece_parts(wire, k)
        }),
    decreases n,
{
    lemma_prism_len(drawn, style, wire, model, packet, n);
    lemma_prism_len(drawn, style, wire, model, packet, (n - 1) as nat);
    let all = preview_wires::prism(drawn, style, model, packet, n);
    let parts = preview_wires::prism_parts(drawn, wire, n);
    let rest = preview_wires::prism(drawn, style, model, packet, (n - 1) as nat);
    let rest_parts = preview_wires::prism_parts(drawn, wire, (n - 1) as nat);
    let at = 6 * drawn_pieces(drawn, k as nat) as int;
    if k < n - 1 {
        law_drawn_pieces_follow_each_other(drawn, style, wire, model, packet, (n - 1) as nat, k);
        assert(all.subrange(at, at + 6) =~= rest.subrange(at, at + 6));
        assert(parts.subrange(at, at + 6) =~= rest_parts.subrange(at, at + 6));
    } else {
        assert(all.subrange(at, at + 6) =~= preview_wires::piece_triangles(style, model, packet));
        assert(parts.subrange(at, at + 6) =~= preview_wires::piece_parts(wire, k));
    }
}

proof fn lemma_prism_len(
    drawn: Seq<bool>,
    style: WireStyle,
    wire: int,
    model: usize,
    packet: usize,
    n: nat,
)
    ensures
        preview_wires::prism(drawn, style, model, packet, n).len() == 6 * drawn_pieces(drawn, n),
        preview_wires::prism_parts(drawn, wire, n).len() == 6 * drawn_pieces(drawn, n),
    decreases n,
{
    if n > 0 {
        lemma_prism_len(drawn, style, wire, model, packet, (n - 1) as nat);
    }
}

/// A triangle of the fitting is drawn at a wire's end as it is modelled, in the wire's model: its
/// packet, textures and material are those of the fitting behind what was loaded before.
pub proof fn law_fittings_keep_their_model(
    triangle: PreviewTriangle,
    model: usize,
    packet_base: int,
    bases: FittingBases,
)
    requires
        0 <= packet_base,
        packet_base + triangle.packet_index <= usize::MAX,
        bases.texture_base <= bases.texture_count,
        bases.material_base <= bases.material_count,
    ensures
        ({
            let t = preview_wires::fitting_triangle(triangle, model, packet_base, bases);
            &&& t.model_index == model
            &&& t.packet_index == packet_base + triangle.packet_index
            &&& t.source == triangle.source
            &&& t.vertex_colors == triangle.vertex_colors
            &&& t.color_channels == triangle.color_channels
            &&& t.cull_mode == triangle.cull_mode
            &&& t.blend_mode == triangle.blend_mode
            &&& t.z_mode == triangle.z_mode
            &&& t.alpha_compare == triangle.alpha_compare
            &&& t.combine_mode == triangle.combine_mode
            &&& t.billboard == triangle.billboard
            &&& t.render_layer == PreviewRenderLayer::Main
            &&& t.particle_type is None
            &&& is_moved(
                triangle.texture_index,
                t.texture_index,
                bases.texture_base as int,
                bases.texture_count as int,
            )
            &&& is_moved(
                triangle.mask_texture_index,
                t.mask_texture_index,
                bases.texture_base as int,
                bases.texture_count as int,
            )
            &&& is_moved(
                triangle.material_index,
                t.material_index,
                bases.material_base as int,
                bases.material_count as int,
            )
        }),
{
}

/// `after` is `before` behind `base` others, where it is one of the `count` there then are.
pub open spec fn is_moved(before: Option<usize>, after: Option<usize>, base: int, count: int) -> bool {
    match before {
        Some(i) => if base + i < count {
            after matches Some(j) && j == base + i
        } else {
            after is None
        },
        None => after is None,
    }
}

/// A wire of fewer than two points is not hung up. Any other brings a point's model for each of
/// its points, its prism in a packet of its own and, where there is a fitting, the fitting at its
/// start and then at its end.
pub proof fn law_wires_hang_between_fittings(
    state: WireState,
    source: WireSource,
    bases: FittingBases,
    wire: int,
)
    requires
        0 <= wire < source.wires@.len(),
        source.first_model_index + source.wires@.len() <= usize::MAX,
        state.packets >= 0,
        source.first_packet_index + state.packets <= usize::MAX,
    ensures
        ({
            let path = source.wires@[wire];
            let after = preview_wires::with_wire(state, source, bases, wire);
            let model = (source.first_model_index + wire) as usize;
            let hung = state.triangles + preview_wires::prism(
                path.drawn@,
                source.style,
                model,
                (source.first_packet_index + state.packets) as usize,
                path.drawn@.len(),
            );
            &&& path.points < 2 ==> after == state
            &&& path.points >= 2 ==> {
                &&& after.points.len() == state.points.len() + path.points
                &&& forall|i: int|
                    state.points.len() <= i < after.points.len() ==> (#[trigger] after.points[i])
                        == source.first_model_index + wire
                &&& source.fitting is None ==> after.triangles == hung && after.packets
                    == state.packets + 1 && after.source_vertices == state.source_vertices + 3
                    * path.points
                &&& source.fitting matches Some(geometry) ==> {
                    let span = crate::authored_preview::packet_span(geometry.triangles@);
                    let start = preview_wires::fitting_triangles(
                        geometry.triangles@,
                        path.start_finite@,
                        model,
                        source.first_packet_index + state.packets + 1,
                        bases,
                        geometry.triangles@.len(),
                    );
                    let end = preview_wires::fitting_triangles(
                        geometry.triangles@,
                        path.end_finite@,
                        model,
                        source.first_packet_index + state.packets + 1 + span,
                        bases,
                        geometry.triangles@.len(),
                    );
                    &&& after.triangles == hung + start + end
                    &&& after.packets == state.packets + 1 + 2 * span
                    &&& after.source_vertices == state.source_vertices + 3 * path.points + 2
                        * source.fitting_points
                    &&& forall|i: int|
                        hung.len() <= i < hung.len() + start.len() ==> (#[trigger] after.parts[i
                            - hung.len() + state.parts.len() + preview_wires::prism_parts(
                            path.drawn@,
                            wire,
                            path.drawn@.len(),
                        ).len()]) == (WirePart::Fitting { wire: wire as usize, at_end: false })
                }
            }
        }),
{
}

/// A preview of wires starts with nothing, and hangs them up one after the other.
pub proof fn law_wires_are_hung_up_in_order(source: WireSource, bases: FittingBases, n: nat)
    ensures
        preview_wires::with_wires(source, bases, 0).points.len() == 0,
        preview_wires::with_wires(source, bases, 0).triangles.len() == 0,
        preview_wires::with_wires(source, bases, 0).parts.len() == 0,
        preview_wires::with_wires(source, bases, 0).packets == 0,
        preview_wires::with_wires(source, bases, 0).source_vertices == 0,
        preview_wires::with_wires(source, bases, 0).source_triangles == 0,
        preview_wires::with_wires(source, bases, n + 1) == preview_wires::with_wire(
            preview_wires::with_wires(source, bases, n),
            source,
            bases,
            n as int,
        ),
{
}

} // verus!
