//! Wires in the preview: a prism along each wire, and a fitting at both its ends.
use vstd::prelude::*;

use crate::authored_preview;
use crate::model_preview;
use crate::preview;
use crate::preview::{
    ColorChannels, J3dBlendMode, J3dGeometryPreview, J3dMaterial, J3dPreviewCombineMode, J3dZMode,
    PreviewRenderLayer, PreviewTexture, PreviewTriangle, Rgba,
};
use crate::preview_textures;
use crate::search;
use crate::wire_tables::WireStyle;

verus! {

/// The loader flags of the fittings.
pub const WIRE_FITTING_LOADER_FLAGS: u32 = 0x1021_0000;

/// Where the model of the fittings may lie below the root of the game: a file, or a file and what
/// names a member of it.
#[derive(Debug)]
pub struct FittingCandidate {
    pub file: &'static str,
    pub member: &'static str,
}

/// The candidates, as texts.
pub open spec fn candidate_views(list: Seq<FittingCandidate>) -> Seq<(Seq<char>, Seq<char>)> {
    Seq::new(list.len(), |i: int| (list[i].file@, list[i].member@))
}

/// Where the model of the fittings may lie, in the order in which it is tried.
pub fn wire_fitting_candidates() -> (r: Vec<FittingCandidate>)
    ensures
        candidate_views(r@) == seq![
            ("files/data/common/map/wirefitting.bmd"@, ""@),
            ("files/data/common.szs"@, "!/map/wirefitting.bmd"@),
            ("data/common/map/wirefitting.bmd"@, ""@),
            ("data/common.szs"@, "!/map/wirefitting.bmd"@),
            ("common/map/wirefitting.bmd"@, ""@),
            ("common.szs"@, "!/map/wirefitting.bmd"@),
        ],
{
    let mut r: Vec<FittingCandidate> = Vec::new();
    r.push(FittingCandidate { file: "files/data/common/map/wirefitting.bmd", member: "" });
    r.push(FittingCandidate { file: "files/data/common.szs", member: "!/map/wirefitting.bmd" });
    r.push(FittingCandidate { file: "data/common/map/wirefitting.bmd", member: "" });
    r.push(FittingCandidate { file: "data/common.szs", member: "!/map/wirefitting.bmd" });
    r.push(FittingCandidate { file: "common/map/wirefitting.bmd", member: "" });
    r.push(FittingCandidate { file: "common.szs", member: "!/map/wirefitting.bmd" });
    proof {
        assert(candidate_views(r@) =~= seq![
            ("files/data/common/map/wirefitting.bmd"@, ""@),
            ("files/data/common.szs"@, "!/map/wirefitting.bmd"@),
            ("data/common/map/wirefitting.bmd"@, ""@),
            ("data/common.szs"@, "!/map/wirefitting.bmd"@),
            ("common/map/wirefitting.bmd"@, ""@),
            ("common.szs"@, "!/map/wirefitting.bmd"@),
        ]);
    }
    r
}

/// The first candidate that could be read and decoded.
pub fn load_wire_fitting_preview(loaded: &Vec<Option<J3dGeometryPreview>>) -> (r: Option<
    &J3dGeometryPreview,
>)
    ensures
        match search::first_position(loaded@, |found: Option<J3dGeometryPreview>| found is Some) {
            Some(i) => r == Some(&loaded@[i]->Some_0),
            None => r is None,
        },
{
    let ghost p = |found: Option<J3dGeometryPreview>| found is Some;
    let mut i: usize = 0;
    while i < loaded.len()
        invariant
            i <= loaded.len(),
            p == (|found: Option<J3dGeometryPreview>| found is Some),
            forall|j: int| 0 <= j < i ==> !p(#[trigger] loaded@[j]),
        decreases loaded.len() - i,
    {
        if let Some(geometry) = &loaded[i] {
            proof {
                search::lemma_found(loaded@, p, i as int);
            }
            return Some(geometry);
        }
        i += 1;
    }
    proof {
        search::lemma_not_found(loaded@, p);
    }
    None
}

/// A wire as it hangs.
#[derive(Debug)]
pub struct WirePath {
    pub points: usize,
    /// For each piece between two points, whether it is long enough to be drawn.
    pub drawn: Vec<bool>,
    /// For each triangle of the fitting at the start, whether all its vertices are finite.
    pub start_finite: Vec<bool>,
    /// The same for the fitting at the end.
    pub end_finite: Vec<bool>,
}

/// What a triangle of the wires is part of.
#[derive(Debug, Clone, Copy, PartialEq, Eq, Structural)]
pub enum WirePart {
    /// A side of a piece of the wire: 0 is the upper one.
    Prism { wire: usize, piece: usize, side: usize },
    /// A fitting at the start or at the end.
    Fitting { wire: usize, at_end: bool },
}

/// The wires of a stage.
#[derive(Debug)]
pub struct ProceduralWirePreview {
    /// Model index of each point.
    pub points: Vec<usize>,
    pub triangles: Vec<PreviewTriangle>,
    /// What each triangle is part of.
    pub parts: Vec<WirePart>,
    pub wire_count: usize,
    pub source_vertices: usize,
    pub source_triangles: usize,
    pub source_textures: usize,
    pub packet_count: usize,
}

/// The wires so far.
#[verifier::ext_equal]
pub struct WireState {
    pub points: Seq<usize>,
    pub triangles: Seq<PreviewTriangle>,
    pub parts: Seq<WirePart>,
    pub source_vertices: int,
    pub source_triangles: int,
    pub packets: int,
}

/// The wires so far.
pub open spec fn state_of(wires: ProceduralWirePreview) -> WireState {
    WireState {
        points: wires.points@,
        triangles: wires.triangles@,
        parts: wires.parts@,
        source_vertices: wires.source_vertices as int,
        source_triangles: wires.source_triangles as int,
        packets: wires.packet_count as int,
    }
}

/// A triangle of a prism: its colour comes from its vertices, its back is not drawn.
pub open spec fn wire_triangle(
    half: int,
    color: Rgba,
    model: usize,
    packet: usize,
) -> PreviewTriangle {
    PreviewTriangle {
        source: half as usize,
        material_index: None,
        packet_index: packet,
        model_index: model,
        render_layer: PreviewRenderLayer::Main,
        texture_index: None,
        mask_texture_index: None,
        cull_mode: Some(2),
        alpha_compare: None,
        blend_mode: Some(J3dBlendMode { mode: 1, src_factor: 4, dst_factor: 5, logic_op: 15 }),
        z_mode: Some(J3dZMode { compare_enable: 1, func: 3, update_enable: 1 }),
        z_comp_loc: None,
        color_channels: ColorChannels {
            first: Some(preview::all_corners(color)),
            second: None,
        },
        color: Some(color),
        vertex_colors: Some(preview::all_corners(color)),
        combine_mode: J3dPreviewCombineMode::VertexOnly,
        billboard: None,
        particle_type: None,
        particle_color_mode: None,
        particle_environment_color: None,
    }
}

/// The colour of a side: the first one looks up.
pub open spec fn side_color(style: WireStyle, side: int) -> Rgba {
    if side == 0 {
        style.upper_surface
    } else {
        style.lower_surface
    }
}

/// The six triangles of a piece, two to a side.
pub open spec fn piece_triangles(style: WireStyle, model: usize, packet: usize) -> Seq<
    PreviewTriangle,
> {
    Seq::new(6, |i: int| wire_triangle(i % 2, side_color(style, i / 2), model, packet))
}

/// What the six triangles of a piece are part of.
pub open spec fn piece_parts(wire: int, piece: int) -> Seq<WirePart> {
    Seq::new(
        6,
        |i: int|
            WirePart::Prism {
                wire: wire as usize,
                piece: piece as usize,
                side: (i / 2) as usize,
            },
    )
}

/// The triangles of the first `n` pieces.
pub open spec fn prism(
    drawn: Seq<bool>,
    style: WireStyle,
    model: usize,
    packet: usize,
    n: nat,
) -> Seq<PreviewTriangle>
    decreases n,
{
    if n == 0 {
        Seq::empty()
    } else {
        let rest = prism(drawn, style, model, packet, (n - 1) as nat);
        if drawn[n - 1] {
            rest + piece_triangles(style, model, packet)
        } else {
            rest
        }
    }
}

/// What the triangles of the first `n` pieces are part of.
pub open spec fn prism_parts(drawn: Seq<bool>, wire: int, n: nat) -> Seq<WirePart>
    decreases n,
{
    if n == 0 {
        Seq::empty()
    } else {
        let rest = prism_parts(drawn, wire, (n - 1) as nat);
        if drawn[n - 1] {
            rest + piece_parts(wire, n - 1)
        } else {
            rest
        }
    }
}

/// Where the textures and materials of the fittings begin and how many there are in all.
#[derive(Debug, Clone, Copy, PartialEq, Eq, Structural)]
pub struct FittingBases {
    pub texture_base: usize,
    pub texture_count: usize,
    pub material_base: usize,
    pub material_count: usize,
}

/// A triangle of a fitting in the preview.
pub open spec fn fitting_triangle(
    triangle: PreviewTriangle,
    model: usize,
    packet_base: int,
    bases: FittingBases,
) -> PreviewTriangle {
    PreviewTriangle {
        material_index: authored_preview::moved(
            triangle.material_index,
            bases.material_base as int,
            bases.material_count as int,
        ),
        packet_index: (packet_base + triangle.packet_index) as usize,
        model_index: model,
        render_layer: PreviewRenderLayer::Main,
        texture_index: authored_preview::moved(
            triangle.texture_index,
            bases.texture_base as int,
            bases.texture_count as int,
        ),
        mask_texture_index: authored_preview::moved(
            triangle.mask_texture_index,
            bases.texture_base as int,
            bases.texture_count as int,
        ),
        particle_type: None,
        particle_color_mode: None,
        particle_environment_color: None,
        ..triangle
    }
}

/// The first `n` triangles of a fitting, as far as they are finite.
pub open spec fn fitting_triangles(
    triangles: Seq<PreviewTriangle>,
    finite: Seq<bool>,
    model: usize,
    packet_base: int,
    bases: FittingBases,
    n: nat,
) -> Seq<PreviewTriangle>
    decreases n,
{
    if n == 0 {
        Seq::empty()
    } else {
        let rest = fitting_triangles(triangles, finite, model, packet_base, bases, (n - 1) as nat);
        if finite[n - 1] {
            rest.push(fitting_triangle(triangles[n - 1], model, packet_base, bases))
        } else {
            rest
        }
    }
}

/// What is drawn: the wires, the model of the fittings with the number of its points, and where
/// numbers begin.
pub struct WireSource<'a> {
    pub wires: &'a Vec<WirePath>,
    pub style: WireStyle,
    pub fitting: Option<&'a J3dGeometryPreview>,
    pub fitting_points: usize,
    pub first_model_index: usize,
    pub first_packet_index: usize,
}

/// The state with a fitting at one end of a wire.
pub open spec fn with_fitting(
    state: WireState,
    source: WireSource,
    geometry: J3dGeometryPreview,
    wire: int,
    at_end: bool,
    bases: FittingBases,
) -> WireState {
    let path = source.wires@[wire];
    let finite = if at_end {
        path.end_finite@
    } else {
        path.start_finite@
    };
    let added = fitting_triangles(
        geometry.triangles@,
        finite,
        (source.first_model_index + wire) as usize,
        source.first_packet_index + state.packets,
        bases,
        geometry.triangles@.len(),
    );
    WireState {
        triangles: state.triangles + added,
        parts: state.parts + Seq::new(
            added.len(),
            |i: int| WirePart::Fitting { wire: wire as usize, at_end },
        ),
        source_vertices: state.source_vertices + source.fitting_points,
        source_triangles: state.source_triangles + geometry.triangles@.len(),
        packets: state.packets + authored_preview::packet_span(geometry.triangles@),
        ..state
    }
}

/// The state with the prism of a wire.
pub open spec fn with_prism(state: WireState, source: WireSource, wire: int) -> WireState {
    let path = source.wires@[wire];
    let model = (source.first_model_index + wire) as usize;
    let added = prism(
        path.drawn@,
        source.style,
        model,
        (source.first_packet_index + state.packets) as usize,
        path.drawn@.len(),
    );
    WireState {
        points: state.points + Seq::new(path.points as nat, |i: int| model),
        triangles: state.triangles + added,
        parts: state.parts + prism_parts(path.drawn@, wire, path.drawn@.len()),
        source_vertices: state.source_vertices + path.points * 3,
        source_triangles: state.source_triangles + added.len(),
        packets: state.packets + 1,
    }
}

/// The state with one more wire; one with fewer than two points is not drawn.
pub open spec fn with_wire(
    state: WireState,
    source: WireSource,
    bases: FittingBases,
    wire: int,
) -> WireState {
    if source.wires@[wire].points < 2 {
        state
    } else {
        let hung = with_prism(state, source, wire);
        match source.fitting {
            None => hung,
            Some(geometry) => with_fitting(
                with_fitting(hung, source, *geometry, wire, false, bases),
                source,
                *geometry,
                wire,
                true,
                bases,
            ),
        }
    }
}

/// The state with the first `n` wires.
pub open spec fn with_wires(source: WireSource, bases: FittingBases, n: nat) -> WireState
    decreases n,
{
    if n == 0 {
        WireState {
            points: Seq::empty(),
            triangles: Seq::empty(),
            parts: Seq::empty(),
            source_vertices: 0,
            source_triangles: 0,
            packets: 0,
        }
    } else {
        with_wire(with_wires(source, bases, (n - 1) as nat), source, bases, n - 1)
    }
}

/// Where the textures and materials of the fittings go.
pub open spec fn bases_of(source: WireSource, textures: int, materials: int) -> FittingBases {
    match source.fitting {
        Some(geometry) => FittingBases {
            texture_base: textures as usize,
            texture_count: (textures + geometry.textures@.len()) as usize,
            material_base: materials as usize,
            material_count: (materials + geometry.materials@.len()) as usize,
        },
        None => FittingBases {
            texture_base: textures as usize,
            texture_count: textures as usize,
            material_base: materials as usize,
            material_count: materials as usize,
        },
    }
}

/// The lists belong together and the numbers fit.
pub open spec fn is_consistent(source: WireSource, textures: int, materials: int) -> bool {
    let end = with_wires(
        source,
        bases_of(source, textures, materials),
        source.wires@.len(),
    );
    &&& source.first_model_index + source.wires@.len() <= usize::MAX
    &&& source.first_packet_index + end.packets <= usize::MAX
    &&& end.source_vertices <= usize::MAX
    &&& end.source_triangles <= usize::MAX
    &&& forall|i: int|
        0 <= i < source.wires@.len() && (#[trigger] source.wires@[i]).points >= 2
            ==> source.wires@[i].drawn@.len() == source.wires@[i].points - 1
    &&& source.fitting matches Some(geometry) ==> {
        &&& model_preview::can_shift(geometry.materials@, textures as usize)
        &&& forall|i: int|
            0 <= i < source.wires@.len() && (#[trigger] source.wires@[i]).points >= 2
                ==> source.wires@[i].start_finite@.len() == geometry.triangles@.len()
                && source.wires@[i].end_finite@.len() == geometry.triangles@.len()
    }
}

/// The lists of textures and materials with those of the fittings.
pub open spec fn fitting_loaded(
    source: WireSource,
    textures: Seq<PreviewTexture>,
    materials: Seq<J3dMaterial>,
    old_textures: Seq<PreviewTexture>,
    old_materials: Seq<J3dMaterial>,
) -> bool {
    match source.fitting {
        Some(geometry) => {
            &&& preview::texture_views(textures) == preview::texture_views(old_textures)
                + Seq::new(
                geometry.textures@.len(),
                |i: int| preview_textures::preview_of(geometry.textures@[i]),
            )
            &&& preview::material_views(materials) == preview::material_views(old_materials)
                + Seq::new(
                geometry.materials@.len(),
                |i: int|
                    model_preview::placed(
                        geometry.materials@[i]@,
                        (old_materials.len() + i) as usize,
                        old_textures.len() as usize,
                    ),
            )
        },
        None => textures == old_textures && materials == old_materials,
    }
}

proof fn lemma_wire_grows(state: WireState, source: WireSource, bases: FittingBases, wire: int)
    ensures
        with_wire(state, source, bases, wire).packets >= state.packets,
        with_wire(state, source, bases, wire).source_vertices >= state.source_vertices,
        with_wire(state, source, bases, wire).source_triangles >= state.source_triangles,
        source.wires@[wire].points >= 2 ==> with_prism(state, source, wire).packets <= with_wire(
            state,
            source,
            bases,
            wire,
        ).packets,
        source.wires@[wire].points >= 2 ==> with_prism(state, source, wire).source_vertices
            <= with_wire(state, source, bases, wire).source_vertices,
        source.wires@[wire].points >= 2 ==> with_prism(state, source, wire).source_triangles
            <= with_wire(state, source, bases, wire).source_triangles,
        source.fitting matches Some(geometry) ==> authored_preview::packet_span(
            geometry.triangles@,
        ) >= 0,
{
    if let Some(geometry) = source.fitting {
        authored_preview::lemma_first_above(authored_preview::packets(geometry.triangles@));
    }
}

proof fn lemma_wires_grow(source: WireSource, bases: FittingBases, n: nat, m: nat)
    requires
        n <= m,
    ensures
        with_wires(source, bases, n).packets <= with_wires(source, bases, m).packets,
        with_wires(source, bases, n).source_vertices <= with_wires(
            source,
            bases,
            m,
        ).source_vertices,
        with_wires(source, bases, n).source_triangles <= with_wires(
            source,
            bases,
            m,
        ).source_triangles,
        with_wires(source, bases, n).packets >= 0,
        with_wires(source, bases, n).source_vertices >= 0,
        with_wires(source, bases, n).source_triangles >= 0,
    decreases m,
{
    if m > 0 {
        let before = with_wires(source, bases, (m - 1) as nat);
        lemma_wire_grows(before, source, bases, m - 1);
        if n < m {
            lemma_wires_grow(source, bases, n, (m - 1) as nat);
        } else {
            lemma_wires_grow(source, bases, (m - 1) as nat, (m - 1) as nat);
        }
    }
}

proof fn lemma_prism_length(
    drawn: Seq<bool>,
    style: WireStyle,
    model: usize,
    packet: usize,
    wire: int,
    n: nat,
)
    ensures
        prism(drawn, style, model, packet, n).len() == prism_parts(drawn, wire, n).len(),
        prism(drawn, style, model, packet, n).len() <= 6 * n,
    decreases n,
{
    if n > 0 {
        lemma_prism_length(drawn, style, model, packet, wire, (n - 1) as nat);
    }
}

fn push_wire_piece(
    triangles: &mut Vec<PreviewTriangle>,
    parts: &mut Vec<WirePart>,
    wire: usize,
    piece: usize,
    style: WireStyle,
    model_index: usize,
    packet_index: usize,
)
    ensures
        final(triangles)@ == old(triangles)@ + piece_triangles(style, model_index, packet_index),
        final(parts)@ == old(parts)@ + piece_parts(wire as int, piece as int),
{
    let ghost all = piece_triangles(style, model_index, packet_index);
    let ghost all_parts = piece_parts(wire as int, piece as int);
    let ghost start = triangles@;
    let ghost start_parts = parts@;
    let mut i: usize = 0;
    proof {
        assert(start =~= start + all.take(0));
        assert(start_parts =~= start_parts + all_parts.take(0));
    }
    while i < 6
        invariant
            i <= 6,
            all == piece_triangles(style, model_index, packet_index),
            all_parts == piece_parts(wire as int, piece as int),
            triangles@ == start + all.take(i as int),
            parts@ == start_parts + all_parts.take(i as int),
        decreases 6 - i,
    {
        let color: Rgba = if i / 2 == 0 {
            style.upper_surface
        } else {
            style.lower_surface
        };
        triangles.push(
            PreviewTriangle {
                source: i % 2,
                material_index: None,
                packet_index,
                model_index,
                render_layer: PreviewRenderLayer::Main,
                texture_index: None,
                mask_texture_index: None,
                cull_mode: Some(2),
                alpha_compare: None,
                blend_mode: Some(
                    J3dBlendMode { mode: 1, src_factor: 4, dst_factor: 5, logic_op: 15 },
                ),
                z_mode: Some(J3dZMode { compare_enable: 1, func: 3, update_enable: 1 }),
                z_comp_loc: None,
                color_channels: ColorChannels {
                    first: Some(preview::one_color(color)),
                    second: None,
                },
                color: Some(color),
                vertex_colors: Some(preview::one_color(color)),
                combine_mode: J3dPreviewCombineMode::VertexOnly,
                billboard: None,
                particle_type: None,
                particle_color_mode: None,
                particle_environment_color: None,
            },
        );
        parts.push(WirePart::Prism { wire, piece, side: i / 2 });
        i += 1;
        proof {
            assert(triangles@ =~= start + all.take(i as int));
            assert(parts@ =~= start_parts + all_parts.take(i as int));
        }
    }
    proof {
        assert(all.take(6) =~= all);
        assert(all_parts.take(6) =~= all_parts);
    }
}

/// Appends the prism of a wire: three sides for each piece that is drawn.
pub fn push_wire_prism(
    triangles: &mut Vec<PreviewTriangle>,
    parts: &mut Vec<WirePart>,
    drawn: &[bool],
    wire: usize,
    style: WireStyle,
    model_index: usize,
    packet_index: usize,
)
    ensures
        final(triangles)@ == old(triangles)@ + prism(
            drawn@,
            style,
            model_index,
            packet_index,
            drawn@.len(),
        ),
        final(parts)@ == old(parts)@ + prism_parts(drawn@, wire as int, drawn@.len()),
{
    let ghost start = triangles@;
    let ghost start_parts = parts@;
    let mut i: usize = 0;
    proof {
        assert(start =~= start + prism(drawn@, style, model_index, packet_index, 0));
        assert(start_parts =~= start_parts + prism_parts(drawn@, wire as int, 0));
    }
    while i < drawn.len()
        invariant
            i <= drawn.len(),
            triangles@ == start + prism(drawn@, style, model_index, packet_index, i as nat),
            parts@ == start_parts + prism_parts(drawn@, wire as int, i as nat),
        decreases drawn.len() - i,
    {
        if drawn[i] {
            push_wire_piece(triangles, parts, wire, i, style, model_index, packet_index);
        }
        i += 1;
        proof {
            assert(triangles@ =~= start + prism(drawn@, style, model_index, packet_index, i as nat));
            assert(parts@ =~= start_parts + prism_parts(drawn@, wire as int, i as nat));
        }
    }
}

fn append_fitting_instance(
    result: &mut ProceduralWirePreview,
    source: &WireSource,
    geometry: &J3dGeometryPreview,
    wire: usize,
    at_end: bool,
    bases: FittingBases,
)
    requires
        wire < source.wires@.len(),
        source.first_model_index + source.wires@.len() <= usize::MAX,
        (if at_end {
            source.wires@[wire as int].end_finite@
        } else {
            source.wires@[wire as int].start_finite@
        }).len() == geometry.triangles@.len(),
        bases.texture_base <= bases.texture_count,
        bases.material_base <= bases.material_count,
        ({
            let next = with_fitting(
                state_of(*old(result)),
                *source,
                *geometry,
                wire as int,
                at_end,
                bases,
            );
            &&& source.first_packet_index + next.packets <= usize::MAX
            &&& next.source_vertices <= usize::MAX
            &&& next.source_triangles <= usize::MAX
        }),
    ensures
        state_of(*final(result)) == with_fitting(
            state_of(*old(result)),
            *source,
            *geometry,
            wire as int,
            at_end,
            bases,
        ),
        final(result).wire_count == old(result).wire_count,
        final(result).source_textures == old(result).source_textures,
{
    let ghost state = state_of(*result);
    proof {
        authored_preview::lemma_first_above(authored_preview::packets(geometry.triangles@));
    }
    let finite: &Vec<bool> = if at_end {
        &source.wires[wire].end_finite
    } else {
        &source.wires[wire].start_finite
    };
    let model_index: usize = source.first_model_index + wire;
    let packet_base: usize = source.first_packet_index + result.packet_count;
    let span: usize = if geometry.triangles.len() == 0 {
        1
    } else {
        authored_preview::number_above(geometry.triangles.as_slice(), false)
    };
    result.source_vertices = result.source_vertices + source.fitting_points;
    result.source_triangles = result.source_triangles + geometry.triangles.len();
    result.packet_count = result.packet_count + span;
    let ghost counted = *result;
    let mut i: usize = 0;
    proof {
        assert(state.triangles =~= state.triangles + fitting_triangles(
            geometry.triangles@,
            finite@,
            model_index,
            packet_base as int,
            bases,
            0,
        ));
        assert(state.parts =~= state.parts + Seq::new(
            0,
            |i: int| WirePart::Fitting { wire, at_end },
        ));
    }
    while i < geometry.triangles.len()
        invariant
            i <= geometry.triangles.len(),
            finite@.len() == geometry.triangles@.len(),
            bases.texture_base <= bases.texture_count,
            bases.material_base <= bases.material_count,
            packet_base + authored_preview::packet_span(geometry.triangles@) <= usize::MAX,
            result.triangles@ == state.triangles + fitting_triangles(
                geometry.triangles@,
                finite@,
                model_index,
                packet_base as int,
                bases,
                i as nat,
            ),
            result.parts@ == state.parts + Seq::new(
                fitting_triangles(
                    geometry.triangles@,
                    finite@,
                    model_index,
                    packet_base as int,
                    bases,
                    i as nat,
                ).len(),
                |i: int| WirePart::Fitting { wire, at_end },
            ),
            result.points == counted.points,
            result.source_vertices == counted.source_vertices,
            result.source_triangles == counted.source_triangles,
            result.packet_count == counted.packet_count,
            result.wire_count == counted.wire_count,
            result.source_textures == counted.source_textures,
        decreases geometry.triangles.len() - i,
    {
        if finite[i] {
            let mut triangle = geometry.triangles[i];
            proof {
                let packets = authored_preview::packets(geometry.triangles@);
                authored_preview::lemma_first_above(packets);
                assert(packets[i as int] == triangle.packet_index);
            }
            triangle.material_index = authored_preview::move_index(
                triangle.material_index,
                bases.material_base,
                bases.material_count,
            );
            triangle.packet_index = packet_base + triangle.packet_index;
            triangle.model_index = model_index;
            triangle.render_layer = PreviewRenderLayer::Main;
            triangle.texture_index = authored_preview::move_index(
                triangle.texture_index,
                bases.texture_base,
                bases.texture_count,
            );
            triangle.mask_texture_index = authored_preview::move_index(
                triangle.mask_texture_index,
                bases.texture_base,
                bases.texture_count,
            );
            triangle.particle_type = None;
            triangle.particle_color_mode = None;
            triangle.particle_environment_color = None;
            result.triangles.push(triangle);
            result.parts.push(WirePart::Fitting { wire, at_end });
            proof {
                assert(triangle == fitting_triangle(
                    geometry.triangles@[i as int],
                    model_index,
                    packet_base as int,
                    bases,
                ));
            }
        }
        i += 1;
        proof {
            let now = fitting_triangles(
                geometry.triangles@,
                finite@,
                model_index,
                packet_base as int,
                bases,
                i as nat,
            );
            assert(result.triangles@ =~= state.triangles + now);
            assert(result.parts@ =~= state.parts + Seq::new(
                now.len(),
                |i: int| WirePart::Fitting { wire, at_end },
            ));
        }
    }
    proof {
        let next = with_fitting(state, *source, *geometry, wire as int, at_end, bases);
        assert(state_of(*result) =~= next);
    }
}

fn hang_wire(result: &mut ProceduralWirePreview, source: &WireSource, wire: usize)
    requires
        wire < source.wires@.len(),
        source.first_model_index + source.wires@.len() <= usize::MAX,
        source.wires@[wire as int].points >= 2,
        source.first_packet_index + old(result).packet_count <= usize::MAX,
        with_prism(state_of(*old(result)), *source, wire as int).packets <= usize::MAX,
        with_prism(state_of(*old(result)), *source, wire as int).source_vertices <= usize::MAX,
        with_prism(state_of(*old(result)), *source, wire as int).source_triangles <= usize::MAX,
    ensures
        state_of(*final(result)) == with_prism(state_of(*old(result)), *source, wire as int),
        final(result).wire_count == old(result).wire_count,
        final(result).source_textures == old(result).source_textures,
{
    let ghost state = state_of(*result);
    let model_index: usize = source.first_model_index + wire;
    let count: usize = source.wires[wire].points;
    let ghost begun = *result;
    let mut i: usize = 0;
    while i < count
        invariant
            i <= count,
            result.points@ == state.points + Seq::new(i as nat, |j: int| model_index),
            result.triangles == begun.triangles,
            result.parts == begun.parts,
            result.source_vertices == begun.source_vertices,
            result.source_triangles == begun.source_triangles,
            result.packet_count == begun.packet_count,
            result.wire_count == begun.wire_count,
            result.source_textures == begun.source_textures,
        decreases count - i,
    {
        result.points.push(model_index);
        i += 1;
        proof {
            assert(result.points@ =~= state.points + Seq::new(i as nat, |j: int| model_index));
        }
    }
    let packet_index: usize = source.first_packet_index + result.packet_count;
    let before: usize = result.triangles.len();
    push_wire_prism(
        &mut result.triangles,
        &mut result.parts,
        source.wires[wire].drawn.as_slice(),
        wire,
        source.style,
        model_index,
        packet_index,
    );
    result.packet_count = result.packet_count + 1;
    result.source_vertices = result.source_vertices + count * 3;
    result.source_triangles = result.source_triangles + (result.triangles.len() - before);
    proof {
        assert(state_of(*result) =~= with_prism(state, *source, wire as int));
    }
}

/// Adds the wires of a stage: each gets a model and a packet of its own, and each of its fittings
/// further packets.
pub fn build_procedural_wire_preview(
    source: &WireSource,
    textures: &mut Vec<PreviewTexture>,
    materials: &mut Vec<J3dMaterial>,
) -> (r: ProceduralWirePreview)
    requires
        is_consistent(*source, old(textures)@.len() as int, old(materials)@.len() as int),
    ensures
        fitting_loaded(
            *source,
            final(textures)@,
            final(materials)@,
            old(textures)@,
            old(materials)@,
        ),
        state_of(r) == with_wires(
            *source,
            bases_of(*source, old(textures)@.len() as int, old(materials)@.len() as int),
            source.wires@.len(),
        ),
        r.wire_count == source.wires@.len(),
        r.source_textures == (match source.fitting {
            Some(geometry) => geometry.textures@.len(),
            None => 0,
        }),
{
    let texture_base: usize = textures.len();
    let material_base: usize = materials.len();
    let mut source_textures: usize = 0;
    if let Some(geometry) = source.fitting {
        let ghost before = textures@;
        preview_textures::push_j3d_preview_textures(textures, geometry.textures.as_slice());
        proof {
            assert(preview::texture_views(textures@).len() == preview::texture_views(before).len()
                + geometry.textures@.len());
        }
        model_preview::push_preview_materials(
            materials,
            geometry.materials.as_slice(),
            texture_base,
        );
        source_textures = geometry.textures.len();
    }
    let bases = FittingBases {
        texture_base,
        texture_count: textures.len(),
        material_base,
        material_count: materials.len(),
    };
    proof {
        assert(bases == bases_of(
            *source,
            old(textures)@.len() as int,
            old(materials)@.len() as int,
        ));
    }
    let mut result = ProceduralWirePreview {
        points: Vec::new(),
        triangles: Vec::new(),
        parts: Vec::new(),
        wire_count: source.wires.len(),
        source_vertices: 0,
        source_triangles: 0,
        source_textures,
        packet_count: 0,
    };
    proof {
        assert(state_of(result) =~= with_wires(*source, bases, 0));
    }
    let ghost textures_before = old(textures)@.len() as int;
    let ghost materials_before = old(materials)@.len() as int;
    let mut wire: usize = 0;
    while wire < source.wires.len()
        invariant
            wire <= source.wires.len(),
            is_consistent(*source, textures_before, materials_before),
            bases == bases_of(*source, textures_before, materials_before),
            bases.texture_base <= bases.texture_count,
            bases.material_base <= bases.material_count,
            state_of(result) == with_wires(*source, bases, wire as nat),
            result.wire_count == source.wires@.len(),
            result.source_textures == source_textures,
        decreases source.wires.len() - wire,
    {
        proof {
            lemma_wires_grow(*source, bases, (wire + 1) as nat, source.wires@.len());
            lemma_wires_grow(*source, bases, wire as nat, (wire + 1) as nat);
            lemma_wire_grows(
                with_wires(*source, bases, wire as nat),
                *source,
                bases,
                wire as int,
            );
        }
        if source.wires[wire].points >= 2 {
            proof {
                let path = source.wires@[wire as int];
                assert(path.drawn@.len() == path.points - 1);
                lemma_prism_length(path.drawn@, source.style, 0, 0, wire as int, path.drawn@.len());
            }
            hang_wire(&mut result, source, wire);
            if let Some(geometry) = source.fitting {
                append_fitting_instance(&mut result, source, geometry, wire, false, bases);
                append_fitting_instance(&mut result, source, geometry, wire, true, bases);
            }
        }
        wire += 1;
    }
    result
}

/// Every triangle of the wires belongs to a part.
pub proof fn law_every_wire_triangle_has_a_part(source: WireSource, bases: FittingBases, n: nat)
    ensures
        with_wires(source, bases, n).triangles.len() == with_wires(source, bases, n).parts.len(),
    decreases n,
{
    if n > 0 {
        law_every_wire_triangle_has_a_part(source, bases, (n - 1) as nat);
        let path = source.wires@[n - 1];
        let state = with_wires(source, bases, (n - 1) as nat);
        lemma_prism_length(
            path.drawn@,
            source.style,
            (source.first_model_index + n - 1) as usize,
            (source.first_packet_index + state.packets) as usize,
            n - 1,
            path.drawn@.len(),
        );
    }
}

} // verus!
