//! Flags in the preview: one texture, material and packet for each flag texture, one model for
//! each flag.
use vstd::prelude::*;

use crate::flag_shapes;
use crate::flag_shapes::{FlagGrid, FlagRanges, FlagScale};
use crate::grids;
use crate::preview;
use crate::preview::{
    ColorChannels, J3dMaterial, J3dPreviewCombineMode, J3dTexturePreview, MaterialView,
    PreviewRenderLayer, PreviewTexture, PreviewTriangle, TextureView,
};
use crate::preview_grass;
use crate::preview_textures;
use crate::registry::MapObjFlagDefinition;
use crate::runtime_materials;
use crate::runtime_materials::MaterialProgram;
use crate::search;
use crate::stage::{SceneObject, StageAsset};
use crate::text;

verus! {

/// Where a flag texture went.
#[derive(Debug, Clone, Copy, PartialEq, Eq, Structural)]
pub struct FlagTexture {
    pub texture_index: usize,
    pub material_index: usize,
    pub packet_index: usize,
}

/// A flag texture under its name in lower case.
#[derive(Debug)]
pub struct NamedFlagTexture {
    pub key: String,
    pub texture: FlagTexture,
}

/// A flag of the preview.
#[derive(Debug, Clone, Copy, PartialEq, Eq, Structural)]
pub struct PreviewFlag {
    pub definition: usize,
    pub object: usize,
    pub model_index: usize,
    pub grid: FlagGrid,
    pub ranges: FlagRanges,
}

/// The flags of a stage.
#[derive(Debug)]
pub struct ProceduralFlagPreview {
    /// Model index of each point.
    pub points: Vec<usize>,
    pub triangles: Vec<PreviewTriangle>,
    /// The models of the objects, by their ids.
    pub object_model_indices: Vec<(String, usize)>,
    pub animated_flags: Vec<PreviewFlag>,
    pub textures: Vec<NamedFlagTexture>,
    /// How the material of each texture is drawn.
    pub programs: Vec<MaterialProgram>,
}

/// The flags of a stage, and what they add to the preview.
#[verifier::ext_equal]
pub struct FlagState {
    pub preview_textures: Seq<TextureView>,
    pub preview_materials: Seq<MaterialView>,
    pub points: Seq<usize>,
    pub triangles: Seq<PreviewTriangle>,
    pub models: Seq<(Seq<char>, usize)>,
    pub flags: Seq<PreviewFlag>,
    pub named: Seq<(Seq<char>, FlagTexture)>,
}

/// The flag textures under their names.
pub open spec fn named_views(list: Seq<NamedFlagTexture>) -> Seq<(Seq<char>, FlagTexture)> {
    Seq::new(list.len(), |i: int| (list[i].key@, list[i].texture))
}

/// The flags of a stage, and what they add to the preview.
pub open spec fn state_of(
    textures: Seq<PreviewTexture>,
    materials: Seq<J3dMaterial>,
    flags: ProceduralFlagPreview,
) -> FlagState {
    FlagState {
        preview_textures: preview::texture_views(textures),
        preview_materials: preview::material_views(materials),
        points: flags.points@,
        triangles: flags.triangles@,
        models: preview_grass::model_views(flags.object_model_indices@),
        flags: flags.animated_flags@,
        named: named_views(flags.textures@),
    }
}

/// The texture goes by this name.
pub open spec fn goes_by(key: Seq<char>) -> spec_fn((Seq<char>, FlagTexture)) -> bool {
    |entry: (Seq<char>, FlagTexture)| entry.0 == key
}

/// What the stage offers: its classes of flags, its objects with their scales, and its assets
/// with the textures that could be decoded.
pub struct FlagSource<'a> {
    pub definitions: &'a Vec<MapObjFlagDefinition>,
    pub objects: &'a Vec<SceneObject>,
    pub scales: &'a Vec<FlagScale>,
    pub assets: &'a Vec<StageAsset>,
    pub decoded: &'a Vec<Option<J3dTexturePreview>>,
    pub first_model_index: usize,
    pub first_packet_index: usize,
    pub loader_flags: u32,
}

/// The lists belong together and the numbers fit.
pub open spec fn is_consistent(source: FlagSource) -> bool {
    &&& source.scales@.len() == source.objects@.len()
    &&& source.decoded@.len() == source.assets@.len()
    &&& source.first_model_index + source.definitions@.len() * source.objects@.len() <= usize::MAX
    &&& source.first_packet_index + source.definitions@.len() * source.objects@.len() <= usize::MAX
}

/// The decoded texture of a flag, where its asset is there and could be decoded.
pub open spec fn usable_texture(
    source: FlagSource,
    definition: MapObjFlagDefinition,
    resource: Seq<char>,
) -> Option<int> {
    match flag_shapes::texture_position(source.assets@, definition, resource) {
        Some(i) => if source.decoded@[i] is Some {
            Some(i)
        } else {
            None
        },
        None => None,
    }
}

/// A triangle of a flag.
pub open spec fn shown_triangle(number: int, model: usize, texture: FlagTexture) -> PreviewTriangle {
    let tests = runtime_materials::flag_tests();
    PreviewTriangle {
        source: number as usize,
        material_index: Some(texture.material_index),
        packet_index: texture.packet_index,
        model_index: model,
        render_layer: PreviewRenderLayer::Main,
        texture_index: Some(texture.texture_index),
        mask_texture_index: None,
        cull_mode: Some(0),
        alpha_compare: Some(tests.alpha_compare),
        blend_mode: Some(tests.blend_mode),
        z_mode: Some(tests.z_mode),
        z_comp_loc: None,
        color_channels: ColorChannels { first: None, second: None },
        color: None,
        vertex_colors: None,
        combine_mode: J3dPreviewCombineMode::TextureOnly,
        billboard: None,
        particle_type: None,
        particle_color_mode: None,
        particle_environment_color: None,
    }
}

/// A triangle of a flag: it shows its texture alone, from both sides.
pub fn flag_triangle(number: usize, model_index: usize, texture: FlagTexture) -> (r: PreviewTriangle)
    ensures
        r == shown_triangle(number as int, model_index, texture),
{
    let tests = runtime_materials::runtime_flag_tests();
    PreviewTriangle {
        source: number,
        material_index: Some(texture.material_index),
        packet_index: texture.packet_index,
        model_index,
        render_layer: PreviewRenderLayer::Main,
        texture_index: Some(texture.texture_index),
        mask_texture_index: None,
        cull_mode: Some(0),
        alpha_compare: Some(tests.alpha_compare),
        blend_mode: Some(tests.blend_mode),
        z_mode: Some(tests.z_mode),
        z_comp_loc: None,
        color_channels: ColorChannels { first: None, second: None },
        color: None,
        vertex_colors: None,
        combine_mode: J3dPreviewCombineMode::TextureOnly,
        billboard: None,
        particle_type: None,
        particle_color_mode: None,
        particle_environment_color: None,
    }
}

/// How many triangles a flag has.
pub open spec fn flag_triangle_count(grid: FlagGrid) -> int {
    (grid.rows - 1) * (grid.cols - 1) * 2
}

/// The state with a flag that shows a texture.
pub open spec fn with_flag(
    state: FlagState,
    source: FlagSource,
    d: int,
    o: int,
    texture: FlagTexture,
    grid: FlagGrid,
) -> FlagState {
    let model = (source.first_model_index + state.flags.len()) as usize;
    let points = state.points + Seq::new((grid.rows * grid.cols) as nat, |i: int| model);
    let triangles = state.triangles + Seq::new(
        flag_triangle_count(grid) as nat,
        |i: int| shown_triangle(i, model, texture),
    );
    FlagState {
        points,
        triangles,
        models: state.models.push((source.objects@[o].id@, model)),
        flags: state.flags.push(
            PreviewFlag {
                definition: d as usize,
                object: o as usize,
                model_index: model,
                grid,
                ranges: FlagRanges {
                    point_start: state.points.len() as usize,
                    point_end: points.len() as usize,
                    triangle_start: state.triangles.len() as usize,
                    triangle_end: triangles.len() as usize,
                },
            },
        ),
        ..state
    }
}

/// The state with one more flag texture.
pub open spec fn with_texture(
    state: FlagState,
    source: FlagSource,
    resource: Seq<char>,
    decoded: J3dTexturePreview,
) -> FlagState {
    let texture = FlagTexture {
        texture_index: state.preview_textures.len() as usize,
        material_index: state.preview_materials.len() as usize,
        packet_index: (source.first_packet_index + state.named.len()) as usize,
    };
    FlagState {
        preview_textures: state.preview_textures.push(preview_textures::preview_of(decoded)),
        preview_materials: state.preview_materials.push(
            runtime_materials::plain_view(
                runtime_materials::flag_material_name(resource),
                texture.material_index,
                texture.texture_index,
                runtime_materials::no_tev_colors(),
                runtime_materials::flag_tests(),
            ),
        ),
        named: state.named.push((text::lower(resource), texture)),
        ..state
    }
}

/// The state after its texture was found: a texture is added once for each name.
pub open spec fn textured(
    state: FlagState,
    source: FlagSource,
    definition: MapObjFlagDefinition,
    resource: Seq<char>,
) -> Option<(FlagState, FlagTexture)> {
    match search::first_position(state.named, goes_by(text::lower(resource))) {
        Some(i) => Some((state, state.named[i].1)),
        None => match usable_texture(source, definition, resource) {
            Some(i) => {
                let next = with_texture(state, source, resource, source.decoded@[i]->Some_0);
                Some((next, next.named.last().1))
            },
            None => None,
        },
    }
}

/// The state after an object was tried against a class of flags.
pub open spec fn with_object(state: FlagState, source: FlagSource, d: int, o: int) -> FlagState {
    let definition = source.definitions@[d];
    let object = source.objects@[o];
    if object.factory_name@ != definition.factory_name@ {
        state
    } else {
        match flag_shapes::resource_of(object, definition) {
            None => state,
            Some(resource) => if !flag_shapes::is_registered(definition, resource) {
                state
            } else {
                match textured(state, source, definition, resource) {
                    None => state,
                    Some((next, texture)) => if definition.phase_wrap_degrees == 0 {
                        next
                    } else {
                        match flag_shapes::grid_of(source.scales@[o]) {
                            None => next,
                            Some(grid) => with_flag(next, source, d, o, texture, grid),
                        }
                    },
                }
            },
        }
    }
}

/// The state after the first `n` objects were tried against a class of flags.
pub open spec fn with_objects(state: FlagState, source: FlagSource, d: int, n: nat) -> FlagState
    decreases n,
{
    if n == 0 {
        state
    } else {
        with_object(with_objects(state, source, d, (n - 1) as nat), source, d, n - 1)
    }
}

/// The state after the first `n` classes of flags.
pub open spec fn with_definitions(state: FlagState, source: FlagSource, n: nat) -> FlagState
    decreases n,
{
    if n == 0 {
        state
    } else {
        with_objects(
            with_definitions(state, source, (n - 1) as nat),
            source,
            n - 1,
            source.objects@.len(),
        )
    }
}

/// The state before any flag.
pub open spec fn no_flags(textures: Seq<PreviewTexture>, materials: Seq<J3dMaterial>) -> FlagState {
    FlagState {
        preview_textures: preview::texture_views(textures),
        preview_materials: preview::material_views(materials),
        points: Seq::empty(),
        triangles: Seq::empty(),
        models: Seq::empty(),
        flags: Seq::empty(),
        named: Seq::empty(),
    }
}

/// Every flag material is drawn by the flag program.
pub open spec fn flag_programs(flags: ProceduralFlagPreview, loader_flags: u32) -> bool {
    &&& flags.programs@.len() == flags.textures@.len()
    &&& forall|i: int|
        0 <= i < flags.programs@.len() ==> runtime_materials::is_flag_program(
            #[trigger] flags.programs@[i],
            loader_flags,
        )
}

fn find_named(list: &[NamedFlagTexture], key: &str) -> (r: Option<usize>)
    ensures
        match r {
            Some(i) => i < list@.len() && search::first_position(
                named_views(list@),
                goes_by(key@),
            ) == Some(i as int),
            None => search::first_position(named_views(list@), goes_by(key@)) is None,
        },
{
    let ghost views = named_views(list@);
    let mut i: usize = 0;
    while i < list.len()
        invariant
            i <= list.len(),
            views == named_views(list@),
            forall|j: int| 0 <= j < i ==> !goes_by(key@)(#[trigger] views[j]),
        decreases list.len() - i,
    {
        if text::same(list[i].key.as_str(), key) {
            proof {
                assert(views[i as int].0 == list@[i as int].key@);
                search::lemma_found(views, goes_by(key@), i as int);
            }
            return Some(i);
        }
        proof {
            assert(views[i as int].0 == list@[i as int].key@);
        }
        i += 1;
    }
    proof {
        search::lemma_not_found(views, goes_by(key@));
    }
    None
}

fn add_texture(
    source: &FlagSource,
    resource: &str,
    decoded: &J3dTexturePreview,
    textures: &mut Vec<PreviewTexture>,
    materials: &mut Vec<J3dMaterial>,
    flags: &mut ProceduralFlagPreview,
) -> (r: FlagTexture)
    requires
        source.first_packet_index + old(flags).textures@.len() <= usize::MAX,
        flag_programs(*old(flags), source.loader_flags),
    ensures
        state_of(final(textures)@, final(materials)@, *final(flags)) == with_texture(
            state_of(old(textures)@, old(materials)@, *old(flags)),
            *source,
            resource@,
            *decoded,
        ),
        r == named_views(final(flags).textures@).last().1,
        flag_programs(*final(flags), source.loader_flags),
        final(flags).textures@.len() == old(flags).textures@.len() + 1,
        final(flags).animated_flags == old(flags).animated_flags,
{
    let ghost state = state_of(textures@, materials@, *flags);
    let texture = FlagTexture {
        texture_index: textures.len(),
        material_index: materials.len(),
        packet_index: source.first_packet_index + flags.textures.len(),
    };
    textures.push(preview_textures::preview_texture(decoded));
    let made = runtime_materials::runtime_flag_material(
        texture.material_index,
        texture.texture_index,
        resource,
        source.loader_flags,
    );
    let ghost added = made.material@;
    materials.push(made.material);
    flags.programs.push(made.program);
    flags.textures.push(NamedFlagTexture { key: text::to_lower(resource), texture });
    proof {
        let now = state_of(textures@, materials@, *flags);
        let next = with_texture(state, *source, resource@, *decoded);
        assert(now.preview_textures =~= next.preview_textures);
        assert(now.preview_materials =~= state.preview_materials.push(added));
        assert(now.named =~= next.named);
        assert(now =~= next);
    }
    texture
}

fn add_flag(
    source: &FlagSource,
    d: usize,
    o: usize,
    texture: FlagTexture,
    grid: FlagGrid,
    Ghost(textures): Ghost<Seq<PreviewTexture>>,
    Ghost(materials): Ghost<Seq<J3dMaterial>>,
    flags: &mut ProceduralFlagPreview,
)
    requires
        o < source.objects@.len(),
        2 <= grid.rows <= flag_shapes::MAX_FLAG_GRID_DIMENSION,
        2 <= grid.cols <= flag_shapes::MAX_FLAG_GRID_DIMENSION,
        source.first_model_index + old(flags).animated_flags@.len() <= usize::MAX,
        flag_programs(*old(flags), source.loader_flags),
    ensures
        state_of(textures, materials, *final(flags)) == with_flag(
            state_of(textures, materials, *old(flags)),
            *source,
            d as int,
            o as int,
            texture,
            grid,
        ),
        flag_programs(*final(flags), source.loader_flags),
        final(flags).textures == old(flags).textures,
        final(flags).animated_flags@.len() == old(flags).animated_flags@.len() + 1,
{
    let ghost state = state_of(textures, materials, *flags);
    let ghost next = with_flag(state, *source, d as int, o as int, texture, grid);
    proof {
        assert(0 <= grid.rows * grid.cols <= 512 * 512) by (nonlinear_arith)
            requires
                grid.rows <= 512,
                grid.cols <= 512,
        ;
        assert(0 <= (grid.rows - 1) * (grid.cols - 1) <= 512 * 512) by (nonlinear_arith)
            requires
                1 <= grid.rows <= 512,
                1 <= grid.cols <= 512,
        ;
    }
    let model_index: usize = source.first_model_index + flags.animated_flags.len();
    let point_start: usize = flags.points.len();
    let triangle_start: usize = flags.triangles.len();
    flags.object_model_indices.push((source.objects[o].id.clone(), model_index));
    let count: usize = grid.rows * grid.cols;
    let ghost old_flags = *flags;
    let mut i: usize = 0;
    while i < count
        invariant
            i <= count,
            flags.points@ == state.points + Seq::new(i as nat, |j: int| model_index),
            flags.triangles == old_flags.triangles,
            flags.object_model_indices == old_flags.object_model_indices,
            flags.animated_flags == old_flags.animated_flags,
            flags.textures == old_flags.textures,
            flags.programs == old_flags.programs,
        decreases count - i,
    {
        flags.points.push(model_index);
        i += 1;
        proof {
            assert(flags.points@ =~= state.points + Seq::new(i as nat, |j: int| model_index));
        }
    }
    let total: usize = (grid.rows - 1) * (grid.cols - 1) * 2;
    let ghost old_flags = *flags;
    let mut i: usize = 0;
    while i < total
        invariant
            i <= total,
            flags.triangles@ == state.triangles + Seq::new(
                i as nat,
                |j: int| shown_triangle(j, model_index, texture),
            ),
            flags.points == old_flags.points,
            flags.object_model_indices == old_flags.object_model_indices,
            flags.animated_flags == old_flags.animated_flags,
            flags.textures == old_flags.textures,
            flags.programs == old_flags.programs,
        decreases total - i,
    {
        flags.triangles.push(flag_triangle(i, model_index, texture));
        i += 1;
        proof {
            assert(flags.triangles@ =~= state.triangles + Seq::new(
                i as nat,
                |j: int| shown_triangle(j, model_index, texture),
            ));
        }
    }
    let ranges = FlagRanges {
        point_start,
        point_end: flags.points.len(),
        triangle_start,
        triangle_end: flags.triangles.len(),
    };
    flags.animated_flags.push(
        PreviewFlag { definition: d, object: o, model_index, grid, ranges },
    );
    proof {
        let now = state_of(textures, materials, *flags);
        assert(now.points =~= next.points);
        assert(now.triangles =~= next.triangles);
        assert(now.models =~= next.models);
        assert(now.flags =~= next.flags);
        assert(now =~= next);
    }
}

fn try_object(
    source: &FlagSource,
    d: usize,
    o: usize,
    textures: &mut Vec<PreviewTexture>,
    materials: &mut Vec<J3dMaterial>,
    flags: &mut ProceduralFlagPreview,
)
    requires
        d < source.definitions@.len(),
        o < source.objects@.len(),
        is_consistent(*source),
        source.first_packet_index + old(flags).textures@.len() <= usize::MAX,
        source.first_model_index + old(flags).animated_flags@.len() <= usize::MAX,
        flag_programs(*old(flags), source.loader_flags),
    ensures
        state_of(final(textures)@, final(materials)@, *final(flags)) == with_object(
            state_of(old(textures)@, old(materials)@, *old(flags)),
            *source,
            d as int,
            o as int,
        ),
        flag_programs(*final(flags), source.loader_flags),
        final(flags).textures@.len() <= old(flags).textures@.len() + 1,
        final(flags).animated_flags@.len() <= old(flags).animated_flags@.len() + 1,
{
    let definition = &source.definitions[d];
    let object = &source.objects[o];
    if !flag_shapes::flag_definition_matches_object(object, definition) {
        return;
    }
    let resource = match flag_shapes::flag_resource_name(object, definition) {
        Some(resource) => resource,
        None => {
            return;
        },
    };
    if !flag_shapes::texture_is_registered(definition, resource) {
        return;
    }
    let key = text::to_lower(resource);
    let texture: FlagTexture = match find_named(flags.textures.as_slice(), key.as_str()) {
        Some(i) => flags.textures[i].texture,
        None => {
            let position = flag_shapes::find_flag_texture_asset(
                source.assets.as_slice(),
                definition,
                resource,
            );
            match position {
                None => {
                    return;
                },
                Some(i) => match &source.decoded[i] {
                    None => {
                        return;
                    },
                    Some(decoded) => add_texture(
                        source,
                        resource,
                        decoded,
                        textures,
                        materials,
                        flags,
                    ),
                },
            }
        },
    };
    let grid = flag_shapes::build_flag_animation(source.scales[o], definition.phase_wrap_degrees);
    if let Some(grid) = grid {
        add_flag(source, d, o, texture, grid, Ghost(textures@), Ghost(materials@), flags);
    }
}

/// Adds the flags of a stage: every object of every class of flags whose texture is registered
/// and could be decoded.
pub fn build_procedural_flag_preview(
    source: &FlagSource,
    textures: &mut Vec<PreviewTexture>,
    materials: &mut Vec<J3dMaterial>,
) -> (r: ProceduralFlagPreview)
    requires
        is_consistent(*source),
    ensures
        state_of(final(textures)@, final(materials)@, r) == with_definitions(
            no_flags(old(textures)@, old(materials)@),
            *source,
            source.definitions@.len(),
        ),
        flag_programs(r, source.loader_flags),
{
    let mut flags = ProceduralFlagPreview {
        points: Vec::new(),
        triangles: Vec::new(),
        object_model_indices: Vec::new(),
        animated_flags: Vec::new(),
        textures: Vec::new(),
        programs: Vec::new(),
    };
    let ghost start = no_flags(textures@, materials@);
    proof {
        assert(state_of(textures@, materials@, flags) =~= start);
    }
    let ghost width = source.objects@.len() as int;
    let ghost height = source.definitions@.len() as int;
    let mut d: usize = 0;
    while d < source.definitions.len()
        invariant
            d <= source.definitions.len(),
            is_consistent(*source),
            width == source.objects@.len(),
            height == source.definitions@.len(),
            state_of(textures@, materials@, flags) == with_definitions(start, *source, d as nat),
            flag_programs(flags, source.loader_flags),
            flags.textures@.len() <= d * width,
            flags.animated_flags@.len() <= d * width,
        decreases source.definitions.len() - d,
    {
        let ghost before = state_of(textures@, materials@, flags);
        proof {
            assert(d * width + width <= height * width) by (nonlinear_arith)
                requires
                    d + 1 <= height,
                    0 <= width,
            ;
        }
        let mut o: usize = 0;
        while o < source.objects.len()
            invariant
                o <= source.objects.len(),
                d < source.definitions.len(),
                is_consistent(*source),
                width == source.objects@.len(),
                height == source.definitions@.len(),
                d * width + width <= height * width,
                state_of(textures@, materials@, flags) == with_objects(
                    before,
                    *source,
                    d as int,
                    o as nat,
                ),
                flag_programs(flags, source.loader_flags),
                flags.textures@.len() <= d * width + o,
                flags.animated_flags@.len() <= d * width + o,
            decreases source.objects.len() - o,
        {
            try_object(source, d, o, textures, materials, &mut flags);
            o += 1;
        }
        proof {
            assert((d + 1) * width == d * width + width) by (nonlinear_arith);
        }
        d += 1;
    }
    flags
}

/// No two flag textures go by the same name.
pub open spec fn names_differ(named: Seq<(Seq<char>, FlagTexture)>) -> bool {
    forall|i: int, j: int|
        0 <= i < j < named.len() ==> (#[trigger] named[i]).0 != (#[trigger] named[j]).0
}

proof fn lemma_object_keeps_names(state: FlagState, source: FlagSource, d: int, o: int)
    requires
        names_differ(state.named),
    ensures
        names_differ(with_object(state, source, d, o).named),
{
    let definition = source.definitions@[d];
    match flag_shapes::resource_of(source.objects@[o], definition) {
        Some(resource) => {
            search::lemma_first_position(state.named, goes_by(text::lower(resource)));
        },
        None => {},
    }
}

proof fn lemma_objects_keep_names(state: FlagState, source: FlagSource, d: int, n: nat)
    requires
        names_differ(state.named),
    ensures
        names_differ(with_objects(state, source, d, n).named),
    decreases n,
{
    if n > 0 {
        lemma_objects_keep_names(state, source, d, (n - 1) as nat);
        lemma_object_keeps_names(
            with_objects(state, source, d, (n - 1) as nat),
            source,
            d,
            n - 1,
        );
    }
}

/// Flags with the same texture share it: no texture is added twice.
pub proof fn law_flags_share_textures(
    textures: Seq<PreviewTexture>,
    materials: Seq<J3dMaterial>,
    source: FlagSource,
    n: nat,
)
    ensures
        names_differ(with_definitions(no_flags(textures, materials), source, n).named),
    decreases n,
{
    if n > 0 {
        law_flags_share_textures(textures, materials, source, (n - 1) as nat);
        lemma_objects_keep_names(
            with_definitions(no_flags(textures, materials), source, (n - 1) as nat),
            source,
            n - 1,
            source.objects@.len(),
        );
    }
}

/// A flag has as many triangles as its grid.
pub proof fn law_flag_fills_its_grid(grid: FlagGrid)
    requires
        2 <= grid.rows <= flag_shapes::MAX_FLAG_GRID_DIMENSION,
        2 <= grid.cols <= flag_shapes::MAX_FLAG_GRID_DIMENSION,
    ensures
        flag_triangle_count(grid) == grids::triangles(
            (grid.cols - 1) as nat,
            (grid.rows - 1) as nat,
        ).len(),
{
    grids::law_two_triangles_to_a_cell((grid.cols - 1) as nat, (grid.rows - 1) as nat);
    let (r, c) = (grid.rows - 1, grid.cols - 1);
    assert(r * c * 2 == 2 * (c * r)) by (nonlinear_arith);
}

} // verus!
