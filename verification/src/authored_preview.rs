//! Authored model instances in the stage preview: appended behind what the stage itself shows, and
//! removed without a trace.
use vstd::prelude::*;

use crate::editor::{AuthoredModelPreviewBase, PreviewBounds, PreviewState, SmsEditorApp};
use crate::jdrama::VectorBits;
use crate::model_instances;
use crate::model_instances::{
    AuthoredModelPreviewKey, EditorModelInstance, ModelInstanceExportMode, StageLoaderFlags,
};
use crate::model_preview;
use crate::preview;
use crate::preview::{
    J3dGeometryPreview, MaterialView, ModelPreview, PreviewMaterialAnimationBinding,
    PreviewRenderLayer, PreviewTriangle, TextureView,
};
use crate::preview_cache;
use crate::preview_textures;
use crate::registry::ObjectRegistry;
use crate::search;
use crate::text;

verus! {

/// A compiled preview.
#[derive(Debug)]
pub struct CachedGeometry {
    pub key: AuthoredModelPreviewKey,
    pub geometry: J3dGeometryPreview,
}

/// Where the textures and materials of a compiled preview begin in the stage preview.
#[derive(Debug, Clone, Copy, PartialEq, Eq, Structural)]
pub struct PreviewResource {
    pub key: AuthoredModelPreviewKey,
    pub texture_base: usize,
    pub material_base: usize,
}

/// What the instances are appended from.
#[derive(Debug, Clone, Copy)]
pub struct AppendSource<'a> {
    pub cache: &'a Vec<CachedGeometry>,
    pub instances: &'a Vec<EditorModelInstance>,
    pub stage_id: &'a String,
    pub registry: &'a Option<ObjectRegistry>,
    pub flags: StageLoaderFlags,
    /// For each instance and each triangle of its geometry, whether all its vertices are finite
    /// where the instance stands.
    pub finite: &'a Vec<Vec<bool>>,
}

/// The stage preview while instances are appended.
#[verifier::ext_equal]
pub struct Appended {
    pub textures: Seq<TextureView>,
    pub materials: Seq<MaterialView>,
    pub bindings: Seq<Seq<PreviewMaterialAnimationBinding>>,
    pub triangles: Seq<PreviewTriangle>,
    pub resources: Seq<PreviewResource>,
    pub next_model: int,
    pub next_packet: int,
}

/// The preview is this one.
pub open spec fn has_key(key: AuthoredModelPreviewKey) -> spec_fn(CachedGeometry) -> bool {
    |cached: CachedGeometry| cached.key == key
}

/// The resource is that of this preview.
pub open spec fn is_resource_of(key: AuthoredModelPreviewKey) -> spec_fn(PreviewResource) -> bool {
    |resource: PreviewResource| resource.key == key
}

/// The list with a given length: longer with empty entries, or cut.
pub open spec fn resized(bindings: Seq<Seq<PreviewMaterialAnimationBinding>>, n: nat) -> Seq<
    Seq<PreviewMaterialAnimationBinding>,
> {
    Seq::new(
        n,
        |i: int|
            if i < bindings.len() {
                bindings[i]
            } else {
                Seq::empty()
            },
    )
}

/// The bindings of each material.
pub open spec fn binding_views(list: Seq<Vec<PreviewMaterialAnimationBinding>>) -> Seq<
    Seq<PreviewMaterialAnimationBinding>,
> {
    Seq::new(list.len(), |i: int| list[i]@)
}

/// The preview with the textures and materials of a geometry.
pub open spec fn with_resources(
    state: Appended,
    key: AuthoredModelPreviewKey,
    geometry: J3dGeometryPreview,
) -> Appended {
    match search::first_position(state.resources, is_resource_of(key)) {
        Some(_) => state,
        None => {
            let texture_base = state.textures.len() as usize;
            let material_base = state.materials.len();
            let materials = state.materials + Seq::new(
                geometry.materials@.len(),
                |i: int|
                    model_preview::placed(
                        geometry.materials@[i]@,
                        (material_base + i) as usize,
                        texture_base,
                    ),
            );
            Appended {
                textures: state.textures + Seq::new(
                    geometry.textures@.len(),
                    |i: int| preview_textures::preview_of(geometry.textures@[i]),
                ),
                materials,
                bindings: resized(state.bindings, materials.len()),
                resources: state.resources.push(
                    PreviewResource { key, texture_base, material_base: material_base as usize },
                ),
                ..state
            }
        },
    }
}

/// A position moved by a base, where something stands there.
pub open spec fn moved(index: Option<usize>, base: int, count: int) -> Option<usize> {
    match index {
        Some(k) => if base + k < count {
            Some((base + k) as usize)
        } else {
            None
        },
        None => None,
    }
}

/// A triangle of a geometry in the stage preview.
pub open spec fn placed_triangle(
    triangle: PreviewTriangle,
    resource: PreviewResource,
    state: Appended,
    layer: PreviewRenderLayer,
) -> PreviewTriangle {
    PreviewTriangle {
        material_index: moved(
            triangle.material_index,
            resource.material_base as int,
            state.materials.len() as int,
        ),
        packet_index: (state.next_packet + triangle.packet_index) as usize,
        model_index: state.next_model as usize,
        render_layer: layer,
        texture_index: moved(
            triangle.texture_index,
            resource.texture_base as int,
            state.textures.len() as int,
        ),
        mask_texture_index: moved(
            triangle.mask_texture_index,
            resource.texture_base as int,
            state.textures.len() as int,
        ),
        particle_type: None,
        particle_color_mode: None,
        particle_environment_color: None,
        ..triangle
    }
}

/// The first `n` triangles of a geometry in the stage preview, as far as they are finite.
pub open spec fn placed_triangles(
    triangles: Seq<PreviewTriangle>,
    finite: Seq<bool>,
    resource: PreviewResource,
    state: Appended,
    layer: PreviewRenderLayer,
    n: nat,
) -> Seq<PreviewTriangle>
    decreases n,
{
    if n == 0 {
        Seq::empty()
    } else {
        let rest = placed_triangles(triangles, finite, resource, state, layer, (n - 1) as nat);
        if finite[n - 1] {
            rest.push(placed_triangle(triangles[n - 1], resource, state, layer))
        } else {
            rest
        }
    }
}

/// The first number above all of these.
pub open spec fn first_above(list: Seq<usize>) -> int
    decreases list.len(),
{
    if list.len() == 0 {
        0
    } else {
        let rest = first_above(list.drop_last());
        if list.last() + 1 > rest {
            list.last() + 1
        } else {
            rest
        }
    }
}

/// The packets of the triangles.
pub open spec fn packets(triangles: Seq<PreviewTriangle>) -> Seq<usize> {
    Seq::new(triangles.len(), |i: int| triangles[i].packet_index)
}

/// The models of the triangles.
pub open spec fn models(triangles: Seq<PreviewTriangle>) -> Seq<usize> {
    Seq::new(triangles.len(), |i: int| triangles[i].model_index)
}

/// How many packets a geometry takes.
pub open spec fn packet_span(triangles: Seq<PreviewTriangle>) -> int {
    if triangles.len() == 0 {
        1
    } else {
        first_above(packets(triangles))
    }
}

/// The geometry that an instance shows in a stage.
pub open spec fn shown_geometry(source: AppendSource, i: int) -> Option<int> {
    if !text::same_ignoring_case(source.instances@[i].stage_id@, source.stage_id@) {
        None
    } else {
        match preview_cache::key_of(
            source.instances@[i],
            *source.registry,
            source.flags,
        ) {
            Ok(key) => search::first_position(source.cache@, has_key(key)),
            Err(_) => None,
        }
    }
}

/// The layer that an instance is drawn in.
pub open spec fn layer_of(instance: EditorModelInstance) -> PreviewRenderLayer {
    if instance.placement.export_mode == ModelInstanceExportMode::Skybox {
        PreviewRenderLayer::Sky
    } else {
        PreviewRenderLayer::Main
    }
}

/// The preview with one more instance.
pub open spec fn with_instance(state: Appended, source: AppendSource, i: int) -> Appended {
    match shown_geometry(source, i) {
        None => state,
        Some(c) => {
            let cached = source.cache@[c];
            let loaded = with_resources(state, cached.key, cached.geometry);
            let resource = loaded.resources[search::first_position(
                loaded.resources,
                is_resource_of(cached.key),
            )->Some_0];
            let triangles = cached.geometry.triangles@;
            Appended {
                triangles: loaded.triangles + placed_triangles(
                    triangles,
                    source.finite@[i]@,
                    resource,
                    loaded,
                    layer_of(source.instances@[i]),
                    triangles.len(),
                ),
                next_model: loaded.next_model + 1,
                next_packet: loaded.next_packet + packet_span(triangles),
                ..loaded
            }
        },
    }
}

/// The preview with the first `n` instances.
pub open spec fn with_instances(start: Appended, source: AppendSource, n: nat) -> Appended
    decreases n,
{
    if n == 0 {
        start
    } else {
        with_instance(with_instances(start, source, (n - 1) as nat), source, n - 1)
    }
}

/// A position that a texture of a material can be moved to.
pub open spec fn can_move(cache: Seq<CachedGeometry>, count: int) -> bool {
    forall|c: int, m: int, j: int|
        0 <= c < cache.len() && 0 <= m < cache[c].geometry.materials@.len() && 0 <= j < 8 ==> (
        #[trigger] cache[c].geometry.materials@[m].texture_indices@[j] matches Some(k) ==> k + count
            <= usize::MAX)
}

/// Every triangle has a finite flag, and numbers of models, packets and textures stay within the
/// machine's range.
pub open spec fn can_extend(preview: PreviewView, source: AppendSource) -> bool {
    let end = with_instances(start_of(preview), source, source.instances@.len());
    &&& source.finite@.len() == source.instances@.len()
    &&& forall|i: int|
        0 <= i < source.instances@.len() ==> (#[trigger] shown_geometry(source, i) matches Some(c)
            ==> source.finite@[i]@.len() == source.cache@[c].geometry.triangles@.len())
    &&& end.next_model <= usize::MAX
    &&& end.next_packet <= usize::MAX
    &&& can_move(source.cache@, end.textures.len() as int)
}

pub(crate) proof fn lemma_first_above(list: Seq<usize>)
    ensures
        first_above(list) >= 0,
        forall|i: int| 0 <= i < list.len() ==> #[trigger] list[i] < first_above(list),
    decreases list.len(),
{
    if list.len() > 0 {
        let rest = list.drop_last();
        lemma_first_above(rest);
        assert(forall|i: int| 0 <= i < rest.len() ==> #[trigger] list[i] == rest[i]);
    }
}

proof fn lemma_growth(start: Appended, source: AppendSource, n: nat, m: nat)
    requires
        n <= m,
    ensures
        with_instances(start, source, n).next_model <= with_instances(start, source, m).next_model,
        with_instances(start, source, n).next_packet <= with_instances(
            start,
            source,
            m,
        ).next_packet,
        with_instances(start, source, n).textures.len() <= with_instances(
            start,
            source,
            m,
        ).textures.len(),
    decreases m,
{
    if n < m {
        lemma_growth(start, source, n, (m - 1) as nat);
        if let Some(c) = shown_geometry(source, m - 1) {
            lemma_first_above(packets(source.cache@[c].geometry.triangles@));
        }
    }
}

/// The numbers after the last of a list.
pub(crate) fn number_above(list: &[PreviewTriangle], by_model: bool) -> (r: usize)
    requires
        first_above(
            if by_model {
                models(list@)
            } else {
                packets(list@)
            },
        ) <= usize::MAX,
    ensures
        r == first_above(
            if by_model {
                models(list@)
            } else {
                packets(list@)
            },
        ),
{
    let ghost numbers = if by_model {
        models(list@)
    } else {
        packets(list@)
    };
    let mut r: usize = 0;
    let mut i: usize = 0;
    while i < list.len()
        invariant
            i <= list.len(),
            numbers.len() == list@.len(),
            numbers == (if by_model {
                models(list@)
            } else {
                packets(list@)
            }),
            first_above(numbers) <= usize::MAX,
            r == first_above(numbers.take(i as int)),
        decreases list.len() - i,
    {
        let number: usize = if by_model {
            list[i].model_index
        } else {
            list[i].packet_index
        };
        proof {
            lemma_first_above(numbers);
            assert(numbers[i as int] == number);
            assert(numbers.take(i + 1).drop_last() =~= numbers.take(i as int));
            assert(numbers.take(i + 1).last() == number);
        }
        if number + 1 > r {
            r = number + 1;
        }
        i += 1;
    }
    proof {
        assert(numbers.take(i as int) =~= numbers);
    }
    r
}

fn point_above(list: &[usize]) -> (r: usize)
    requires
        first_above(list@) <= usize::MAX,
    ensures
        r == first_above(list@),
{
    let mut r: usize = 0;
    let mut i: usize = 0;
    while i < list.len()
        invariant
            i <= list.len(),
            first_above(list@) <= usize::MAX,
            r == first_above(list@.take(i as int)),
        decreases list.len() - i,
    {
        proof {
            lemma_first_above(list@);
            assert(list@.take(i + 1).drop_last() =~= list@.take(i as int));
            assert(list@.take(i + 1).last() == list@[i as int]);
        }
        if list[i] + 1 > r {
            r = list[i] + 1;
        }
        i += 1;
    }
    proof {
        assert(list@.take(i as int) =~= list@);
    }
    r
}

fn find_geometry(source: &AppendSource, i: usize) -> (r: Option<usize>)
    requires
        i < source.instances@.len(),
    ensures
        match r {
            Some(c) => shown_geometry(*source, i as int) == Some(c as int) && c
                < source.cache@.len(),
            None => shown_geometry(*source, i as int) is None,
        },
{
    let instance = &source.instances[i];
    if !text::eq_ignoring_case(instance.stage_id.as_str(), source.stage_id.as_str()) {
        return None;
    }
    let registry = match source.registry {
        Some(registry) => Some(registry),
        None => None,
    };
    let key = match model_instances::model_instance_preview_key(
        instance,
        registry,
        source.flags,
    ) {
        Ok(key) => key,
        Err(_) => {
            return None;
        },
    };
    let ghost wanted = has_key(key);
    let mut c: usize = 0;
    while c < source.cache.len()
        invariant
            c <= source.cache.len(),
            wanted == has_key(key),
            shown_geometry(*source, i as int) == search::first_position(source.cache@, wanted),
            forall|j: int| 0 <= j < c ==> !wanted(#[trigger] source.cache@[j]),
        decreases source.cache.len() - c,
    {
        if source.cache[c].key == key {
            proof {
                search::lemma_found(source.cache@, wanted, c as int);
            }
            return Some(c);
        }
        c += 1;
    }
    proof {
        search::lemma_not_found(source.cache@, wanted);
    }
    None
}

fn find_resource(resources: &[PreviewResource], key: AuthoredModelPreviewKey) -> (r: Option<usize>)
    ensures
        match r {
            Some(i) => i < resources@.len() && search::first_position(
                resources@,
                is_resource_of(key),
            ) == Some(i as int),
            None => search::first_position(resources@, is_resource_of(key)) is None,
        },
{
    let mut i: usize = 0;
    while i < resources.len()
        invariant
            i <= resources.len(),
            forall|j: int| 0 <= j < i ==> !is_resource_of(key)(#[trigger] resources@[j]),
        decreases resources.len() - i,
    {
        if resources[i].key == key {
            proof {
                search::lemma_found(resources@, is_resource_of(key), i as int);
            }
            return Some(i);
        }
        i += 1;
    }
    proof {
        search::lemma_not_found(resources@, is_resource_of(key));
    }
    None
}

fn resize_bindings(bindings: &mut Vec<Vec<PreviewMaterialAnimationBinding>>, n: usize)
    ensures
        binding_views(final(bindings)@) == resized(binding_views(old(bindings)@), n as nat),
{
    let ghost start = binding_views(bindings@);
    if bindings.len() > n {
        bindings.truncate(n);
    }
    proof {
        assert(forall|j: int|
            0 <= j < bindings@.len() ==> #[trigger] bindings@[j] == old(bindings)@[j]);
    }
    while bindings.len() < n
        invariant
            bindings@.len() <= n,
            start == binding_views(old(bindings)@),
            start.len() == old(bindings)@.len(),
            bindings@.len() >= (if start.len() < n {
                start.len() as int
            } else {
                n as int
            }),
            forall|j: int|
                0 <= j < bindings@.len() ==> (#[trigger] bindings@[j])@ == (if j < start.len() {
                    start[j]
                } else {
                    Seq::empty()
                }),
        decreases n - bindings@.len(),
    {
        bindings.push(Vec::new());
    }
    proof {
        assert(binding_views(bindings@) =~= resized(start, n as nat));
    }
}

pub(crate) fn move_index(index: Option<usize>, base: usize, count: usize) -> (r: Option<usize>)
    requires
        base <= count,
    ensures
        r == moved(index, base as int, count as int),
{
    match index {
        Some(k) => {
            if k < count - base {
                Some(base + k)
            } else {
                None
            }
        },
        None => None,
    }
}

/// The preview as it stands while instances are appended.
pub open spec fn appended_view(
    preview: ModelPreview,
    resources: Seq<PreviewResource>,
    next_model: usize,
    next_packet: usize,
) -> Appended {
    Appended {
        textures: preview::texture_views(preview.textures@),
        materials: preview::material_views(preview.materials@),
        bindings: binding_views(preview.material_animation_bindings@),
        triangles: preview.triangles@,
        resources,
        next_model: next_model as int,
        next_packet: next_packet as int,
    }
}

fn load_resources(
    preview: &mut ModelPreview,
    resources: &mut Vec<PreviewResource>,
    cached: &CachedGeometry,
) -> (r: PreviewResource)
    requires
        model_preview::can_shift(
            cached.geometry.materials@,
            old(preview).textures@.len() as usize,
        ),
        forall|i: int|
            0 <= i < old(resources)@.len() ==> (#[trigger] old(resources)@[i]).texture_base
                <= old(preview).textures@.len() && old(resources)@[i].material_base
                <= old(preview).materials@.len(),
    ensures
        ({
            let before = appended_view(*old(preview), old(resources)@, 0, 0);
            let after = appended_view(*final(preview), final(resources)@, 0, 0);
            &&& after == with_resources(before, cached.key, cached.geometry)
            &&& search::first_position(final(resources)@, is_resource_of(cached.key)) matches Some(
                k,
            ) && r == final(resources)@[k]
        }),
        forall|i: int|
            0 <= i < final(resources)@.len() ==> (#[trigger] final(resources)@[i]).texture_base
                <= final(preview).textures@.len() && final(resources)@[i].material_base
                <= final(preview).materials@.len(),
        r.texture_base <= final(preview).textures@.len(),
        r.material_base <= final(preview).materials@.len(),
        final(preview).textures@.len() >= old(preview).textures@.len(),
        final(preview).points == old(preview).points,
        final(preview).bounds_min == old(preview).bounds_min,
        final(preview).bounds_max == old(preview).bounds_max,
        final(preview).camera_bounds_min == old(preview).camera_bounds_min,
        final(preview).camera_bounds_max == old(preview).camera_bounds_max,
{
    if let Some(k) = find_resource(resources.as_slice(), cached.key) {
        return resources[k];
    }
    let ghost textures = preview.textures@;
    let ghost materials = preview.materials@;
    let texture_base = preview_textures::push_j3d_preview_textures(
        &mut preview.textures,
        cached.geometry.textures.as_slice(),
    );
    proof {
        assert(preview::texture_views(preview.textures@).len() == preview.textures@.len());
    }
    let material_base = model_preview::push_preview_materials(
        &mut preview.materials,
        cached.geometry.materials.as_slice(),
        texture_base,
    );
    let count = preview.materials.len();
    resize_bindings(&mut preview.material_animation_bindings, count);
    let r = PreviewResource { key: cached.key, texture_base, material_base };
    let ghost before = resources@;
    resources.push(r);
    proof {
        search::lemma_first_position(before, is_resource_of(cached.key));
        assert forall|j: int| 0 <= j < before.len() implies !is_resource_of(cached.key)(
            #[trigger] resources@[j],
        ) by {
            assert(resources@[j] == before[j]);
        }
        search::lemma_found(resources@, is_resource_of(cached.key), before.len() as int);
        let wanted = with_resources(
            appended_view(*old(preview), before, 0, 0),
            cached.key,
            cached.geometry,
        );
        assert(preview::material_views(preview.materials@) =~= wanted.materials);
        assert(wanted.materials.len() == count);
        assert(appended_view(*preview, resources@, 0, 0) =~= wanted);
    }
    r
}

fn place_triangles(
    preview: &mut ModelPreview,
    cached: &CachedGeometry,
    finite: &[bool],
    resource: PreviewResource,
    layer: PreviewRenderLayer,
    next_model: usize,
    next_packet: usize,
    Ghost(state): Ghost<Appended>,
)
    requires
        finite@.len() == cached.geometry.triangles@.len(),
        state.materials.len() == old(preview).materials@.len(),
        state.textures.len() == old(preview).textures@.len(),
        state.next_model == next_model,
        state.next_packet == next_packet,
        resource.texture_base <= old(preview).textures@.len(),
        resource.material_base <= old(preview).materials@.len(),
        next_packet + first_above(packets(cached.geometry.triangles@)) <= usize::MAX,
    ensures
        final(preview).triangles@ == old(preview).triangles@ + placed_triangles(
            cached.geometry.triangles@,
            finite@,
            resource,
            state,
            layer,
            finite@.len(),
        ),
        final(preview).points == old(preview).points,
        final(preview).textures == old(preview).textures,
        final(preview).materials == old(preview).materials,
        final(preview).material_animation_bindings == old(preview).material_animation_bindings,
        final(preview).bounds_min == old(preview).bounds_min,
        final(preview).bounds_max == old(preview).bounds_max,
        final(preview).camera_bounds_min == old(preview).camera_bounds_min,
        final(preview).camera_bounds_max == old(preview).camera_bounds_max,
{
    let triangles = &cached.geometry.triangles;
    let ghost start = preview.triangles@;
    let mut i: usize = 0;
    proof {
        assert(start + Seq::<PreviewTriangle>::empty() =~= start);
    }
    while i < triangles.len()
        invariant
            i <= triangles.len(),
            *triangles == cached.geometry.triangles,
            start == old(preview).triangles@,
            finite@.len() == cached.geometry.triangles@.len(),
            state.materials.len() == preview.materials@.len(),
            state.textures.len() == preview.textures@.len(),
            state.next_model == next_model,
            state.next_packet == next_packet,
            resource.texture_base <= preview.textures@.len(),
            resource.material_base <= preview.materials@.len(),
            next_packet + first_above(packets(cached.geometry.triangles@)) <= usize::MAX,
            preview.triangles@ == start + placed_triangles(
                cached.geometry.triangles@,
                finite@,
                resource,
                state,
                layer,
                i as nat,
            ),
            preview.points == old(preview).points,
            preview.textures == old(preview).textures,
            preview.materials == old(preview).materials,
            preview.material_animation_bindings == old(preview).material_animation_bindings,
            preview.bounds_min == old(preview).bounds_min,
            preview.bounds_max == old(preview).bounds_max,
            preview.camera_bounds_min == old(preview).camera_bounds_min,
            preview.camera_bounds_max == old(preview).camera_bounds_max,
        decreases triangles.len() - i,
    {
        if finite[i] {
            let mut triangle = triangles[i];
            proof {
                lemma_first_above(packets(cached.geometry.triangles@));
                assert(packets(cached.geometry.triangles@)[i as int] == triangle.packet_index);
            }
            triangle.material_index = move_index(
                triangle.material_index,
                resource.material_base,
                preview.materials.len(),
            );
            triangle.packet_index = next_packet + triangle.packet_index;
            triangle.model_index = next_model;
            triangle.render_layer = layer;
            triangle.texture_index = move_index(
                triangle.texture_index,
                resource.texture_base,
                preview.textures.len(),
            );
            triangle.mask_texture_index = move_index(
                triangle.mask_texture_index,
                resource.texture_base,
                preview.textures.len(),
            );
            triangle.particle_type = None;
            triangle.particle_color_mode = None;
            triangle.particle_environment_color = None;
            preview.triangles.push(triangle);
            proof {
                assert(triangle == placed_triangle(
                    cached.geometry.triangles@[i as int],
                    resource,
                    state,
                    layer,
                ));
                assert(preview.triangles@ =~= start + placed_triangles(
                    cached.geometry.triangles@,
                    finite@,
                    resource,
                    state,
                    layer,
                    (i + 1) as nat,
                ));
            }
        }
        i += 1;
    }
}

/// Appends the instances of a stage to its preview, each as a model of its own with its own
/// packets; instances of one asset share its textures and materials. How many triangles were
/// appended.
pub fn append_authored_model_instances(preview: &mut ModelPreview, source: &AppendSource) -> (r:
    usize)
    requires
        can_extend(old(preview)@, *source),
    ensures
        ({
            let end = with_instances(start_of(old(preview)@), *source, source.instances@.len());
            &&& preview::texture_views(final(preview).textures@) == end.textures
            &&& preview::material_views(final(preview).materials@) == end.materials
            &&& binding_views(final(preview).material_animation_bindings@) == end.bindings
            &&& final(preview).triangles@ == end.triangles
            &&& r == end.triangles.len() - old(preview).triangles@.len()
        }),
        final(preview).points == old(preview).points,
        final(preview).bounds_min == old(preview).bounds_min,
        final(preview).bounds_max == old(preview).bounds_max,
        final(preview).camera_bounds_min == old(preview).camera_bounds_min,
        final(preview).camera_bounds_max == old(preview).camera_bounds_max,
{
    let ghost start = start_of(preview@);
    let ghost end = with_instances(start, *source, source.instances@.len());
    proof {
        lemma_growth(start, *source, 0, source.instances@.len());
        lemma_first_above(models(preview.triangles@));
        lemma_first_above(preview.points@);
    }
    let triangle_start = preview.triangles.len();
    let by_triangle = number_above(preview.triangles.as_slice(), true);
    let by_point = point_above(preview.points.as_slice());
    let mut next_model: usize = if by_triangle > by_point {
        by_triangle
    } else {
        by_point
    };
    let mut next_packet: usize = number_above(preview.triangles.as_slice(), false);
    let mut resources: Vec<PreviewResource> = Vec::new();
    proof {
        assert(appended_view(*preview, resources@, next_model, next_packet) =~= start);
    }
    let mut i: usize = 0;
    while i < source.instances.len()
        invariant
            i <= source.instances.len(),
            can_extend(old(preview)@, *source),
            start == start_of(old(preview)@),
            end == with_instances(start, *source, source.instances@.len()),
            appended_view(*preview, resources@, next_model, next_packet) == with_instances(
                start,
                *source,
                i as nat,
            ),
            forall|j: int|
                0 <= j < resources@.len() ==> (#[trigger] resources@[j]).texture_base
                    <= preview.textures@.len() && resources@[j].material_base
                    <= preview.materials@.len(),
            triangle_start == old(preview).triangles@.len(),
            preview.triangles@.len() >= triangle_start,
            preview.points == old(preview).points,
            preview.bounds_min == old(preview).bounds_min,
            preview.bounds_max == old(preview).bounds_max,
            preview.camera_bounds_min == old(preview).camera_bounds_min,
            preview.camera_bounds_max == old(preview).camera_bounds_max,
        decreases source.instances.len() - i,
    {
        if let Some(c) = find_geometry(source, i) {
            let ghost state = with_instances(start, *source, i as nat);
            let cached = &source.cache[c];
            proof {
                lemma_growth(start, *source, i as nat, source.instances@.len());
                lemma_growth(start, *source, (i + 1) as nat, source.instances@.len());
                lemma_first_above(packets(cached.geometry.triangles@));
                assert(preview::texture_views(preview.textures@).len() == preview.textures@.len());
                assert(source.finite@[i as int]@.len() == cached.geometry.triangles@.len()) by {
                    assert(shown_geometry(*source, i as int) == Some(c as int));
                }
                let count = preview.textures@.len() as usize;
                assert forall|m: int, j: int|
                    0 <= m < cached.geometry.materials@.len() && 0 <= j < 8 implies (
                #[trigger] cached.geometry.materials@[m].texture_indices@[j] matches Some(k) ==> k
                    + count <= usize::MAX) by {
                    assert(source.cache@[c as int].geometry.materials@[m].texture_indices@[j]
                        == cached.geometry.materials@[m].texture_indices@[j]);
                }
            }
            let resource = load_resources(preview, &mut resources, cached);
            let ghost loaded = with_resources(state, cached.key, cached.geometry);
            proof {
                assert(appended_view(*preview, resources@, next_model, next_packet) =~= loaded);
                assert(preview::texture_views(preview.textures@).len() == preview.textures@.len());
                assert(preview::material_views(preview.materials@).len()
                    == preview.materials@.len());
            }
            let layer = if source.instances[i].placement.export_mode
                == ModelInstanceExportMode::Skybox {
                PreviewRenderLayer::Sky
            } else {
                PreviewRenderLayer::Main
            };
            let span: usize = if cached.geometry.triangles.len() == 0 {
                1
            } else {
                number_above(cached.geometry.triangles.as_slice(), false)
            };
            place_triangles(
                preview,
                cached,
                source.finite[i].as_slice(),
                resource,
                layer,
                next_model,
                next_packet,
                Ghost(loaded),
            );
            next_packet += span;
            next_model += 1;
            proof {
                assert(appended_view(*preview, resources@, next_model, next_packet)
                    =~= with_instance(state, *source, i as int));
            }
        }
        i += 1;
    }
    preview.triangles.len() - triangle_start
}

/// The abstract value of a stage preview.
#[verifier::ext_equal]
pub struct PreviewView {
    pub points: Seq<usize>,
    pub triangles: Seq<PreviewTriangle>,
    pub textures: Seq<TextureView>,
    pub materials: Seq<MaterialView>,
    pub bindings: Seq<Seq<PreviewMaterialAnimationBinding>>,
    pub bounds: PreviewBounds,
}

impl View for ModelPreview {
    type V = PreviewView;

    open spec fn view(&self) -> PreviewView {
        PreviewView {
            points: self.points@,
            triangles: self.triangles@,
            textures: preview::texture_views(self.textures@),
            materials: preview::material_views(self.materials@),
            bindings: binding_views(self.material_animation_bindings@),
            bounds: PreviewBounds {
                min: self.bounds_min,
                max: self.bounds_max,
                camera_min: self.camera_bounds_min,
                camera_max: self.camera_bounds_max,
            },
        }
    }
}

/// The abstract value of a preview that may be missing.
pub open spec fn optional_preview(preview: Option<ModelPreview>) -> Option<PreviewView> {
    match preview {
        Some(preview) => Some(preview@),
        None => None,
    }
}

/// At most the first `n` items.
pub open spec fn cut<T>(list: Seq<T>, n: usize) -> Seq<T> {
    if n < list.len() {
        list.take(n as int)
    } else {
        list
    }
}

/// A preview without what was appended to it.
pub open spec fn without_appended(preview: PreviewView, base: AuthoredModelPreviewBase) -> Option<
    PreviewView,
> {
    if base.had_stage_preview {
        Some(
            PreviewView {
                points: preview.points,
                triangles: cut(preview.triangles, base.triangle_count),
                textures: cut(preview.textures, base.texture_count),
                materials: cut(preview.materials, base.material_count),
                bindings: cut(preview.bindings, base.material_binding_count),
                bounds: base.bounds,
            },
        )
    } else {
        None
    }
}

/// What a preview holds before anything is appended.
pub open spec fn base_of(preview: PreviewView, had_stage_preview: bool) -> AuthoredModelPreviewBase {
    AuthoredModelPreviewBase {
        had_stage_preview,
        triangle_count: preview.triangles.len() as usize,
        texture_count: preview.textures.len() as usize,
        material_count: preview.materials.len() as usize,
        material_binding_count: preview.bindings.len() as usize,
        bounds: preview.bounds,
    }
}

/// A preview of nothing, with bounds from 0 to 1.
pub open spec fn nothing() -> PreviewView {
    let zero = VectorBits { x: 0, y: 0, z: 0 };
    let one = VectorBits { x: 0x3f80_0000, y: 0x3f80_0000, z: 0x3f80_0000 };
    PreviewView {
        points: Seq::empty(),
        triangles: Seq::empty(),
        textures: Seq::empty(),
        materials: Seq::empty(),
        bindings: Seq::empty(),
        bounds: PreviewBounds { min: zero, max: one, camera_min: zero, camera_max: one },
    }
}

/// A preview of nothing.
pub fn empty_authored_model_preview() -> (r: ModelPreview)
    ensures
        r@ == nothing(),
{
    let zero = VectorBits { x: 0, y: 0, z: 0 };
    let one = VectorBits { x: 0x3f80_0000, y: 0x3f80_0000, z: 0x3f80_0000 };
    let r = ModelPreview {
        points: Vec::new(),
        triangles: Vec::new(),
        textures: Vec::new(),
        materials: Vec::new(),
        material_animation_bindings: Vec::new(),
        bounds_min: zero,
        bounds_max: one,
        camera_bounds_min: zero,
        camera_bounds_max: one,
    };
    proof {
        assert(r@ =~= nothing());
    }
    r
}

/// The state in which instances are appended to a preview.
pub open spec fn start_of(preview: PreviewView) -> Appended {
    let by_triangle = first_above(models(preview.triangles));
    let by_point = first_above(preview.points);
    Appended {
        textures: preview.textures,
        materials: preview.materials,
        bindings: preview.bindings,
        triangles: preview.triangles,
        resources: Seq::empty(),
        next_model: if by_triangle > by_point {
            by_triangle
        } else {
            by_point
        },
        next_packet: first_above(packets(preview.triangles)),
    }
}

/// A preview with the instances of a stage.
pub open spec fn with_appended(preview: PreviewView, source: AppendSource) -> PreviewView {
    let end = with_instances(start_of(preview), source, source.instances@.len());
    PreviewView {
        points: preview.points,
        triangles: end.triangles,
        textures: end.textures,
        materials: end.materials,
        bindings: end.bindings,
        bounds: preview.bounds,
    }
}

proof fn lemma_appending_extends(start: Appended, source: AppendSource, n: nat)
    requires
        start.bindings.len() <= start.materials.len(),
        n <= source.instances@.len(),
    ensures
        ({
            let end = with_instances(start, source, n);
            &&& start.triangles.is_prefix_of(end.triangles)
            &&& start.textures.is_prefix_of(end.textures)
            &&& start.materials.is_prefix_of(end.materials)
            &&& start.bindings.is_prefix_of(end.bindings)
            &&& end.bindings.len() <= end.materials.len()
        }),
    decreases n,
{
    let end = with_instances(start, source, n);
    if n == 0 {
        assert(start.triangles =~= start.triangles.take(start.triangles.len() as int));
        assert(start.textures =~= start.textures.take(start.textures.len() as int));
        assert(start.materials =~= start.materials.take(start.materials.len() as int));
        assert(start.bindings =~= start.bindings.take(start.bindings.len() as int));
    } else {
        lemma_appending_extends(start, source, (n - 1) as nat);
        let state = with_instances(start, source, (n - 1) as nat);
        if let Some(c) = shown_geometry(source, n - 1) {
            let cached = source.cache@[c];
            let loaded = with_resources(state, cached.key, cached.geometry);
            assert(start.textures =~= loaded.textures.take(start.textures.len() as int)) by {
                assert(start.textures =~= state.textures.take(start.textures.len() as int));
            }
            assert(start.materials =~= loaded.materials.take(start.materials.len() as int)) by {
                assert(start.materials =~= state.materials.take(start.materials.len() as int));
            }
            assert(start.bindings =~= loaded.bindings.take(start.bindings.len() as int)) by {
                assert(start.bindings =~= state.bindings.take(start.bindings.len() as int));
            }
            assert(start.triangles =~= end.triangles.take(start.triangles.len() as int)) by {
                assert(start.triangles =~= state.triangles.take(start.triangles.len() as int));
            }
        }
    }
}

/// Removing appended instances restores the preview as it was.
pub proof fn law_removing_restores_the_preview(preview: PreviewView, source: AppendSource)
    requires
        preview.bindings.len() <= preview.materials.len(),
        preview.triangles.len() <= usize::MAX,
        preview.textures.len() <= usize::MAX,
        preview.materials.len() <= usize::MAX,
    ensures
        without_appended(with_appended(preview, source), base_of(preview, true)) == Some(preview),
        without_appended(with_appended(preview, source), base_of(preview, false)) is None,
{
    lemma_appending_extends(start_of(preview), source, source.instances@.len());
    let end = with_appended(preview, source);
    let back = without_appended(end, base_of(preview, true))->Some_0;
    assert(back.triangles =~= preview.triangles);
    assert(back.textures =~= preview.textures);
    assert(back.materials =~= preview.materials);
    assert(back.bindings =~= preview.bindings);
    assert(back =~= preview);
}

/// Some instance of the stage has a compiled preview.
pub open spec fn any_shown(source: AppendSource) -> bool {
    exists|i: int|
        0 <= i < source.instances@.len() && (#[trigger] shown_geometry(source, i)) is Some
}

fn shows_any(source: &AppendSource) -> (r: bool)
    ensures
        r == any_shown(*source),
{
    let mut i: usize = 0;
    while i < source.instances.len()
        invariant
            i <= source.instances.len(),
            forall|j: int| 0 <= j < i ==> (#[trigger] shown_geometry(*source, j)) is None,
        decreases source.instances.len() - i,
    {
        if find_geometry(source, i).is_some() {
            return true;
        }
        i += 1;
    }
    false
}

impl SmsEditorApp {
    /// Everything but the preview is as it was.
    pub open spec fn changes_preview(self, before: SmsEditorApp) -> bool {
        &&& self.project == before.project
        &&& self.catalog == before.catalog
        &&& self.asset == before.asset
        &&& self.instances == before.instances
        &&& self.preview.cache == before.preview.cache
        &&& self.selected_object_id == before.selected_object_id
        &&& self.model_editor_error == before.model_editor_error
        &&& self.log == before.log
        &&& self.effects == before.effects
    }

    /// The stage preview without authored instances.
    pub open spec fn stage_preview(self) -> Option<PreviewView> {
        match (self.preview.base, self.preview.model) {
            (Some(base), Some(preview)) => without_appended(preview@, base),
            _ => optional_preview(self.preview.model),
        }
    }

    /// Forgets what the stage preview held before authored instances: a new one was built.
    pub fn reset_authored_model_preview_base(&mut self)
        ensures
            final(self).changes_preview(*old(self)),
            final(self).preview == (PreviewState { base: None, ..old(self).preview }),
    {
        self.preview.base = None;
    }

    /// Removes the authored instances from the stage preview.
    pub fn remove_authored_model_instance_preview(&mut self)
        ensures
            final(self).changes_preview(*old(self)),
            final(self).preview.base is None,
            optional_preview(final(self).preview.model) == old(self).stage_preview(),
    {
        let base = match self.preview.base {
            Some(base) => base,
            None => {
                return;
            },
        };
        self.preview.base = None;
        let ghost before = self.preview.model;
        if let Some(mut preview) = self.preview.model.take() {
            if base.had_stage_preview {
                let ghost was = preview;
                preview.triangles.truncate(base.triangle_count);
                preview.textures.truncate(base.texture_count);
                preview.materials.truncate(base.material_count);
                preview.material_animation_bindings.truncate(base.material_binding_count);
                preview.bounds_min = base.bounds.min;
                preview.bounds_max = base.bounds.max;
                preview.camera_bounds_min = base.bounds.camera_min;
                preview.camera_bounds_max = base.bounds.camera_max;
                proof {
                    let wanted = without_appended(was@, base)->Some_0;
                    assert(preview.triangles@ =~= wanted.triangles);
                    assert(preview::texture_views(preview.textures@) =~= wanted.textures);
                    assert(preview::material_views(preview.materials@) =~= wanted.materials);
                    assert(binding_views(preview.material_animation_bindings@)
                        =~= wanted.bindings);
                    assert(preview@ =~= wanted);
                }
                self.preview.model = Some(preview);
            }
        }
    }

    /// What the instances of the open stage are appended from.
    pub open spec fn append_source<'a>(
        &'a self,
        geometries: &'a Vec<CachedGeometry>,
        finite: &'a Vec<Vec<bool>>,
    ) -> AppendSource<'a> {
        AppendSource {
            cache: geometries,
            instances: &self.instances.list,
            stage_id: &self.project.stage_id,
            registry: &self.project.registry,
            flags: self.project.flags,
            finite,
        }
    }

    /// The preview that the instances are appended to.
    pub open spec fn preview_to_extend(self) -> PreviewView {
        match self.stage_preview() {
            Some(preview) => preview,
            None => nothing(),
        }
    }

    /// Brings the authored instances of the open stage into its preview, in place of those that
    /// are there. Whether any triangle was appended; the bounds then have to grow around them.
    pub fn sync_authored_model_instance_preview(
        &mut self,
        geometries: &Vec<CachedGeometry>,
        finite: &Vec<Vec<bool>>,
    ) -> (r: bool)
        requires
            any_shown(old(self).append_source(geometries, finite)) ==> can_extend(
                old(self).preview_to_extend(),
                old(self).append_source(geometries, finite),
            ),
        ensures
            final(self).changes_preview(*old(self)),
            ({
                let source = old(self).append_source(geometries, finite);
                let start = old(self).preview_to_extend();
                let extended = with_appended(start, source);
                &&& r == (any_shown(source) && extended.triangles.len() > start.triangles.len())
                &&& r ==> optional_preview(final(self).preview.model) == Some(extended)
                    && final(self).preview.base == Some(
                    base_of(start, old(self).stage_preview() is Some),
                )
                &&& !any_shown(source) ==> optional_preview(final(self).preview.model)
                    == old(self).stage_preview() && final(self).preview.base is None
                &&& any_shown(source) && !r ==> optional_preview(final(self).preview.model)
                    == without_appended(extended, base_of(start, old(self).stage_preview() is Some))
                    && final(self).preview.base is None
            }),
    {
        self.remove_authored_model_instance_preview();
        let ghost wanted = old(self).append_source(geometries, finite);
        let shown = {
            let source = AppendSource {
                cache: geometries,
                instances: &self.instances.list,
                stage_id: &self.project.stage_id,
                registry: &self.project.registry,
                flags: self.project.flags,
                finite,
            };
            shows_any(&source)
        };
        if !shown {
            return false;
        }
        let had_stage_preview = self.preview.model.is_some();
        let mut preview = match self.preview.model.take() {
            Some(preview) => preview,
            None => empty_authored_model_preview(),
        };
        let ghost start = preview@;
        proof {
            assert(start == old(self).preview_to_extend());
            assert(preview::texture_views(preview.textures@).len() == preview.textures@.len());
            assert(preview::material_views(preview.materials@).len() == preview.materials@.len());
            assert(binding_views(preview.material_animation_bindings@).len()
                == preview.material_animation_bindings@.len());
        }
        let base = AuthoredModelPreviewBase {
            had_stage_preview,
            triangle_count: preview.triangles.len(),
            texture_count: preview.textures.len(),
            material_count: preview.materials.len(),
            material_binding_count: preview.material_animation_bindings.len(),
            bounds: PreviewBounds {
                min: preview.bounds_min,
                max: preview.bounds_max,
                camera_min: preview.camera_bounds_min,
                camera_max: preview.camera_bounds_max,
            },
        };
        let appended = {
            let source = AppendSource {
                cache: geometries,
                instances: &self.instances.list,
                stage_id: &self.project.stage_id,
                registry: &self.project.registry,
                flags: self.project.flags,
                finite,
            };
            append_authored_model_instances(&mut preview, &source)
        };
        proof {
            assert(preview@ =~= with_appended(start, wanted));
        }
        self.preview.model = Some(preview);
        self.preview.base = Some(base);
        if appended == 0 {
            self.remove_authored_model_instance_preview();
            return false;
        }
        true
    }

    /// Sets the bounds that the appended triangles need. Where the stage has no preview of its
    /// own, the camera takes them too.
    pub fn finish_authored_preview(&mut self, bounds_min: VectorBits, bounds_max: VectorBits)
        ensures
            final(self).changes_preview(*old(self)),
            final(self).preview.base == old(self).preview.base,
            match (old(self).preview.model, old(self).preview.base) {
                (Some(preview), Some(base)) => optional_preview(final(self).preview.model) == Some(
                    PreviewView {
                        bounds: PreviewBounds {
                            min: bounds_min,
                            max: bounds_max,
                            camera_min: if base.had_stage_preview {
                                preview.camera_bounds_min
                            } else {
                                bounds_min
                            },
                            camera_max: if base.had_stage_preview {
                                preview.camera_bounds_max
                            } else {
                                bounds_max
                            },
                        },
                        ..preview@
                    },
                ),
                _ => final(self).preview.model == old(self).preview.model,
            },
    {
        if let Some(base) = self.preview.base {
            if let Some(mut preview) = self.preview.model.take() {
                preview.bounds_min = bounds_min;
                preview.bounds_max = bounds_max;
                if !base.had_stage_preview {
                    preview.camera_bounds_min = bounds_min;
                    preview.camera_bounds_max = bounds_max;
                }
                self.preview.model = Some(preview);
            }
        }
    }
}

} // verus!
