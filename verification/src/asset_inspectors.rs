//! What the inspectors of the open model asset show and do: hierarchy, materials, textures,
//! collision and diagnostics.
use vstd::prelude::*;

use crate::editor::{AssetState, EditorEffect, SmsEditorApp};
use crate::gx;
use crate::gx::{GxDefaults, GxView, ImportedAlphaMode, ModelMaterial};
use crate::model_instances::CollisionSurface;
use crate::stage_edits::DocumentId;
use crate::text;

verus! {

/// The loader that diagnostics are made for.
#[derive(Debug, Clone, Copy, PartialEq, Eq, Structural)]
pub enum ModelTargetProfile {
    Full,
    SunshineMap,
    SunshineObject,
    SunshinePollution,
}

impl ModelTargetProfile {
    /// The name of the loader.
    pub open spec fn name(self) -> Seq<char> {
        match self {
            ModelTargetProfile::Full => "Full J3D"@,
            ModelTargetProfile::SunshineMap => "Sunshine map"@,
            ModelTargetProfile::SunshineObject => "Sunshine object"@,
            ModelTargetProfile::SunshinePollution => "Sunshine pollution"@,
        }
    }

    /// The name of the loader.
    pub fn label(self) -> (r: &'static str)
        ensures
            r@ == self.name(),
    {
        match self {
            ModelTargetProfile::Full => "Full J3D",
            ModelTargetProfile::SunshineMap => "Sunshine map",
            ModelTargetProfile::SunshineObject => "Sunshine object",
            ModelTargetProfile::SunshinePollution => "Sunshine pollution",
        }
    }
}

/// A node of a model.
#[derive(Debug)]
pub struct ModelNode {
    pub name: String,
    pub parent: Option<u32>,
    pub children: Vec<u32>,
    pub mesh: Option<u32>,
    pub purpose: String,
}

/// How many steps lead from a node to the top, at most `limit`.
pub open spec fn steps_up(nodes: Seq<ModelNode>, index: int, limit: nat) -> nat
    decreases limit,
{
    if limit == 0 || !(0 <= index < nodes.len()) {
        0
    } else {
        match nodes[index].parent {
            Some(parent) => 1 + steps_up(nodes, parent as int, (limit - 1) as nat),
            None => 0,
        }
    }
}

/// How deep a node lies in the hierarchy. Parents that lead in a circle count at most as many
/// steps as there are nodes.
pub fn node_depth(nodes: &[ModelNode], start: usize) -> (r: usize)
    ensures
        r == steps_up(nodes@, start as int, nodes@.len()),
{
    let mut index: usize = start;
    let mut depth: usize = 0;
    while depth < nodes.len()
        invariant_except_break
            depth <= nodes.len(),
            steps_up(nodes@, start as int, nodes@.len()) == depth + steps_up(
                nodes@,
                index as int,
                (nodes@.len() - depth) as nat,
            ),
        ensures
            steps_up(nodes@, start as int, nodes@.len()) == depth,
        decreases nodes.len() - depth,
    {
        if index >= nodes.len() {
            break;
        }
        match nodes[index].parent {
            Some(parent) => {
                depth += 1;
                index = parent as usize;
            },
            None => {
                break;
            },
        }
    }
    depth
}

/// The line about a node: what it is for, and its mesh.
pub open spec fn node_text(node: ModelNode) -> Seq<char> {
    match node.mesh {
        Some(mesh) => node.purpose@ + " / mesh "@ + text::decimal(mesh as nat),
        None => node.purpose@,
    }
}

/// The line about a node.
pub fn node_line(node: &ModelNode) -> (r: String)
    ensures
        r@ == node_text(*node),
{
    match node.mesh {
        Some(mesh) => {
            let number = text::decimal_text(mesh as u128);
            node.purpose.clone().concat(" / mesh ").concat(number.as_str())
        },
        None => node.purpose.clone(),
    }
}

/// The sign before a node: whether it has children.
pub fn node_sign(node: &ModelNode) -> (r: &'static str)
    ensures
        r@ == (if node.children@.len() == 0 {
            "-"@
        } else {
            "+"@
        }),
{
    if node.children.len() == 0 {
        "-"
    } else {
        "+"
    }
}

/// The head of the hierarchy inspector.
pub fn hierarchy_line(nodes: usize, meshes: usize) -> (r: String)
    ensures
        r@ == text::decimal(nodes as nat) + " node(s), "@ + text::decimal(meshes as nat)
            + " mesh(es)"@,
{
    let a = text::decimal_text(nodes as u128);
    let b = text::decimal_text(meshes as u128);
    a.concat(" node(s), ").concat(b.as_str()).concat(" mesh(es)")
}

/// A row of the hierarchy.
#[derive(Debug)]
pub struct HierarchyRow {
    pub depth: usize,
    pub sign: &'static str,
    pub name: String,
    pub line: String,
}

/// The row shows a node.
pub open spec fn is_row_of(row: HierarchyRow, nodes: Seq<ModelNode>, index: int) -> bool {
    &&& row.depth == steps_up(nodes, index, nodes.len())
    &&& row.sign@ == (if nodes[index].children@.len() == 0 {
        "-"@
    } else {
        "+"@
    })
    &&& row.name@ == nodes[index].name@
    &&& row.line@ == node_text(nodes[index])
}

/// The rows of the hierarchy: one for each node, in the order of the nodes.
pub fn model_hierarchy_inspector(nodes: &[ModelNode]) -> (r: Vec<HierarchyRow>)
    ensures
        r@.len() == nodes@.len(),
        forall|i: int| 0 <= i < nodes@.len() ==> is_row_of(#[trigger] r@[i], nodes@, i),
{
    let mut rows: Vec<HierarchyRow> = Vec::new();
    let mut i: usize = 0;
    while i < nodes.len()
        invariant
            i <= nodes.len(),
            rows@.len() == i,
            forall|j: int| 0 <= j < i ==> is_row_of(#[trigger] rows@[j], nodes@, j),
        decreases nodes.len() - i,
    {
        let node = &nodes[i];
        let row = HierarchyRow {
            depth: node_depth(nodes, i),
            sign: node_sign(node),
            name: node.name.as_str().to_owned(),
            line: node_line(node),
        };
        rows.push(row);
        i += 1;
    }
    rows
}

/// A primitive of a mesh.
#[derive(Debug, Clone, Copy, PartialEq, Eq, Structural)]
pub struct PrimitiveCounts {
    pub vertices: usize,
    pub indices: usize,
    pub uv_sets: usize,
    pub color_sets: usize,
    pub material: Option<u32>,
}

/// The line about a primitive.
pub open spec fn primitive_text(index: nat, counts: PrimitiveCounts) -> Seq<char> {
    "Primitive "@ + text::decimal(index) + ": "@ + text::decimal(counts.vertices as nat)
        + " vertices, "@ + text::decimal((counts.indices / 3) as nat) + " triangles, "@
        + text::decimal(counts.uv_sets as nat) + " UV set(s), "@ + text::decimal(
        counts.color_sets as nat,
    ) + " color set(s), material "@ + (match counts.material {
        Some(material) => text::decimal(material as nat),
        None => "default"@,
    })
}

/// The line about a primitive.
pub fn primitive_line(index: usize, counts: PrimitiveCounts) -> (r: String)
    ensures
        r@ == primitive_text(index as nat, counts),
{
    let number = text::decimal_text(index as u128);
    let vertices = text::decimal_text(counts.vertices as u128);
    let triangles = text::decimal_text((counts.indices / 3) as u128);
    let uv_sets = text::decimal_text(counts.uv_sets as u128);
    let color_sets = text::decimal_text(counts.color_sets as u128);
    let material = match counts.material {
        Some(material) => text::decimal_text(material as u128),
        None => "default".to_owned(),
    };
    "Primitive ".to_owned().concat(number.as_str()).concat(": ").concat(vertices.as_str()).concat(
        " vertices, ",
    ).concat(triangles.as_str()).concat(" triangles, ").concat(uv_sets.as_str()).concat(
        " UV set(s), ",
    ).concat(color_sets.as_str()).concat(" color set(s), material ").concat(material.as_str())
}

/// The material looks opaque at its source and is not drawn so.
pub open spec fn opacity_is_doubtful(material: ModelMaterial) -> bool {
    material.source_alpha_mode == ImportedAlphaMode::Opaque && (material.gx.material_mode & 4 != 0
        || material.gx.blend_mode.mode != 0 || material.gx.depth_mode.update_enabled == 0 || (
    !material.source_double_sided && material.gx.cull_mode == 0))
}

/// Whether the inspector warns that a material which is opaque at its source is not drawn so.
pub fn warns_of_opacity(material: &ModelMaterial) -> (r: bool)
    ensures
        r == opacity_is_doubtful(*material),
{
    material.source_alpha_mode == ImportedAlphaMode::Opaque && (material.gx.material_mode & 4 != 0
        || material.gx.blend_mode.mode != 0 || material.gx.depth_mode.update_enabled == 0 || (
    !material.source_double_sided && material.gx.cull_mode == 0))
}

/// The summary of a material's registers.
pub open spec fn material_text(gx: GxView) -> Seq<char> {
    "TEV "@ + text::decimal(gx.tev_stage_count as nat) + " stage(s), "@ + text::decimal(
        gx.tex_gen_count as nat,
    ) + " texgen(s), "@ + text::decimal(gx.color_channel_count as nat) + " color channel(s), cull "@
        + text::decimal(gx.cull_mode as nat) + ", mode "@ + text::decimal(gx.material_mode as nat)
        + ", blend "@ + text::decimal(gx.blend_mode.mode as nat) + ", Z write "@ + text::decimal(
        gx.depth_mode.update_enabled as nat,
    )
}

/// The summary of a material's registers.
pub fn material_line(material: &ModelMaterial) -> (r: String)
    ensures
        r@ == material_text(material.gx@),
{
    let gx = &material.gx;
    let stages = text::decimal_text(gx.tev_stage_count as u128);
    let texgens = text::decimal_text(gx.tex_gen_count as u128);
    let channels = text::decimal_text(gx.color_channel_count as u128);
    let cull = text::decimal_text(gx.cull_mode as u128);
    let mode = text::decimal_text(gx.material_mode as u128);
    let blend = text::decimal_text(gx.blend_mode.mode as u128);
    let write = text::decimal_text(gx.depth_mode.update_enabled as u128);
    "TEV ".to_owned().concat(stages.as_str()).concat(" stage(s), ").concat(texgens.as_str()).concat(
        " texgen(s), ",
    ).concat(channels.as_str()).concat(" color channel(s), cull ").concat(cull.as_str()).concat(
        ", mode ",
    ).concat(mode.as_str()).concat(", blend ").concat(blend.as_str()).concat(", Z write ").concat(
        write.as_str(),
    )
}

/// The presets of the material inspector.
#[derive(Debug, Clone, Copy, PartialEq, Eq, Structural)]
pub enum MaterialPreset {
    Lit,
    Unlit,
    Opaque,
    TwoSided,
    AlphaBlend,
}

impl MaterialPreset {
    /// The label of the edit.
    pub open spec fn edit(self) -> Seq<char> {
        match self {
            MaterialPreset::Lit => "Applied conservative diffuse and specular preset"@,
            MaterialPreset::Unlit => "Applied unlit preset"@,
            MaterialPreset::Opaque => "Applied opaque material preset"@,
            MaterialPreset::TwoSided => "Enabled two-sided rendering"@,
            MaterialPreset::AlphaBlend => "Applied alpha blend preset"@,
        }
    }

    /// The label of the edit.
    pub fn edit_label(self) -> (r: &'static str)
        ensures
            r@ == self.edit(),
    {
        match self {
            MaterialPreset::Lit => "Applied conservative diffuse and specular preset",
            MaterialPreset::Unlit => "Applied unlit preset",
            MaterialPreset::Opaque => "Applied opaque material preset",
            MaterialPreset::TwoSided => "Enabled two-sided rendering",
            MaterialPreset::AlphaBlend => "Applied alpha blend preset",
        }
    }
}

/// A material's registers after a preset.
pub open spec fn preset_registers(
    preset: MaterialPreset,
    gx: GxView,
    textured: bool,
    defaults: GxDefaults,
) -> GxView {
    match preset {
        MaterialPreset::Lit => if gx::can_be_lit(gx, textured, defaults) {
            gx.lit(defaults)
        } else {
            gx
        },
        MaterialPreset::Unlit => gx.unlit(textured, defaults),
        MaterialPreset::Opaque => gx.opaque(defaults),
        MaterialPreset::TwoSided => GxView { cull_mode: 0, ..gx },
        MaterialPreset::AlphaBlend => gx.alpha_blended(defaults),
    }
}

/// Applies a preset to a material. Whether it fits: only the lit preset asks for a material that
/// an import left as it was.
pub fn apply_material_preset(
    preset: MaterialPreset,
    material: &mut ModelMaterial,
    defaults: &GxDefaults,
) -> (r: bool)
    ensures
        r == (preset != MaterialPreset::Lit || gx::can_be_lit(
            old(material).gx@,
            old(material).base_color_texture is Some,
            *defaults,
        )),
        final(material).gx@ == preset_registers(
            preset,
            old(material).gx@,
            old(material).base_color_texture is Some,
            *defaults,
        ),
        final(material).base_color_texture == old(material).base_color_texture,
        final(material).source_double_sided == old(material).source_double_sided,
        final(material).source_alpha_mode == old(material).source_alpha_mode,
{
    match preset {
        MaterialPreset::Lit => {
            return gx::apply_conservative_diffuse_specular_preset(material, defaults);
        },
        MaterialPreset::Unlit => {
            gx::apply_conservative_unlit_preset(material, defaults);
        },
        MaterialPreset::Opaque => {
            gx::apply_opaque_material_preset(&mut material.gx, defaults);
        },
        MaterialPreset::TwoSided => {
            material.gx.cull_mode = 0;
        },
        MaterialPreset::AlphaBlend => {
            gx::apply_alpha_blend_material_preset(&mut material.gx, defaults);
        },
    }
    true
}

/// A position in a list that is not empty.
pub open spec fn clamped(index: usize, count: usize) -> usize {
    if index < count {
        index
    } else {
        (count - 1) as usize
    }
}

impl SmsEditorApp {
    /// Chooses the material that the inspector shows: the one picked by the user, or the selected
    /// one as far as the asset has it. Another material rewrites the draft.
    pub fn model_material_inspector(&mut self, count: usize, picked: Option<usize>) -> (r: Option<
        usize,
    >)
        requires
            picked matches Some(k) ==> k < count,
        ensures
            final(self).changes_view(*old(self)),
            final(self).asset.texture == old(self).asset.texture,
            count == 0 ==> r is None && *final(self) == *old(self),
            count > 0 ==> ({
                let shown = clamped(old(self).asset.material, count);
                let chosen = match picked {
                    Some(k) => k,
                    None => shown,
                };
                &&& r == Some(chosen)
                &&& final(self).asset.material == chosen
                &&& if chosen == shown {
                    final(self).effects == old(self).effects && final(self).model_editor_error
                        == old(self).model_editor_error
                } else {
                    final(self).effects@ == old(self).effects@.push(
                        EditorEffect::SyncMaterialDraft,
                    ) && final(self).model_editor_error is None
                }
            }),
    {
        if count == 0 {
            return None;
        }
        if self.asset.material >= count {
            self.asset.material = count - 1;
        }
        if let Some(k) = picked {
            if k != self.asset.material {
                self.asset.material = k;
                self.effects.push(EditorEffect::SyncMaterialDraft);
                self.model_editor_error = None;
            }
        }
        Some(self.asset.material)
    }

    /// Chooses the texture that the inspector shows, as `model_material_inspector` does.
    pub fn model_texture_inspector(&mut self, count: usize, picked: Option<usize>) -> (r: Option<
        usize,
    >)
        requires
            picked matches Some(k) ==> k < count,
        ensures
            final(self).changes_view(*old(self)),
            final(self).asset.material == old(self).asset.material,
            count == 0 ==> r is None && *final(self) == *old(self),
            count > 0 ==> ({
                let shown = clamped(old(self).asset.texture, count);
                let chosen = match picked {
                    Some(k) => k,
                    None => shown,
                };
                &&& r == Some(chosen)
                &&& final(self).asset.texture == chosen
                &&& if chosen == shown {
                    final(self).effects == old(self).effects && final(self).model_editor_error
                        == old(self).model_editor_error
                } else {
                    final(self).effects@ == old(self).effects@.push(
                        EditorEffect::SyncTextureDraft,
                    ) && final(self).model_editor_error is None
                }
            }),
    {
        if count == 0 {
            return None;
        }
        if self.asset.texture >= count {
            self.asset.texture = count - 1;
        }
        if let Some(k) = picked {
            if k != self.asset.texture {
                self.asset.texture = k;
                self.effects.push(EditorEffect::SyncTextureDraft);
                self.model_editor_error = None;
            }
        }
        Some(self.asset.texture)
    }

    /// Only what the inspectors show differs.
    pub open spec fn changes_view(self, before: SmsEditorApp) -> bool {
        &&& self.project == before.project
        &&& self.catalog == before.catalog
        &&& self.instances == before.instances
        &&& self.preview == before.preview
        &&& self.selected_object_id == before.selected_object_id
        &&& self.log == before.log
        &&& self.asset == (AssetState {
            material: self.asset.material,
            texture: self.asset.texture,
            ..before.asset
        })
    }

    /// Takes over the document with a preset applied; `None` where the preset does not fit the
    /// material.
    pub fn press_material_preset(&mut self, preset: MaterialPreset, after: Option<DocumentId>)
        ensures
            final(self).changes_asset(*old(self)),
            final(self).log == old(self).log,
            match after {
                Some(after) => {
                    &&& final(self).asset_history() == old(self).asset_history().edited(
                        preset.edit(),
                        after,
                    )
                    &&& if old(self).edit_counts(after) {
                        final(self).model_editor_error is None && final(self).effects@
                            == old(self).effects@.push(EditorEffect::SyncMaterialDraft)
                    } else {
                        *final(self) == *old(self)
                    }
                },
                None => final(self).asset_history() == old(self).asset_history()
                    && final(self).effects == old(self).effects && final(self).error() == Some(
                    "The diffuse + specular preset only applies to the canonical conservative glTF TEV program. Revert advanced TEV edits before applying it."@,
                ),
            },
    {
        match after {
            Some(after) => {
                self.mutate_model_asset(preset.edit_label(), after);
            },
            None => {
                self.model_editor_error = Some(
                    "The diffuse + specular preset only applies to the canonical conservative glTF TEV program. Revert advanced TEV edits before applying it.".to_owned(),
                );
            },
        }
    }

    /// Keeps a surface as the one that new overrides begin with.
    pub fn use_surface_as_template(&mut self, surface: CollisionSurface)
        ensures
            final(self).changes_instances(*old(self)),
            final(self).log == old(self).log,
            final(self).effects == old(self).effects,
            final(self).instances == (crate::editor::InstanceState {
                surface_template: Some(surface),
                ..old(self).instances
            }),
    {
        self.instances.surface_template = Some(surface);
    }
}

/// The sum of the first `n` counts.
pub open spec fn total(counts: Seq<usize>, n: nat) -> nat
    decreases n,
{
    if n == 0 {
        0
    } else {
        total(counts, (n - 1) as nat) + counts[n - 1] as nat
    }
}

proof fn lemma_total_grows(counts: Seq<usize>, n: nat, m: nat)
    requires
        n <= m,
    ensures
        total(counts, n) <= total(counts, m),
    decreases m,
{
    if n < m {
        lemma_total_grows(counts, n, (m - 1) as nat);
    }
}

/// A group of collision triangles that share a surface.
#[derive(Debug)]
pub struct CollisionGroup {
    pub name: String,
    pub surface: CollisionSurface,
    /// How many triangles it has.
    pub triangles: usize,
}

/// Takes over an edited name and surface of a collision group; a group that is gone is passed
/// over.
pub fn model_collision_inspector(
    groups: &mut Vec<CollisionGroup>,
    index: usize,
    name: String,
    surface: CollisionSurface,
)
    ensures
        final(groups)@ == (if index < old(groups)@.len() {
            old(groups)@.update(
                index as int,
                CollisionGroup {
                    name,
                    surface,
                    triangles: old(groups)@[index as int].triangles,
                },
            )
        } else {
            old(groups)@
        }),
{
    if index < groups.len() {
        let triangles: usize = groups[index].triangles;
        groups.set(index, CollisionGroup { name, surface, triangles });
    }
}

/// The head of the collision inspector: vertices, groups and the triangles of all groups.
pub fn collision_line(vertices: usize, triangles: &[usize]) -> (r: String)
    requires
        total(triangles@, triangles@.len()) <= usize::MAX,
    ensures
        r@ == text::decimal(vertices as nat) + " welded vertices / "@ + text::decimal(
            triangles@.len(),
        ) + " group(s) / "@ + text::decimal(total(triangles@, triangles@.len())) + " triangles"@,
{
    let mut sum: usize = 0;
    let mut i: usize = 0;
    while i < triangles.len()
        invariant
            i <= triangles.len(),
            total(triangles@, triangles@.len()) <= usize::MAX,
            sum == total(triangles@, i as nat),
        decreases triangles.len() - i,
    {
        proof {
            lemma_total_grows(triangles@, (i + 1) as nat, triangles@.len());
        }
        sum += triangles[i];
        i += 1;
    }
    let a = text::decimal_text(vertices as u128);
    let b = text::decimal_text(triangles.len() as u128);
    let c = text::decimal_text(sum as u128);
    a.concat(" welded vertices / ").concat(b.as_str()).concat(" group(s) / ").concat(
        c.as_str(),
    ).concat(" triangles")
}

/// The diagnostics that the user has acknowledged, by their codes.
pub fn review_diagnostic(acknowledged: &[u32], code: u32, accepted: bool) -> (r: Vec<u32>)
    ensures
        r@ == (if accepted {
            if acknowledged@.contains(code) {
                acknowledged@
            } else {
                acknowledged@.push(code)
            }
        } else {
            acknowledged@.filter(is_other_code(code))
        }),
{
    let ghost keep = is_other_code(code);
    let mut r: Vec<u32> = Vec::new();
    let mut found: bool = false;
    let mut i: usize = 0;
    proof {
        assert(acknowledged@.take(0).filter(keep) =~= Seq::empty()) by {
            reveal(Seq::filter);
        }
        assert(acknowledged@.take(0) =~= Seq::empty());
    }
    while i < acknowledged.len()
        invariant
            i <= acknowledged.len(),
            keep == is_other_code(code),
            found == acknowledged@.take(i as int).contains(code),
            r@ == (if accepted {
                acknowledged@.take(i as int)
            } else {
                acknowledged@.take(i as int).filter(keep)
            }),
        decreases acknowledged.len() - i,
    {
        let item: u32 = acknowledged[i];
        proof {
            let before = acknowledged@.take(i as int);
            let after = acknowledged@.take(i + 1);
            assert(after.drop_last() =~= before);
            assert(after =~= before.push(item));
            assert(after.filter(keep) == (if keep(item) {
                before.filter(keep).push(item)
            } else {
                before.filter(keep)
            })) by {
                reveal(Seq::filter);
            }
            assert(after.contains(code) == (before.contains(code) || item == code)) by {
                if before.contains(code) {
                    let k = choose|k: int| 0 <= k < before.len() && before[k] == code;
                    assert(after[k] == code);
                }
                if item == code {
                    assert(after[i as int] == code);
                }
                if after.contains(code) {
                    let k = choose|k: int| 0 <= k < after.len() && after[k] == code;
                    if k < i {
                        assert(before[k] == code);
                    }
                }
            }
        }
        if item == code {
            found = true;
        }
        if accepted || item != code {
            r.push(item);
        }
        i += 1;
    }
    proof {
        assert(acknowledged@.take(i as int) =~= acknowledged@);
    }
    if accepted && !found {
        r.push(code);
    }
    r
}

/// Another code.
pub open spec fn is_other_code(code: u32) -> spec_fn(u32) -> bool {
    |other: u32| other != code
}

/// An asset's colour number.
pub open spec fn hue(mesh_count: usize, material_count: usize) -> u8 {
    ((mesh_count as u8).wrapping_mul(37)).wrapping_add((material_count as u8).wrapping_mul(17))
}

/// The colour of an asset's thumbnail, from how many meshes and materials it has.
pub fn thumbnail_color(mesh_count: usize, material_count: usize) -> (r: (u8, u8, u8))
    ensures
        r.0 == (if 90 + hue(mesh_count, material_count) / 4 > 255 {
            255
        } else {
            90 + hue(mesh_count, material_count) / 4
        }),
        r.1 == (if 150 + hue(mesh_count, material_count) / 5 > 255 {
            255
        } else {
            150 + hue(mesh_count, material_count) / 5
        }),
        r.2 == 205 - hue(mesh_count, material_count) / 6,
{
    let number: u8 = (mesh_count as u8).wrapping_mul(37).wrapping_add(
        (material_count as u8).wrapping_mul(17),
    );
    (90u8.saturating_add(number / 4), 150u8.saturating_add(number / 5), 205u8.saturating_sub(number / 6))
}

/// The line below an asset's thumbnail.
pub fn thumbnail_line(meshes: usize, materials: usize, textures: usize) -> (r: String)
    ensures
        r@ == text::decimal(meshes as nat) + " mesh / "@ + text::decimal(materials as nat)
            + " mat / "@ + text::decimal(textures as nat) + " tex"@,
{
    let a = text::decimal_text(meshes as u128);
    let b = text::decimal_text(materials as u128);
    let c = text::decimal_text(textures as u128);
    a.concat(" mesh / ").concat(b.as_str()).concat(" mat / ").concat(c.as_str()).concat(" tex")
}

} // verus!
