//! Emitters in the preview: those of placed actors, and those that accompany a level
//! transformation.
use vstd::prelude::*;

use crate::particle_slots;
use crate::particle_slots::{BirthLimits, JpaEffect, ParticlePreview, ParticleState};
use crate::particle_sources;
use crate::particle_sources::FoundEffect;
use crate::preview::{PreviewTexture, PreviewTriangle};
use crate::registry::ObjectRegistry;
use crate::search;
use crate::stage::SceneObject;

verus! {

/// An effect and what its speeds and lifetimes allow.
#[derive(Debug)]
pub struct LoadedEffect {
    pub effect: JpaEffect,
    pub limits: BirthLimits,
}

/// The limits of every effect can be counted up.
pub open spec fn limits_fit(effects: Seq<LoadedEffect>) -> bool {
    forall|i: int|
        0 <= i < effects.len() ==> (#[trigger] effects[i]).limits.child_events < usize::MAX
}

/// The effect that a binding names, among those that were found.
pub open spec fn effect_of(registry: ObjectRegistry, found: Seq<FoundEffect>, binding: usize) -> int {
    search::first_position(
        found,
        particle_sources::is_effect(registry.actor_particle_bindings@[binding as int].effect_id),
    )->Some_0
}

/// The preview with the emitters of the first `n` of some bindings.
pub open spec fn with_bindings(
    start: ParticleState,
    registry: ObjectRegistry,
    found: Seq<FoundEffect>,
    effects: Seq<LoadedEffect>,
    bindings: Seq<usize>,
    model: usize,
    n: nat,
) -> ParticleState
    decreases n,
{
    if n == 0 {
        start
    } else {
        let rest = with_bindings(
            start,
            registry,
            found,
            effects,
            bindings,
            model,
            (n - 1) as nat,
        );
        let at = effect_of(registry, found, bindings[n - 1]);
        let loaded = effects[found[at].effect as int];
        particle_slots::with_emitter(
            rest,
            loaded.effect,
            Some(registry.actor_particle_bindings@[bindings[n - 1] as int].effect_id),
            Some(model),
            loaded.limits,
        )
    }
}

/// Every effect that was found is among the loaded ones.
pub open spec fn found_is_loaded(found: Seq<FoundEffect>, effects: Seq<LoadedEffect>) -> bool {
    forall|i: int| 0 <= i < found.len() ==> (#[trigger] found[i]).effect < effects.len()
}

proof fn lemma_applying(
    registry: ObjectRegistry,
    object: SceneObject,
    found: Seq<FoundEffect>,
    joints: nat,
    n: nat,
)
    requires
        n <= registry.actor_particle_bindings@.len(),
        n <= usize::MAX,
    ensures
        particle_sources::applying(registry, object, found, joints, n).len() <= n,
        forall|i: int|
            0 <= i < particle_sources::applying(registry, object, found, joints, n).len() ==> ({
                let b = #[trigger] particle_sources::applying(registry, object, found, joints, n)[i];
                b < n && particle_sources::binding_applies(
                    registry.actor_particle_bindings@[b as int],
                    registry,
                    object,
                    found,
                    joints,
                )
            }),
    decreases n,
{
    if n > 0 {
        lemma_applying(registry, object, found, joints, (n - 1) as nat);
        let rest = particle_sources::applying(registry, object, found, joints, (n - 1) as nat);
        let all = particle_sources::applying(registry, object, found, joints, n);
        assert forall|i: int| 0 <= i < all.len() implies ({
            let b = #[trigger] all[i];
            b < n && particle_sources::binding_applies(
                registry.actor_particle_bindings@[b as int],
                registry,
                object,
                found,
                joints,
            )
        }) by {
            if i < rest.len() {
                assert(all[i] == rest[i]);
            }
        }
    }
}

fn find_effect(found: &[FoundEffect], id: u16) -> (r: usize)
    requires
        search::first_position(found@, particle_sources::is_effect(id)) is Some,
    ensures
        r < found@.len(),
        search::first_position(found@, particle_sources::is_effect(id)) == Some(r as int),
{
    let ghost p = particle_sources::is_effect(id);
    let mut i: usize = 0;
    while i < found.len()
        invariant
            i <= found.len(),
            p == particle_sources::is_effect(id),
            search::first_position(found@, p) is Some,
            forall|j: int| 0 <= j < i ==> !p(#[trigger] found@[j]),
        decreases found.len() - i,
    {
        if found[i].effect_id == id {
            proof {
                search::lemma_found(found@, p, i as int);
            }
            return i;
        }
        i += 1;
    }
    proof {
        search::lemma_not_found(found@, p);
    }
    0
}

/// Appends the emitters of a placed actor, in the order of its bindings, and returns the bindings:
/// they say where each emitter sits.
pub fn push_actor_particle_previews(
    registry: Option<&ObjectRegistry>,
    object: &SceneObject,
    found: &[FoundEffect],
    effects: &[LoadedEffect],
    joints: usize,
    model_index: usize,
    textures: &mut Vec<PreviewTexture>,
    triangles: &mut Vec<PreviewTriangle>,
    next_packet: &mut usize,
    previews: &mut Vec<ParticlePreview>,
) -> (r: Vec<usize>)
    requires
        found_is_loaded(found@, effects@),
        limits_fit(effects@),
        registry matches Some(registry) ==> *old(next_packet) + 2
            * registry.actor_particle_bindings@.len() < usize::MAX,
    ensures
        match registry {
            None => r@.len() == 0 && *final(textures) == *old(textures) && *final(triangles)
                == *old(triangles) && *final(next_packet) == *old(next_packet) && *final(previews)
                == *old(previews),
            Some(registry) => {
                &&& r@ == particle_sources::applying(
                    *registry,
                    *object,
                    found@,
                    joints as nat,
                    registry.actor_particle_bindings@.len(),
                )
                &&& particle_slots::state_view(
                    final(textures)@,
                    final(triangles)@,
                    *final(next_packet),
                    final(previews)@,
                ) == with_bindings(
                    particle_slots::state_view(
                        old(textures)@,
                        old(triangles)@,
                        *old(next_packet),
                        old(previews)@,
                    ),
                    *registry,
                    found@,
                    effects@,
                    r@,
                    model_index,
                    r@.len(),
                )
            },
        },
{
    let bindings = particle_sources::actor_particle_bindings(registry, object, found, joints);
    let registry = match registry {
        Some(registry) => registry,
        None => {
            return bindings;
        },
    };
    let total: usize = registry.actor_particle_bindings.len();
    proof {
        lemma_applying(*registry, *object, found@, joints as nat, total as nat);
    }
    let ghost start = particle_slots::state_view(
        textures@,
        triangles@,
        *next_packet,
        previews@,
    );
    let mut i: usize = 0;
    while i < bindings.len()
        invariant
            i <= bindings.len(),
            bindings@.len() <= total,
            total == registry.actor_particle_bindings@.len(),
            found_is_loaded(found@, effects@),
            limits_fit(effects@),
            forall|k: int|
                0 <= k < bindings@.len() ==> ({
                    let b = #[trigger] bindings@[k];
                    b < total && particle_sources::binding_applies(
                        registry.actor_particle_bindings@[b as int],
                        *registry,
                        *object,
                        found@,
                        joints as nat,
                    )
                }),
            start.next_packet + 2 * total < usize::MAX,
            *next_packet <= start.next_packet + 2 * i,
            particle_slots::state_view(textures@, triangles@, *next_packet, previews@)
                == with_bindings(
                start,
                *registry,
                found@,
                effects@,
                bindings@,
                model_index,
                i as nat,
            ),
        decreases bindings.len() - i,
    {
        let binding = bindings[i];
        proof {
            assert(bindings@[i as int] == binding);
        }
        let id: u16 = registry.actor_particle_bindings[binding].effect_id;
        let at = find_effect(found, id);
        let loaded = &effects[found[at].effect];
        particle_slots::append_particle_preview(
            &loaded.effect,
            Some(id),
            Some(model_index),
            loaded.limits,
            textures,
            triangles,
            next_packet,
            previews,
        );
        i += 1;
    }
    bindings
}

/// The preview with the emitters of the first `n` members of a pair.
pub open spec fn with_members(
    start: ParticleState,
    effects: Seq<LoadedEffect>,
    members: Seq<usize>,
    n: nat,
) -> ParticleState
    decreases n,
{
    if n == 0 {
        start
    } else {
        let loaded = effects[members[n - 1] as int];
        particle_slots::with_emitter(
            with_members(start, effects, members, (n - 1) as nat),
            loaded.effect,
            None,
            None,
            loaded.limits,
        )
    }
}

/// The preview with the emitters of the first `n` assignments.
pub open spec fn with_assignments(
    start: ParticleState,
    effects: Seq<LoadedEffect>,
    groups: Seq<Seq<usize>>,
    assignments: Seq<(usize, usize)>,
    n: nat,
) -> ParticleState
    decreases n,
{
    if n == 0 {
        start
    } else {
        let members = groups[assignments[n - 1].0 as int];
        with_members(
            with_assignments(start, effects, groups, assignments, (n - 1) as nat),
            effects,
            members,
            members.len(),
        )
    }
}

/// The members of every pair are loaded.
pub open spec fn groups_are_loaded(groups: Seq<Seq<usize>>, effects: Seq<LoadedEffect>) -> bool {
    forall|g: int, i: int|
        0 <= g < groups.len() && 0 <= i < groups[g].len() ==> #[trigger] groups[g][i]
            < effects.len()
}

/// How many members the pairs of the first `n` assignments have together.
pub open spec fn member_total(
    groups: Seq<Seq<usize>>,
    assignments: Seq<(usize, usize)>,
    n: nat,
) -> nat
    decreases n,
{
    if n == 0 {
        0
    } else {
        member_total(groups, assignments, (n - 1) as nat) + groups[assignments[n - 1].0 as int].len()
    }
}

proof fn lemma_member_total_grows(
    groups: Seq<Seq<usize>>,
    assignments: Seq<(usize, usize)>,
    n: nat,
    m: nat,
)
    requires
        n <= m,
    ensures
        member_total(groups, assignments, n) <= member_total(groups, assignments, m),
    decreases m,
{
    if n < m {
        lemma_member_total_grows(groups, assignments, n, (m - 1) as nat);
    }
}

fn push_members(
    effects: &[LoadedEffect],
    members: &[usize],
    textures: &mut Vec<PreviewTexture>,
    triangles: &mut Vec<PreviewTriangle>,
    next_packet: &mut usize,
    previews: &mut Vec<ParticlePreview>,
)
    requires
        limits_fit(effects@),
        forall|i: int| 0 <= i < members@.len() ==> #[trigger] members@[i] < effects@.len(),
        *old(next_packet) + 2 * members@.len() < usize::MAX,
    ensures
        particle_slots::state_view(
            final(textures)@,
            final(triangles)@,
            *final(next_packet),
            final(previews)@,
        ) == with_members(
            particle_slots::state_view(
                old(textures)@,
                old(triangles)@,
                *old(next_packet),
                old(previews)@,
            ),
            effects@,
            members@,
            members@.len(),
        ),
        *final(next_packet) <= *old(next_packet) + 2 * members@.len(),
{
    let ghost start = particle_slots::state_view(
        textures@,
        triangles@,
        *next_packet,
        previews@,
    );
    let mut i: usize = 0;
    while i < members.len()
        invariant
            i <= members.len(),
            limits_fit(effects@),
            forall|k: int| 0 <= k < members@.len() ==> #[trigger] members@[k] < effects@.len(),
            start.next_packet + 2 * members@.len() < usize::MAX,
            *next_packet <= start.next_packet + 2 * i,
            particle_slots::state_view(textures@, triangles@, *next_packet, previews@)
                == with_members(start, effects@, members@, i as nat),
        decreases members.len() - i,
    {
        let member = members[i];
        let loaded = &effects[member];
        particle_slots::append_particle_preview(
            &loaded.effect,
            None,
            None,
            loaded.limits,
            textures,
            triangles,
            next_packet,
            previews,
        );
        i += 1;
    }
}

/// Appends the emitters of the pairs that accompany the targets of a level transformation;
/// `assignments` says which pair accompanies which target.
pub fn push_level_transform_particle_previews(
    effects: &[LoadedEffect],
    groups: &[Vec<usize>],
    assignments: &[(usize, usize)],
    textures: &mut Vec<PreviewTexture>,
    triangles: &mut Vec<PreviewTriangle>,
    next_packet: &mut usize,
    previews: &mut Vec<ParticlePreview>,
)
    requires
        limits_fit(effects@),
        groups_are_loaded(particle_slots::list_views(groups@), effects@),
        forall|i: int|
            0 <= i < assignments@.len() ==> (#[trigger] assignments@[i]).0 < groups@.len(),
        *old(next_packet) + 2 * member_total(
            particle_slots::list_views(groups@),
            assignments@,
            assignments@.len(),
        ) < usize::MAX,
    ensures
        particle_slots::state_view(
            final(textures)@,
            final(triangles)@,
            *final(next_packet),
            final(previews)@,
        ) == with_assignments(
            particle_slots::state_view(
                old(textures)@,
                old(triangles)@,
                *old(next_packet),
                old(previews)@,
            ),
            effects@,
            particle_slots::list_views(groups@),
            assignments@,
            assignments@.len(),
        ),
{
    let ghost views = particle_slots::list_views(groups@);
    let ghost start = particle_slots::state_view(
        textures@,
        triangles@,
        *next_packet,
        previews@,
    );
    let mut i: usize = 0;
    while i < assignments.len()
        invariant
            i <= assignments.len(),
            limits_fit(effects@),
            views == particle_slots::list_views(groups@),
            groups_are_loaded(views, effects@),
            forall|k: int|
                0 <= k < assignments@.len() ==> (#[trigger] assignments@[k]).0 < groups@.len(),
            start.next_packet + 2 * member_total(views, assignments@, assignments@.len())
                < usize::MAX,
            *next_packet <= start.next_packet + 2 * member_total(views, assignments@, i as nat),
            particle_slots::state_view(textures@, triangles@, *next_packet, previews@)
                == with_assignments(start, effects@, views, assignments@, i as nat),
        decreases assignments.len() - i,
    {
        let group: usize = assignments[i].0;
        proof {
            lemma_member_total_grows(
                views,
                assignments@,
                (i + 1) as nat,
                assignments@.len(),
            );
            assert(views[group as int] == groups@[group as int]@);
            assert forall|k: int| 0 <= k < groups@[group as int]@.len() implies #[trigger] groups@[
            group as int]@[k] < effects@.len() by {
                assert(views[group as int][k] < effects@.len());
            }
        }
        push_members(
            effects,
            groups[group].as_slice(),
            textures,
            triangles,
            next_packet,
            previews,
        );
        i += 1;
    }
}

} // verus!
