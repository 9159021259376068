//! How the slots of an emitter show its particles: each particle fills a slot, and the slots that
//! are left cannot be seen.
use vstd::prelude::*;

use crate::particle_slots;
use crate::particle_slots::ParticlePreview;
use crate::preview;
use crate::preview::{ColorChannels, PreviewTriangle, Rgba};

verus! {

/// What a slot shows of a particle, besides its place.
#[derive(Debug, Clone, Copy, PartialEq, Eq, Structural)]
pub struct ParticleSample {
    pub color: Rgba,
    pub environment_color: Rgba,
    pub particle_type: u8,
}

/// A triangle of a slot that shows a particle.
pub open spec fn sampled(triangle: PreviewTriangle, sample: ParticleSample) -> PreviewTriangle {
    PreviewTriangle {
        color_channels: ColorChannels {
            first: Some(preview::all_corners(sample.color)),
            second: Some(preview::all_corners(sample.environment_color)),
        },
        particle_type: Some(sample.particle_type),
        ..triangle
    }
}

/// A triangle of a slot without a particle.
pub open spec fn hidden(triangle: PreviewTriangle) -> PreviewTriangle {
    PreviewTriangle {
        color_channels: ColorChannels {
            first: Some(preview::all_corners(particle_slots::hidden_color())),
            ..triangle.color_channels
        },
        ..triangle
    }
}

/// Shows a particle in a triangle of its slot.
pub fn update_particle_slot(triangle: &mut PreviewTriangle, sample: ParticleSample)
    ensures
        *final(triangle) == sampled(*old(triangle), sample),
{
    triangle.color_channels = ColorChannels {
        first: Some(preview::one_color(sample.color)),
        second: Some(preview::one_color(sample.environment_color)),
    };
    triangle.particle_type = Some(sample.particle_type);
}

/// Hides a triangle of a slot.
pub fn hide_particle_slot(triangle: &mut PreviewTriangle)
    ensures
        *final(triangle) == hidden(*old(triangle)),
{
    let white = Rgba { r: 255, g: 255, b: 255, a: 0 };
    triangle.color_channels = ColorChannels {
        first: Some(preview::one_color(white)),
        second: triangle.color_channels.second,
    };
}

/// How many triangles lie in whole slots.
pub open spec fn slotted(preview: ParticlePreview) -> int {
    2 * (preview.triangle_count as int / 2)
}

/// The triangle at a place after the samples were shown.
pub open spec fn shown(
    triangles: Seq<PreviewTriangle>,
    preview: ParticlePreview,
    samples: Seq<ParticleSample>,
    i: int,
) -> PreviewTriangle {
    let within = i - preview.first_triangle;
    if 0 <= within < slotted(preview) {
        if within / 2 < samples.len() {
            sampled(triangles[i], samples[within / 2])
        } else {
            hidden(triangles[i])
        }
    } else {
        triangles[i]
    }
}

/// The triangles of a preview after the particles of an emitter were shown in its slots, one slot
/// of two triangles for each particle.
pub fn apply_particle_samples(
    preview: &ParticlePreview,
    samples: &[ParticleSample],
    triangles: &mut Vec<PreviewTriangle>,
)
    requires
        preview.first_triangle + preview.triangle_count <= old(triangles)@.len(),
    ensures
        final(triangles)@ == Seq::new(
            old(triangles)@.len(),
            |i: int| shown(old(triangles)@, *preview, samples@, i),
        ),
{
    let ghost before = triangles@;
    let total: usize = preview.triangle_count / 2 * 2;
    let mut n: usize = 0;
    while n < total
        invariant
            n <= total,
            total == slotted(*preview),
            total <= preview.triangle_count,
            preview.first_triangle + preview.triangle_count <= before.len(),
            triangles.len() == before.len(),
            forall|i: int|
                0 <= i < before.len() ==> #[trigger] triangles@[i] == (if i
                    < preview.first_triangle + n {
                    shown(before, *preview, samples@, i)
                } else {
                    before[i]
                }),
        decreases total - n,
    {
        let at: usize = preview.first_triangle + n;
        let mut triangle = triangles[at];
        if n / 2 < samples.len() {
            update_particle_slot(&mut triangle, samples[n / 2]);
        } else {
            hide_particle_slot(&mut triangle);
        }
        triangles.set(at, triangle);
        n += 1;
    }
    proof {
        assert(triangles@ =~= Seq::new(
            before.len(),
            |i: int| shown(before, *preview, samples@, i),
        ));
    }
}

/// Showing the particles of one emitter touches its own slots alone.
pub proof fn law_samples_stay_in_their_slots(
    triangles: Seq<PreviewTriangle>,
    preview: ParticlePreview,
    samples: Seq<ParticleSample>,
    i: int,
)
    requires
        0 <= i < triangles.len(),
        i < preview.first_triangle || preview.first_triangle + preview.triangle_count <= i,
    ensures
        shown(triangles, preview, samples, i) == triangles[i],
{
}

} // verus!
