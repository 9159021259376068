//! When particles are born, which of them live, and how they are joined.
use vstd::prelude::*;

use crate::particle_births;
use crate::particle_births::{ChildBirth, ColorKeys, ColorPlayback, ParentSpan};
use crate::placement_census;
use crate::placement_census::{CensusKey, PlacementSelector, StageObjects};
use crate::search;

verus! {

/// Particles are born from the first frame on, at equal steps, up to the last frame.
pub proof fn law_births_come_at_equal_steps(last: u32, step: int, i: int)
    requires
        1 <= step,
    ensures
        ({
            let all = particle_births::frames(last, step);
            &&& all.len() >= 1
            &&& all[0] == 0
            &&& 0 <= i < all.len() ==> all[i] == i * step && all[i] <= last
            &&& 0 <= i < all.len() - 1 ==> all[i + 1] == all[i] + step
            &&& all.last() + step > last
        }),
{
    let q = last as int / step;
    vstd::arithmetic::div_mod::lemma_fundamental_div_mod(last as int, step);
    vstd::arithmetic::div_mod::lemma_mod_bound(last as int, step);
    vstd::arithmetic::div_mod::lemma_div_pos_is_pos(last as int, step);
    assert(q * step == step * q) by (nonlinear_arith);
    assert(0 * step == 0) by (nonlinear_arith);
    assert forall|k: int| 0 <= k <= q implies 0 <= #[trigger] (k * step) <= q * step by {
        assert(0 <= k * step <= q * step) by (nonlinear_arith)
            requires
                0 <= k <= q,
                1 <= step,
        ;
    }
    assert((i + 1) * step == i * step + step) by (nonlinear_arith);
    let all = particle_births::frames(last, step);
    assert(all.last() == (q * step) as u32);
    if 0 <= i <= q {
        assert(0 <= i * step <= q * step);
    }
    if 0 <= i < q {
        assert(0 <= (i + 1) * step <= q * step);
    }
}

/// How many particles the first `n` frames bear.
pub open spec fn total(counts: Seq<u32>, n: nat) -> nat
    decreases n,
{
    if n == 0 {
        0
    } else {
        total(counts, (n - 1) as nat) + counts[n - 1] as nat
    }
}

/// Particles are numbered through as they are born, and each takes its seed of its number: times
/// 2654435769 plus 1831565813, in 32 bits.
pub proof fn law_particles_are_numbered_through(counts: Seq<u32>, n: nat, e: int, k: int)
    requires
        n <= counts.len() <= usize::MAX,
        total(counts, n) <= u32::MAX,
        0 <= e < n,
        0 <= k < counts[e],
    ensures
        ({
            let all = particle_births::births(counts, n);
            let number = total(counts, e as nat) + k;
            &&& all.len() == total(counts, n)
            &&& number < all.len()
            &&& all[number].event == e
            &&& all[number].seed as int == (number * 2_654_435_769 + 1_831_565_813)
                % 0x1_0000_0000
        }),
    decreases n,
{
    lemma_births(counts, n);
    lemma_births(counts, (n - 1) as nat);
    let number = total(counts, e as nat) + k;
    if e < n - 1 {
        law_particles_are_numbered_through(counts, (n - 1) as nat, e, k);
    } else {
        let first = particle_births::born(counts, e as nat);
        assert(first == total(counts, e as nat));
        assert(first.wrapping_add(k as u32) == number);
        lemma_seed(number as u32);
    }
}

proof fn lemma_births(counts: Seq<u32>, n: nat)
    requires
        n <= counts.len(),
        total(counts, n) <= u32::MAX,
    ensures
        particle_births::births(counts, n).len() == total(counts, n),
        particle_births::born(counts, n) == total(counts, n),
    decreases n,
{
    if n > 0 {
        lemma_births(counts, (n - 1) as nat);
    }
}

proof fn lemma_seed(serial: u32)
    ensures
        particle_births::seed_of(serial) as int == (serial * 2_654_435_769 + 1_831_565_813)
            % 0x1_0000_0000,
{
    let product = serial * 2_654_435_769;
    lemma_sum(
        serial.wrapping_mul(0x9e37_79b9),
        product,
        0x6d2b_79f5,
        1_831_565_813,
    );
}

proof fn lemma_sum(a: u32, first: int, b: u32, second: int)
    requires
        a as int == first % 0x1_0000_0000,
        b as int == second % 0x1_0000_0000,
    ensures
        a.wrapping_add(b) as int == (first + second) % 0x1_0000_0000,
{
    vstd::arithmetic::div_mod::lemma_add_mod_noop(first, second, 0x1_0000_0000);
}

/// The seed of a child: its parent's, plus 2246822507 for each frame of age and 3266489909 for
/// each child before it, in 32 bits.
pub proof fn law_children_take_their_seed_of_the_parent(parent: u32, age: u32, index: u32)
    ensures
        particle_births::child_seed(parent, age, index) as int == (parent + age * 2_246_822_507
            + index * 3_266_489_909) % 0x1_0000_0000,
{
    let a = age.wrapping_mul(0x85eb_ca6b);
    let b = index.wrapping_mul(0xc2b2_ae35);
    let p = age * 2_246_822_507;
    let q = index * 3_266_489_909;
    lemma_sum(parent, parent as int, a, p);
    lemma_sum(parent.wrapping_add(a), parent + p, b, q);
}

/// The particles that live are kept in order: a number is among them exactly where its particle is
/// alive.
pub proof fn law_the_living_are_kept(alive: Seq<bool>, n: nat, k: int)
    requires
        0 <= k < n <= alive.len() <= usize::MAX,
    ensures
        particle_births::living(alive, n).contains(k as usize) <==> alive[k],
        forall|i: int|
            0 <= i < particle_births::living(alive, n).len() ==> (
            #[trigger] particle_births::living(alive, n)[i]) < n,
        forall|i: int, j: int|
            0 <= i < j < particle_births::living(alive, n).len() ==> (
            #[trigger] particle_births::living(alive, n)[i]) < (
            #[trigger] particle_births::living(alive, n)[j]),
    decreases n,
{
    let rest = particle_births::living(alive, (n - 1) as nat);
    let all = particle_births::living(alive, n);
    if n > 1 {
        law_the_living_are_kept(
            alive,
            (n - 1) as nat,
            if k < n - 1 {
                k
            } else {
                0
            },
        );
    } else {
        assert(rest =~= Seq::empty());
    }
    if k < n - 1 {
        if rest.contains(k as usize) {
            let i = choose|i: int| 0 <= i < rest.len() && rest[i] == k as usize;
            assert(all[i] == k as usize);
        }
        if all.contains(k as usize) {
            let i = choose|i: int| 0 <= i < all.len() && all[i] == k as usize;
            assert(i < rest.len());
            assert(rest[i] == k as usize);
        }
    } else {
        if alive[k] {
            assert(all[all.len() - 1] == k as usize);
        } else if all.contains(k as usize) {
            let i = choose|i: int| 0 <= i < all.len() && all[i] == k as usize;
            assert(rest[i] < n - 1);
        }
    }
}

/// A parent bears its children from its first such age on, a full count at each step, up to its
/// last.
pub proof fn law_parents_bear_at_equal_steps(
    parent: int,
    span: ParentSpan,
    age: int,
    step: nat,
    count: int,
    k: int,
)
    requires
        0 <= parent <= usize::MAX,
        0 <= age,
        0 <= k < count <= u32::MAX,
    ensures
        ({
            let all = particle_births::children_from(parent, span, age, step, count);
            &&& age > span.last_age ==> all.len() == 0
            &&& age <= span.last_age ==> {
                &&& all.len() == count + particle_births::children_from(
                    parent,
                    span,
                    age + step + 1,
                    step,
                    count,
                ).len()
                &&& all[k].parent == parent
                &&& all[k].age == age
                &&& all[k].index == k
                &&& all[k].seed == particle_births::child_seed(span.seed, age as u32, k as u32)
                &&& all.skip(count) == particle_births::children_from(
                    parent,
                    span,
                    age + step + 1,
                    step,
                    count,
                )
            }
        }),
{
    let all = particle_births::children_from(parent, span, age, step, count);
    if age <= span.last_age {
        let rest = particle_births::children_from(parent, span, age + step + 1, step, count);
        assert(all.skip(count) =~= rest);
    }
}

/// A child lives from its birth for its lifetime, one frame at the least.
pub proof fn law_children_live_their_lifetime(
    child: ChildBirth,
    spans: Seq<ParentSpan>,
    lifetime: i16,
)
    ensures
        particle_births::child_lives(child, spans, lifetime) <==> {
            let age = spans[child.parent as int].age - child.age;
            &&& age >= 0
            &&& age == 0 || age < lifetime
        },
{
}

/// The frame of a colour's playback: held at the end, from the start again, to and fro, by the
/// particle's own life, at its own random frame; never past the last.
pub proof fn law_colors_play_in_their_mode(playback: ColorPlayback)
    requires
        playback.max_frame >= 1,
        playback.mode == 4 ==> playback.random_frame <= playback.max_frame,
    ensures
        ({
            let last = playback.max_frame as int;
            let at = particle_births::color_frame(playback);
            let later = |frames: int|
                particle_births::color_frame(
                    ColorPlayback { frame: (playback.frame + frames) as u32, ..playback },
                );
            &&& 0 <= at <= last
            &&& playback.frame <= last && playback.mode <= 2 ==> at == playback.frame
            &&& playback.frame >= last && playback.mode == 0 ==> at == last
            &&& playback.mode == 1 && playback.frame + last < u32::MAX ==> later(last + 1) == at
            &&& playback.mode == 2 && last <= playback.frame <= 2 * last ==> at == 2 * last
                - playback.frame
            &&& playback.mode == 2 && playback.frame + 2 * last <= u32::MAX ==> later(2 * last)
                == at
            &&& playback.mode == 3 ==> at == playback.life_frame as int % (last + 1)
            &&& playback.mode == 4 && playback.random_offset ==> at == playback.random_frame
            &&& playback.mode == 4 && !playback.random_offset || playback.mode > 4 ==> at == 0
        }),
{
    let last = playback.max_frame as int;
    let frame = playback.frame as int;
    let life = playback.life_frame as int;
    vstd::arithmetic::div_mod::lemma_mod_bound(frame, last + 1);
    vstd::arithmetic::div_mod::lemma_mod_bound(frame, 2 * last);
    vstd::arithmetic::div_mod::lemma_mod_bound(life, last + 1);
    vstd::arithmetic::div_mod::lemma_mod_add_multiples_vanish(frame, last + 1);
    vstd::arithmetic::div_mod::lemma_mod_add_multiples_vanish(frame, 2 * last);
    if frame <= last {
        vstd::arithmetic::div_mod::lemma_small_mod(frame as nat, (last + 1) as nat);
    }
    if frame < 2 * last {
        vstd::arithmetic::div_mod::lemma_small_mod(frame as nat, (2 * last) as nat);
    }
    if frame == 2 * last {
        vstd::arithmetic::div_mod::lemma_mod_self_0(2 * last);
    }
}

/// The keys of a colour between which a frame lies: at the first up to it, at the last from it on,
/// and else between two neighbours that surround it.
pub proof fn law_frames_lie_between_their_keys(keys: Seq<i16>, frame: u32)
    requires
        1 <= keys.len() <= usize::MAX,
    ensures
        match particle_births::keys_for(keys, frame) {
            ColorKeys::At(i) => (i == 0 && frame <= keys[0]) || (i == keys.len() - 1 && frame
                >= keys.last()),
            ColorKeys::Between(i) => i + 1 < keys.len() && keys[i as int] <= frame && frame
                < keys[i + 1] && keys[0] < frame,
            ColorKeys::Nothing => forall|i: int|
                0 <= i < keys.len() - 1 ==> !((#[trigger] keys[i]) <= frame && frame < keys[i + 1]),
        },
        frame <= keys[0] ==> particle_births::keys_for(keys, frame) == ColorKeys::At(0),
{
    let p = particle_births::surrounds(keys, frame);
    search::lemma_first_index((keys.len() - 1) as nat, p);
    let found = search::first_index((keys.len() - 1) as nat, p);
    if found is Some {
        assert(p(found->0));
    } else {
        assert forall|i: int| 0 <= i < keys.len() - 1 implies !((#[trigger] keys[i]) <= frame
            && frame < keys[i + 1]) by {
            assert(!p(i));
        }
    }
}

/// A stripe joins each particle to the next, from the newest to the oldest or the other way round,
/// and a crossed one twice over; every piece knows its head and its place in the stripe.
pub proof fn law_stripes_join_neighbours(
    count: int,
    crossed: bool,
    reversed: bool,
    n: nat,
    k: int,
)
    requires
        0 <= k < n < count <= usize::MAX,
    ensures
        ({
            let all = particle_births::stripe(count, crossed, reversed, n);
            let at = if crossed {
                2 * k
            } else {
                k
            };
            let piece = all[at];
            &&& crossed ==> all.len() == 2 * n
            &&& !crossed ==> all.len() == n
            &&& reversed ==> piece.from == k && piece.to == k + 1 && piece.head == 0
            &&& !reversed ==> piece.from == count - 1 - k && piece.to == count - 2 - k && piece.head
                == count - 1
            &&& !piece.second
            &&& piece.particle_type == 255
            &&& piece.step == k
            &&& piece.steps == count - 1
            &&& crossed ==> all[at + 1].second && all[at + 1].from == piece.from && all[at + 1].to
                == piece.to && all[at + 1].head == piece.head && all[at + 1].step == k
        }),
    decreases n,
{
    if n == 1 {
        assert(particle_births::stripe(count, crossed, reversed, 0).len() == 0);
    } else if k < n - 1 {
        law_stripes_join_neighbours(count, crossed, reversed, (n - 1) as nat, k);
    } else {
        law_stripes_join_neighbours(count, crossed, reversed, (n - 1) as nat, 0);
    }
}

/// The mixing of seeds keeps every bit: two steps of a shift and a product, and a last shift.
pub proof fn law_mixing_shifts_and_multiplies(value: u32)
    ensures
        ({
            let a = value ^ (value / 0x1_0000);
            let b = ((a * 2_146_121_005) % 0x1_0000_0000) as u32;
            let c = b ^ (b / 0x8000);
            let d = ((c * 2_221_713_035) % 0x1_0000_0000) as u32;
            particle_births::mixed(value) == d ^ (d / 0x1_0000)
        }),
{
    assert(value >> 16 == value / 0x1_0000) by (bit_vector);
    let a = value ^ (value >> 16);
    let b = a.wrapping_mul(0x7feb_352d);
    assert(0x7feb_352d == 2_146_121_005);
    assert(b as int == (a * 2_146_121_005) % 0x1_0000_0000);
    assert(b >> 15 == b / 0x8000) by (bit_vector);
    let c = b ^ (b >> 15);
    let d = c.wrapping_mul(0x846c_a68b);
    assert(0x846c_a68b == 2_221_713_035);
    assert(d as int == (c * 2_221_713_035) % 0x1_0000_0000);
    assert(d >> 16 == d / 0x1_0000) by (bit_vector);
}

/// The census counts an object under its stage, its factory and the resource that its tail names,
/// where a selector asks for the two, and no other.
pub proof fn law_selected_objects_are_counted(
    stage: StageObjects,
    selectors: Seq<PlacementSelector>,
    key: CensusKey,
    n: nat,
)
    requires
        n < stage.objects@.len(),
    ensures
        ({
            let object = stage.objects@[n as int];
            let before = placement_census::met_in(stage, selectors, key, n);
            let after = placement_census::met_in(stage, selectors, key, n + 1);
            let asked = exists|i: int|
                0 <= i < selectors.len() && (#[trigger] selectors[i]).factory_name@ == key.factory
                    && selectors[i].resource_name@ == key.resource;
            let counts = key.stage == stage.stage_id@ && key.factory == object.factory_name@
                && object.param("actor_tail_string"@) == Some(key.resource) && asked;
            &&& counts ==> after == before + 1
            &&& !counts ==> after == before
        }),
{
    let object = stage.objects@[n as int];
    match object.param("actor_tail_string"@) {
        Some(resource) => {
            let own = CensusKey {
                stage: stage.stage_id@,
                factory: object.factory_name@,
                resource,
            };
            if own != key {
                assert(own.stage != key.stage || own.factory != key.factory || own.resource
                    != key.resource);
            }
        },
        None => {},
    }
}

} // verus!
