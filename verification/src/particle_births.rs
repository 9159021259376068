//! When particles are born, with which seeds, and in which order they fill their slots.
//!
//! Rates, ages and positions are floating-point numbers and stay with the application; what it
//! counts and decides with them comes in as integers and flags.
use vstd::prelude::*;

use crate::particle_slots::JpaParticleKind;
use crate::search;

verus! {

/// The last frame in which an emitter gives birth, at most the current one: an emitter without an
/// end goes on, one with a negative end gives birth only at the start.
pub fn final_emission_birth_frame(current: u32, max_frame: i16) -> (r: u32)
    ensures
        r == (if max_frame == 0 {
            current as int
        } else if max_frame < 0 {
            0
        } else if current < max_frame {
            current as int
        } else {
            max_frame as int
        }),
{
    if max_frame == 0 {
        current
    } else if max_frame < 0 {
        0
    } else if current < max_frame as u32 {
        current
    } else {
        max_frame as u32
    }
}

/// The frames in which an emitter gives birth.
pub open spec fn frames(last: u32, interval: int) -> Seq<u32> {
    Seq::new((last as int / interval + 1) as nat, |i: int| (i * interval) as u32)
}

/// The frames in which an emitter gives birth: the first, and one after each interval.
pub fn birth_frames(last: u32, emit_interval: u8) -> (r: Vec<u32>)
    ensures
        r@ == frames(last, emit_interval + 1),
{
    let interval: u64 = emit_interval as u64 + 1;
    let mut r: Vec<u32> = Vec::new();
    let mut frame: u64 = 0;
    let ghost mut n: int = 0;
    while frame <= last as u64
        invariant
            interval == emit_interval + 1,
            frame == n * interval,
            frame <= last + interval,
            n >= 0,
            r@ == Seq::new(n as nat, |i: int| (i * interval) as u32),
            n > 0 ==> (n - 1) * interval <= last,
        decreases last + interval - frame,
    {
        r.push(frame as u32);
        frame += interval;
        proof {
            assert((n + 1) * interval == n * interval + interval) by (nonlinear_arith);
            n = n + 1;
            assert(r@ =~= Seq::new(n as nat, |i: int| (i * interval) as u32));
        }
    }
    proof {
        let k = interval as int;
        assert((n - 1) * k <= last < n * k);
        assert(n > 0) by (nonlinear_arith)
            requires
                last < n * k,
                last >= 0,
                k > 0,
        ;
        assert(last as int / k == n - 1) by (nonlinear_arith)
            requires
                (n - 1) * k <= last < n * k,
                k > 0,
                last >= 0,
        ;
        assert(r@ =~= frames(last, k));
    }
    r
}

/// How many particles are born in a frame: as many as the rate has summed up to, and at least one
/// in the first frame of an emitter that emits at all.
pub fn births_in_frame(frame: u32, counted: u32, emits: bool) -> (r: u32)
    ensures
        r == (if frame == 0 && counted == 0 && emits {
            1
        } else {
            counted
        }),
{
    if frame == 0 && counted == 0 && emits {
        1
    } else {
        counted
    }
}

/// The seed of a particle by its number, counted over all births.
pub open spec fn seed_of(serial: u32) -> u32 {
    (serial.wrapping_mul(0x9e37_79b9)).wrapping_add(0x6d2b_79f5)
}

/// The birth of a particle.
#[derive(Debug, Clone, Copy, PartialEq, Eq, Structural)]
pub struct ParticleBirth {
    /// Position of the frame in which it is born.
    pub event: usize,
    pub seed: u32,
}

/// How many particles are born in the first `n` frames, as a 32-bit counter shows it.
pub open spec fn born(counts: Seq<u32>, n: nat) -> u32
    decreases n,
{
    if n == 0 {
        0
    } else {
        born(counts, (n - 1) as nat).wrapping_add(counts[n - 1])
    }
}

/// The births of one frame, the first of them number `first`.
pub open spec fn births_at(event: int, first: u32, count: int) -> Seq<ParticleBirth> {
    Seq::new(
        count as nat,
        |k: int|
            ParticleBirth { event: event as usize, seed: seed_of(first.wrapping_add(k as u32)) },
    )
}

/// The births of the first `n` frames.
pub open spec fn births(counts: Seq<u32>, n: nat) -> Seq<ParticleBirth>
    decreases n,
{
    if n == 0 {
        Seq::empty()
    } else {
        births(counts, (n - 1) as nat) + births_at(
            n - 1,
            born(counts, (n - 1) as nat),
            counts[n - 1] as int,
        )
    }
}

fn push_births(list: &mut Vec<ParticleBirth>, event: usize, first: u32, count: u32)
    ensures
        final(list)@ == old(list)@ + births_at(event as int, first, count as int),
{
    let ghost start = list@;
    let mut k: u32 = 0;
    proof {
        assert(start =~= start + births_at(event as int, first, 0));
    }
    while k < count
        invariant
            k <= count,
            list@ == start + births_at(event as int, first, k as int),
        decreases count - k,
    {
        let serial: u32 = first.wrapping_add(k);
        let seed: u32 = serial.wrapping_mul(0x9e37_79b9).wrapping_add(0x6d2b_79f5);
        list.push(ParticleBirth { event, seed });
        k += 1;
        proof {
            assert(list@ =~= start + births_at(event as int, first, k as int));
        }
    }
}

/// The births of an emitter, from how many particles are born in each frame.
pub fn particle_births(counts: &[u32]) -> (r: Vec<ParticleBirth>)
    ensures
        r@ == births(counts@, counts@.len()),
{
    let mut r: Vec<ParticleBirth> = Vec::new();
    let mut serial: u32 = 0;
    let mut event: usize = 0;
    while event < counts.len()
        invariant
            event <= counts.len(),
            r@ == births(counts@, event as nat),
            serial == born(counts@, event as nat),
        decreases counts.len() - event,
    {
        push_births(&mut r, event, serial, counts[event]);
        serial = serial.wrapping_add(counts[event]);
        event += 1;
    }
    r
}

/// The positions of the living among the first `n`.
pub open spec fn living(alive: Seq<bool>, n: nat) -> Seq<usize>
    decreases n,
{
    if n == 0 {
        Seq::empty()
    } else {
        let rest = living(alive, (n - 1) as nat);
        if alive[n - 1] {
            rest.push((n - 1) as usize)
        } else {
            rest
        }
    }
}

/// At most the first `n` of a list.
pub open spec fn at_most(list: Seq<usize>, n: int) -> Seq<usize> {
    if list.len() <= n {
        list
    } else {
        list.take(n)
    }
}

proof fn lemma_living_grows(alive: Seq<bool>, n: nat, m: nat)
    requires
        n <= m,
    ensures
        living(alive, n).is_prefix_of(living(alive, m)),
    decreases m,
{
    if n == m {
        assert(living(alive, n) =~= living(alive, n).take(living(alive, n).len() as int));
    } else {
        lemma_living_grows(alive, n, (m - 1) as nat);
        let a = living(alive, n);
        let b = living(alive, (m - 1) as nat);
        let c = living(alive, m);
        assert(a =~= c.take(a.len() as int)) by {
            assert(a =~= b.take(a.len() as int));
        }
    }
}

/// The particles that are drawn: the living, in the order of their births, as many as there are
/// slots.
pub fn drawn_particles(alive: &[bool], capacity: usize) -> (r: Vec<usize>)
    requires
        capacity >= 1,
    ensures
        r@ == at_most(living(alive@, alive@.len()), capacity as int),
{
    let mut r: Vec<usize> = Vec::new();
    let mut i: usize = 0;
    while i < alive.len()
        invariant
            i <= alive.len(),
            capacity >= 1,
            r@ == living(alive@, i as nat),
            r@.len() < capacity,
        decreases alive.len() - i,
    {
        if alive[i] {
            r.push(i);
            if r.len() == capacity {
                proof {
                    lemma_living_grows(alive@, (i + 1) as nat, alive@.len());
                    let all = living(alive@, alive@.len());
                    assert(r@ =~= all.take(capacity as int));
                    assert(at_most(all, capacity as int) =~= all.take(capacity as int));
                }
                return r;
            }
        }
        i += 1;
    }
    r
}

/// The ages between which a particle gives birth to others, and its age now, in whole frames.
#[derive(Debug, Clone, Copy, PartialEq, Eq, Structural)]
pub struct ParentSpan {
    pub seed: u32,
    pub age: u32,
    pub first_age: u32,
    pub last_age: u32,
}

/// The birth of a particle from another.
#[derive(Debug, Clone, Copy, PartialEq, Eq, Structural)]
pub struct ChildBirth {
    pub parent: usize,
    /// The age of the parent.
    pub age: u32,
    pub index: u32,
    pub seed: u32,
}

/// The seed of a particle that another emits.
pub open spec fn child_seed(parent: u32, age: u32, index: u32) -> u32 {
    (parent.wrapping_add(age.wrapping_mul(0x85eb_ca6b))).wrapping_add(
        index.wrapping_mul(0xc2b2_ae35),
    )
}

/// The births at one age of a parent.
pub open spec fn children_at(parent: int, span: ParentSpan, age: int, count: int) -> Seq<
    ChildBirth,
> {
    Seq::new(
        count as nat,
        |k: int|
            ChildBirth {
                parent: parent as usize,
                age: age as u32,
                index: k as u32,
                seed: child_seed(span.seed, age as u32, k as u32),
            },
    )
}

/// The births of a parent from an age on.
pub open spec fn children_from(parent: int, span: ParentSpan, age: int, step: nat, count: int) -> Seq<
    ChildBirth,
>
    decreases
            (if age > span.last_age {
                0
            } else {
                span.last_age - age + 1
            }),
{
    if age > span.last_age {
        Seq::empty()
    } else {
        children_at(parent, span, age, count) + children_from(
            parent,
            span,
            age + step + 1,
            step,
            count,
        )
    }
}

/// The births of the first `n` parents.
pub open spec fn children(spans: Seq<ParentSpan>, step: nat, count: int, n: nat) -> Seq<ChildBirth>
    decreases n,
{
    if n == 0 {
        Seq::empty()
    } else {
        children(spans, step, count, (n - 1) as nat) + children_from(
            n - 1,
            spans[n - 1],
            spans[n - 1].first_age as int,
            step,
            count,
        )
    }
}

fn push_children(
    list: &mut Vec<ChildBirth>,
    parent: usize,
    span: ParentSpan,
    age: u32,
    count: u32,
)
    ensures
        final(list)@ == old(list)@ + children_at(parent as int, span, age as int, count as int),
{
    let ghost start = list@;
    let mut k: u32 = 0;
    proof {
        assert(start =~= start + children_at(parent as int, span, age as int, 0));
    }
    while k < count
        invariant
            k <= count,
            list@ == start + children_at(parent as int, span, age as int, k as int),
        decreases count - k,
    {
        let seed = span.seed.wrapping_add(age.wrapping_mul(0x85eb_ca6b)).wrapping_add(
            k.wrapping_mul(0xc2b2_ae35),
        );
        list.push(ChildBirth { parent, age, index: k, seed });
        k += 1;
        proof {
            assert(list@ =~= start + children_at(parent as int, span, age as int, k as int));
        }
    }
}

/// The births that particles give: from the first to the last age of each, `spawn_step` frames
/// apart, `spawn_count` at a time.
pub fn child_births(spans: &[ParentSpan], spawn_step: u8, spawn_count: i16) -> (r: Vec<ChildBirth>)
    ensures
        r@ == children(
            spans@,
            spawn_step as nat,
            (if spawn_count > 0 {
                spawn_count as int
            } else {
                0
            }),
            spans@.len(),
        ),
{
    let count: u32 = if spawn_count > 0 {
        spawn_count as u32
    } else {
        0
    };
    let step: u64 = spawn_step as u64 + 1;
    let mut r: Vec<ChildBirth> = Vec::new();
    let mut parent: usize = 0;
    while parent < spans.len()
        invariant
            parent <= spans.len(),
            step == spawn_step + 1,
            r@ == children(spans@, spawn_step as nat, count as int, parent as nat),
        decreases spans.len() - parent,
    {
        let span = spans[parent];
        let ghost before = r@;
        let ghost all = children_from(
            parent as int,
            span,
            span.first_age as int,
            spawn_step as nat,
            count as int,
        );
        let mut age: u64 = span.first_age as u64;
        proof {
            assert(before + all =~= r@ + all);
        }
        while age <= span.last_age as u64
            invariant
                parent < spans.len(),
                step == spawn_step + 1,
                age <= u32::MAX + step,
                before + all == r@ + children_from(
                    parent as int,
                    span,
                    age as int,
                    spawn_step as nat,
                    count as int,
                ),
            decreases span.last_age + step - age,
        {
            let ghost start = r@;
            push_children(&mut r, parent, span, age as u32, count);
            proof {
                let now = children_at(parent as int, span, age as int, count as int);
                let rest = children_from(
                    parent as int,
                    span,
                    age + spawn_step as nat + 1,
                    spawn_step as nat,
                    count as int,
                );
                assert(start + (now + rest) =~= (start + now) + rest);
            }
            age += step;
        }
        proof {
            assert(r@ + Seq::<ChildBirth>::empty() =~= r@);
        }
        parent += 1;
    }
    r
}

/// The particle is born and still alive.
pub open spec fn child_lives(child: ChildBirth, spans: Seq<ParentSpan>, lifetime: i16) -> bool {
    let age = spans[child.parent as int].age - child.age;
    0 <= age < (if lifetime > 1 {
        lifetime as int
    } else {
        1
    })
}

/// The living among the first `n` particles.
pub open spec fn living_children(
    list: Seq<ChildBirth>,
    spans: Seq<ParentSpan>,
    lifetime: i16,
    n: nat,
) -> Seq<ChildBirth>
    decreases n,
{
    if n == 0 {
        Seq::empty()
    } else {
        let rest = living_children(list, spans, lifetime, (n - 1) as nat);
        if child_lives(list[n - 1], spans, lifetime) {
            rest.push(list[n - 1])
        } else {
            rest
        }
    }
}

/// At most the first `n` particles.
pub open spec fn first_children(list: Seq<ChildBirth>, n: int) -> Seq<ChildBirth> {
    if list.len() <= n {
        list
    } else {
        list.take(n)
    }
}

proof fn lemma_living_children_grow(
    list: Seq<ChildBirth>,
    spans: Seq<ParentSpan>,
    lifetime: i16,
    n: nat,
    m: nat,
)
    requires
        n <= m,
    ensures
        living_children(list, spans, lifetime, n).is_prefix_of(
            living_children(list, spans, lifetime, m),
        ),
    decreases m,
{
    let a = living_children(list, spans, lifetime, n);
    if n == m {
        assert(a =~= a.take(a.len() as int));
    } else {
        lemma_living_children_grow(list, spans, lifetime, n, (m - 1) as nat);
        let b = living_children(list, spans, lifetime, (m - 1) as nat);
        let c = living_children(list, spans, lifetime, m);
        assert(a =~= c.take(a.len() as int)) by {
            assert(a =~= b.take(a.len() as int));
        }
    }
}

proof fn lemma_children_have_parents(
    spans: Seq<ParentSpan>,
    step: nat,
    count: int,
    n: nat,
)
    requires
        n <= spans.len() <= usize::MAX,
    ensures
        forall|i: int|
            0 <= i < children(spans, step, count, n).len() ==> (#[trigger] children(
                spans,
                step,
                count,
                n,
            )[i]).parent < n,
    decreases n,
{
    if n > 0 {
        lemma_children_have_parents(spans, step, count, (n - 1) as nat);
        let rest = children(spans, step, count, (n - 1) as nat);
        let own = children_from(n - 1, spans[n - 1], spans[n - 1].first_age as int, step, count);
        lemma_children_of_one_parent(
            n - 1,
            spans[n - 1],
            spans[n - 1].first_age as int,
            step,
            count,
        );
        let all = children(spans, step, count, n);
        assert forall|i: int| 0 <= i < all.len() implies (#[trigger] all[i]).parent < n by {
            if i < rest.len() {
                assert(all[i] == rest[i]);
            } else {
                assert(all[i] == own[i - rest.len()]);
            }
        }
    }
}

proof fn lemma_children_of_one_parent(
    parent: int,
    span: ParentSpan,
    age: int,
    step: nat,
    count: int,
)
    requires
        0 <= parent <= usize::MAX,
    ensures
        forall|i: int|
            0 <= i < children_from(parent, span, age, step, count).len() ==> (
            #[trigger] children_from(parent, span, age, step, count)[i]).parent == parent,
    decreases
            (if age > span.last_age {
                0
            } else {
                span.last_age - age + 1
            }),
{
    if age <= span.last_age {
        lemma_children_of_one_parent(parent, span, age + step + 1, step, count);
        let own = children_at(parent, span, age, count);
        let rest = children_from(parent, span, age + step + 1, step, count);
        let all = children_from(parent, span, age, step, count);
        assert forall|i: int| 0 <= i < all.len() implies (#[trigger] all[i]).parent == parent by {
            if i < own.len() {
                assert(all[i] == own[i]);
            } else {
                assert(all[i] == rest[i - own.len()]);
            }
        }
    }
}

/// The particles that others emitted and that are drawn: the living, in the order of their
/// births, as many as there are slots.
pub fn sample_child_particles(
    spans: &[ParentSpan],
    spawn_step: u8,
    spawn_count: i16,
    lifetime: i16,
    capacity: usize,
) -> (r: Vec<ChildBirth>)
    requires
        capacity >= 1,
    ensures
        ({
            let all = children(
                spans@,
                spawn_step as nat,
                (if spawn_count > 0 {
                    spawn_count as int
                } else {
                    0
                }),
                spans@.len(),
            );
            r@ == first_children(
                living_children(all, spans@, lifetime, all.len()),
                capacity as int,
            )
        }),
{
    let births = child_births(spans, spawn_step, spawn_count);
    let total: usize = spans.len();
    let limit: u32 = if lifetime > 1 {
        lifetime as u32
    } else {
        1
    };
    proof {
        lemma_children_have_parents(
            spans@,
            spawn_step as nat,
            (if spawn_count > 0 {
                spawn_count as int
            } else {
                0
            }),
            total as nat,
        );
    }
    let mut r: Vec<ChildBirth> = Vec::new();
    let mut i: usize = 0;
    while i < births.len()
        invariant
            i <= births.len(),
            capacity >= 1,
            total == spans@.len(),
            limit == (if lifetime > 1 {
                lifetime as int
            } else {
                1
            }),
            forall|j: int| 0 <= j < births@.len() ==> (#[trigger] births@[j]).parent < total,
            births@ == children(
                spans@,
                spawn_step as nat,
                (if spawn_count > 0 {
                    spawn_count as int
                } else {
                    0
                }),
                spans@.len(),
            ),
            r@ == living_children(births@, spans@, lifetime, i as nat),
            r@.len() < capacity,
        decreases births.len() - i,
    {
        let child = births[i];
        let now: u32 = spans[child.parent].age;
        if child.age <= now && now - child.age < limit {
            r.push(child);
            if r.len() == capacity {
                proof {
                    lemma_living_children_grow(
                        births@,
                        spans@,
                        lifetime,
                        (i + 1) as nat,
                        births@.len(),
                    );
                    let all = living_children(births@, spans@, lifetime, births@.len());
                    assert(r@ =~= all.take(capacity as int));
                    assert(first_children(all, capacity as int) =~= all.take(capacity as int));
                }
                return r;
            }
        }
        i += 1;
    }
    r
}

/// The particles that are drawn, from how many are born in each frame and which of them live.
pub fn sample_particles(counts: &[u32], alive: &[bool], capacity: usize) -> (r: Vec<ParticleBirth>)
    requires
        capacity >= 1,
        alive@.len() == births(counts@, counts@.len()).len(),
    ensures
        ({
            let drawn = at_most(living(alive@, alive@.len()), capacity as int);
            r@ == Seq::new(
                drawn.len(),
                |i: int| births(counts@, counts@.len())[drawn[i] as int],
            )
        }),
{
    let all = particle_births(counts);
    let drawn = drawn_particles(alive, capacity);
    let total: usize = alive.len();
    proof {
        law_drawn_particles_are_alive(alive@, capacity as int);
    }
    let ghost wanted = Seq::new(
        drawn@.len(),
        |i: int| births(counts@, counts@.len())[drawn@[i] as int],
    );
    let mut r: Vec<ParticleBirth> = Vec::new();
    let mut i: usize = 0;
    while i < drawn.len()
        invariant
            i <= drawn.len(),
            total == all@.len(),
            all@ == births(counts@, counts@.len()),
            forall|j: int| 0 <= j < drawn@.len() ==> #[trigger] drawn@[j] < total,
            wanted == Seq::new(
                drawn@.len(),
                |i: int| births(counts@, counts@.len())[drawn@[i] as int],
            ),
            r@ == wanted.take(i as int),
        decreases drawn.len() - i,
    {
        let at = drawn[i];
        r.push(all[at]);
        i += 1;
        proof {
            assert(r@ =~= wanted.take(i as int));
        }
    }
    proof {
        assert(wanted.take(i as int) =~= wanted);
    }
    r
}

/// What a particle takes over from the one that emitted it.
#[derive(Debug, Clone, Copy, PartialEq, Eq, Structural)]
pub struct ChildInheritance {
    pub scale: bool,
    pub alpha: bool,
    pub rgb: bool,
}

/// What a particle takes over from the one that emitted it: one flag for each.
pub fn child_inheritance(flags: u32) -> (r: ChildInheritance)
    ensures
        r.scale == (flags & 1 != 0),
        r.alpha == (flags & 2 != 0),
        r.rgb == (flags & 4 != 0),
{
    ChildInheritance { scale: flags & 1 != 0, alpha: flags & 2 != 0, rgb: flags & 4 != 0 }
}

/// A number mixed into all its bits.
pub open spec fn mixed(value: u32) -> u32 {
    let a = value ^ (value >> 16);
    let b = a.wrapping_mul(0x7feb_352d);
    let c = b ^ (b >> 15);
    let d = c.wrapping_mul(0x846c_a68b);
    d ^ (d >> 16)
}

/// Mixes a number into all its bits: the same number gives the same result each time.
pub fn mix(value: u32) -> (r: u32)
    ensures
        r == mixed(value),
{
    let a: u32 = value ^ (value >> 16);
    let b: u32 = a.wrapping_mul(0x7feb_352d);
    let c: u32 = b ^ (b >> 15);
    let d: u32 = c.wrapping_mul(0x846c_a68b);
    d ^ (d >> 16)
}

/// The seed of a random field at a frame of a particle's life.
pub fn random_field_seed(seed: u32, frame: u32, field_index: u32) -> (r: u32)
    ensures
        r == (seed.wrapping_add(frame.wrapping_mul(0x9e37_79b9))).wrapping_add(
            field_index.wrapping_mul(0x85eb_ca6b),
        ),
{
    seed.wrapping_add(frame.wrapping_mul(0x9e37_79b9)).wrapping_add(
        field_index.wrapping_mul(0x85eb_ca6b),
    )
}

/// Whether a random field acts at a frame of a particle's life: at the first, and then once in
/// every cycle, where it has one.
pub fn random_field_acts(frame: u32, cycle: u16) -> (r: bool)
    ensures
        r == (frame == 0 || (cycle != 0 && frame as int % cycle as int == 0)),
{
    frame == 0 || (cycle != 0 && frame % cycle as u32 == 0)
}

/// What the force of a field changes.
#[derive(Debug, Clone, Copy, PartialEq, Eq, Structural)]
pub enum FieldEffect {
    BaseVelocity,
    FieldVelocity,
    Acceleration,
}

/// What the force of a field changes.
pub fn field_effect(add_type: u8) -> (r: FieldEffect)
    ensures
        r == (if add_type == 1 {
            FieldEffect::BaseVelocity
        } else if add_type == 2 {
            FieldEffect::FieldVelocity
        } else {
            FieldEffect::Acceleration
        }),
{
    if add_type == 1 {
        FieldEffect::BaseVelocity
    } else if add_type == 2 {
        FieldEffect::FieldVelocity
    } else {
        FieldEffect::Acceleration
    }
}

/// How a colour table is played.
#[derive(Debug, Clone, Copy, PartialEq, Eq, Structural)]
pub struct ColorPlayback {
    pub mode: u8,
    pub max_frame: i16,
    pub random_offset: bool,
    /// The current frame, of the emitter or of the particle.
    pub frame: u32,
    /// The frame that the particle's life has reached, of the whole table.
    pub life_frame: u32,
    /// A random frame of the table.
    pub random_frame: u32,
}

/// The frame of the colour table that is shown: held at the end, repeated, back and forth, spread
/// over the life, or random.
pub open spec fn color_frame(playback: ColorPlayback) -> int {
    let last = if playback.max_frame > 0 {
        playback.max_frame as int
    } else {
        0
    };
    if playback.mode == 0 {
        if playback.frame < last {
            playback.frame as int
        } else {
            last
        }
    } else if playback.mode == 1 && last > 0 {
        playback.frame as int % (last + 1)
    } else if playback.mode == 2 && last > 0 {
        let place = playback.frame as int % (2 * last);
        if place < 2 * last - place {
            place
        } else {
            2 * last - place
        }
    } else if playback.mode == 3 {
        playback.life_frame as int % (last + 1)
    } else if playback.mode == 4 && playback.random_offset {
        playback.random_frame as int
    } else {
        0
    }
}

/// The frame of the colour table that is shown.
pub fn color_table_frame(playback: ColorPlayback) -> (r: u32)
    ensures
        r == color_frame(playback),
{
    let last: u32 = if playback.max_frame > 0 {
        playback.max_frame as u32
    } else {
        0
    };
    if playback.mode == 0 {
        if playback.frame < last {
            playback.frame
        } else {
            last
        }
    } else if playback.mode == 1 && last > 0 {
        playback.frame % (last + 1)
    } else if playback.mode == 2 && last > 0 {
        let period: u32 = last * 2;
        let place: u32 = playback.frame % period;
        if place < period - place {
            place
        } else {
            period - place
        }
    } else if playback.mode == 3 {
        playback.life_frame % (last + 1)
    } else if playback.mode == 4 && playback.random_offset {
        playback.random_frame
    } else {
        0
    }
}

/// Which keys of a colour table give the colour of a frame.
#[derive(Debug, Clone, Copy, PartialEq, Eq, Structural)]
pub enum ColorKeys {
    /// The table is empty, or has a gap there.
    Nothing,
    /// The key at this position.
    At(usize),
    /// Between the key at this position and the next.
    Between(usize),
}

/// The first pair of keys around a frame.
pub open spec fn surrounds(keys: Seq<i16>, frame: u32) -> spec_fn(int) -> bool {
    |i: int| keys[i] <= frame && frame < keys[i + 1]
}

/// Which keys give the colour of a frame.
pub open spec fn keys_for(keys: Seq<i16>, frame: u32) -> ColorKeys {
    if keys.len() == 0 {
        ColorKeys::Nothing
    } else if frame <= keys[0] {
        ColorKeys::At(0)
    } else if frame >= keys.last() {
        ColorKeys::At((keys.len() - 1) as usize)
    } else {
        match search::first_index((keys.len() - 1) as nat, surrounds(keys, frame)) {
            Some(i) => ColorKeys::Between(i as usize),
            None => ColorKeys::Nothing,
        }
    }
}

/// Which keys of a colour table, given by their frames, give the colour of a frame.
pub fn sample_color_keys(keys: &[i16], frame: u32) -> (r: ColorKeys)
    ensures
        r == keys_for(keys@, frame),
{
    if keys.len() == 0 {
        return ColorKeys::Nothing;
    }
    let frame_number: i64 = frame as i64;
    if frame_number <= keys[0] as i64 {
        return ColorKeys::At(0);
    }
    let last = keys.len() - 1;
    if frame_number >= keys[last] as i64 {
        return ColorKeys::At(last);
    }
    let ghost p = surrounds(keys@, frame);
    let mut i: usize = 0;
    while i < last
        invariant
            i <= last,
            last == keys@.len() - 1,
            frame_number == frame,
            frame > keys@[0],
            frame < keys@[last as int],
            p == surrounds(keys@, frame),
            search::first_index(i as nat, p) is None,
        decreases last - i,
    {
        if keys[i] as i64 <= frame_number && frame_number < keys[i + 1] as i64 {
            proof {
                assert(p(i as int));
                search::lemma_index_stays((i + 1) as nat, last as nat, p);
            }
            return ColorKeys::Between(i);
        }
        i += 1;
    }
    ColorKeys::Nothing
}

/// How the particles of an emitter hang together.
#[derive(Debug, Clone, Copy, PartialEq, Eq, Structural)]
pub enum ParticleChain {
    /// Each is drawn for itself.
    Single,
    /// A stripe through them, or two that cross.
    Stripe { crossed: bool, reversed: bool },
}

/// How the particles of an emitter hang together: particles that others emit have a type of their
/// own, the direction comes from the first flag of the base shape.
pub fn particle_chain(kind: JpaParticleKind, base_type: u8, child_type: Option<u8>, flags: u32) -> (r:
    ParticleChain)
    ensures
        ({
            let shown = match (kind, child_type) {
                (JpaParticleKind::Child, Some(child)) => child,
                _ => base_type,
            };
            r == (if shown == 5 || shown == 6 {
                ParticleChain::Stripe { crossed: shown == 6, reversed: flags & 1 != 0 }
            } else {
                ParticleChain::Single
            })
        }),
{
    let shown: u8 = match (kind, child_type) {
        (JpaParticleKind::Child, Some(child)) => child,
        _ => base_type,
    };
    if shown == 5 || shown == 6 {
        ParticleChain::Stripe { crossed: shown == 6, reversed: flags & 1 != 0 }
    } else {
        ParticleChain::Single
    }
}

/// A piece of a stripe between two particles.
#[derive(Debug, Clone, Copy, PartialEq, Eq, Structural)]
pub struct StripeSegment {
    pub from: usize,
    pub to: usize,
    /// The second of two crossed pieces.
    pub second: bool,
    /// The particle whose colours the whole stripe has.
    pub head: usize,
    pub particle_type: u8,
    /// The texture runs once along the stripe: the piece shows it from this step to the next, of
    /// so many in all.
    pub step: usize,
    pub steps: usize,
}

/// Marks a particle whose corners are drawn as they stand.
pub const EXPANDED_PARTICLE: u8 = 255;

/// The position of a stripe's particle: the newest comes first, unless the order is reversed.
pub open spec fn stripe_place(count: int, reversed: bool, i: int) -> usize {
    (if reversed {
        i
    } else {
        count - 1 - i
    }) as usize
}

/// The piece of a stripe in its `n`-th gap.
pub open spec fn stripe_piece(count: int, reversed: bool, n: int, second: bool) -> StripeSegment {
    StripeSegment {
        from: stripe_place(count, reversed, n - 1),
        to: stripe_place(count, reversed, n),
        second,
        head: stripe_place(count, reversed, 0),
        particle_type: EXPANDED_PARTICLE,
        step: (n - 1) as usize,
        steps: (count - 1) as usize,
    }
}

/// The pieces of a stripe through its first `n` gaps.
pub open spec fn stripe(count: int, crossed: bool, reversed: bool, n: nat) -> Seq<StripeSegment>
    decreases n,
{
    if n == 0 {
        Seq::empty()
    } else {
        let first = stripe(count, crossed, reversed, (n - 1) as nat).push(
            stripe_piece(count, reversed, n as int, false),
        );
        if crossed {
            first.push(stripe_piece(count, reversed, n as int, true))
        } else {
            first
        }
    }
}

/// The pieces of a stripe of particles, as many as there are slots.
pub open spec fn stripe_pieces(count: int, crossed: bool, reversed: bool, capacity: int) -> Seq<
    StripeSegment,
> {
    let all = stripe(count, crossed, reversed, (if count > 0 {
        count - 1
    } else {
        0
    }) as nat);
    if all.len() <= capacity {
        all
    } else {
        all.take(capacity)
    }
}

proof fn lemma_stripe_grows(count: int, crossed: bool, reversed: bool, n: nat, m: nat)
    requires
        n <= m,
    ensures
        stripe(count, crossed, reversed, n).is_prefix_of(stripe(count, crossed, reversed, m)),
    decreases m,
{
    let a = stripe(count, crossed, reversed, n);
    if n == m {
        assert(a =~= a.take(a.len() as int));
    } else {
        lemma_stripe_grows(count, crossed, reversed, n, (m - 1) as nat);
        let b = stripe(count, crossed, reversed, (m - 1) as nat);
        let c = stripe(count, crossed, reversed, m);
        assert(a =~= c.take(a.len() as int)) by {
            assert(a =~= b.take(a.len() as int));
        }
    }
}

/// The pieces of a stripe of particles: one between each two, or two that cross.
pub fn stripe_particle_segments(count: usize, crossed: bool, reversed: bool, capacity: usize) -> (r:
    Vec<StripeSegment>)
    requires
        capacity >= 1,
    ensures
        r@ == stripe_pieces(count as int, crossed, reversed, capacity as int),
{
    let mut r: Vec<StripeSegment> = Vec::new();
    if count == 0 {
        return r;
    }
    let ghost all = stripe(count as int, crossed, reversed, (count - 1) as nat);
    let mut i: usize = 1;
    while i < count
        invariant
            1 <= i <= count,
            capacity >= 1,
            all == stripe(count as int, crossed, reversed, (count - 1) as nat),
            r@ == stripe(count as int, crossed, reversed, (i - 1) as nat),
            r@.len() < capacity,
        decreases count - i,
    {
        let (from, to, head): (usize, usize, usize) = if reversed {
            (i - 1, i, 0)
        } else {
            (count - i, count - 1 - i, count - 1)
        };
        let mut piece = StripeSegment {
            from,
            to,
            second: false,
            head,
            particle_type: EXPANDED_PARTICLE,
            step: i - 1,
            steps: count - 1,
        };
        proof {
            assert(from == stripe_place(count as int, reversed, i - 1));
            assert(to == stripe_place(count as int, reversed, i as int));
            lemma_stripe_grows(count as int, crossed, reversed, i as nat, (count - 1) as nat);
        }
        let ghost next = stripe(count as int, crossed, reversed, i as nat);
        r.push(piece);
        if r.len() >= capacity {
            proof {
                assert(r@ =~= next.take(capacity as int));
                assert(next.take(capacity as int) =~= all.take(capacity as int)) by {
                    assert(next =~= all.take(next.len() as int));
                }
                assert(r@ =~= stripe_pieces(count as int, crossed, reversed, capacity as int));
            }
            return r;
        }
        if crossed {
            piece.second = true;
            r.push(piece);
            if r.len() >= capacity {
                proof {
                    assert(r@ =~= next);
                    assert(next =~= all.take(next.len() as int));
                    assert(r@ =~= stripe_pieces(
                        count as int,
                        crossed,
                        reversed,
                        capacity as int,
                    ));
                }
                return r;
            }
        }
        i += 1;
    }
    r
}

/// Which vector a particle points along.
#[derive(Debug, Clone, Copy, PartialEq, Eq, Structural)]
pub enum DirectionSource {
    Velocity,
    Position,
    NegatedPosition,
    Emitter,
}

/// Which vector a particle points along.
pub fn particle_draw_direction(direction_type: u8) -> (r: DirectionSource)
    ensures
        r == (if direction_type == 1 {
            DirectionSource::Position
        } else if direction_type == 2 {
            DirectionSource::NegatedPosition
        } else if direction_type == 3 {
            DirectionSource::Emitter
        } else {
            DirectionSource::Velocity
        }),
{
    if direction_type == 1 {
        DirectionSource::Position
    } else if direction_type == 2 {
        DirectionSource::NegatedPosition
    } else if direction_type == 3 {
        DirectionSource::Emitter
    } else {
        DirectionSource::Velocity
    }
}

/// No emitter draws more particles than it has slots, and every particle that is drawn is alive.
pub proof fn law_drawn_particles_are_alive(alive: Seq<bool>, capacity: int)
    requires
        capacity >= 1,
        alive.len() <= usize::MAX,
    ensures
        at_most(living(alive, alive.len()), capacity).len() <= capacity,
        forall|i: int|
            0 <= i < at_most(living(alive, alive.len()), capacity).len() ==> ({
                let k = #[trigger] at_most(living(alive, alive.len()), capacity)[i];
                k < alive.len() && alive[k as int]
            }),
{
    lemma_living_is_alive(alive, alive.len());
}

proof fn lemma_living_is_alive(alive: Seq<bool>, n: nat)
    requires
        n <= alive.len(),
        alive.len() <= usize::MAX,
    ensures
        forall|i: int|
            0 <= i < living(alive, n).len() ==> ({
                let k = #[trigger] living(alive, n)[i];
                k < n && alive[k as int]
            }),
    decreases n,
{
    if n > 0 {
        lemma_living_is_alive(alive, (n - 1) as nat);
        let rest = living(alive, (n - 1) as nat);
        let all = living(alive, n);
        assert forall|i: int| 0 <= i < all.len() implies ({
            let k = #[trigger] all[i];
            k < n && alive[k as int]
        }) by {
            if i < rest.len() {
                assert(all[i] == rest[i]);
            }
        }
    }
}

} // verus!
