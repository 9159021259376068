//! Which particle effects the actors of a stage emit, and which files hold them.
use vstd::prelude::*;

use crate::order;
use crate::registry::{
    ActorParticleBinding, ObjectDefinition, ObjectRegistry, ParticleBindingTarget,
};
use crate::search;
use crate::stage::SceneObject;
use crate::text;

verus! {

/// The definition is that of a factory.
pub open spec fn defines(factory: Seq<char>) -> spec_fn(ObjectDefinition) -> bool {
    |definition: ObjectDefinition| definition.factory_name@ == factory
}

/// The class behind an object's factory, where it is known.
pub open spec fn defined_class(registry: ObjectRegistry, factory: Seq<char>) -> Option<Seq<char>> {
    match search::first_position(registry.objects@, defines(factory)) {
        Some(i) => if registry.objects@[i].class_name@ == "Unknown"@ {
            None
        } else {
            Some(registry.objects@[i].class_name@)
        },
        None => None,
    }
}

/// The class that an object was placed with, where it is a class of the game.
pub open spec fn placed_class(object: SceneObject) -> Option<Seq<char>> {
    match object.class_name {
        Some(name) => if name@.len() > 0 && name@[0] == 'T' {
            Some(name@)
        } else {
            None
        },
        None => None,
    }
}

/// The name under which a class is placed: without its namespace and the leading `T`.
pub open spec fn placement_name(class_name: Seq<char>) -> Seq<char> {
    let short = text::after_last_pattern(class_name, "::"@);
    if short.len() > 0 && short[0] == 'T' {
        short.drop_first()
    } else {
        short
    }
}

/// The object is placed under this name.
pub open spec fn is_placed_as(object: SceneObject, name: Seq<char>) -> bool {
    name == object.factory_name@ || name == (match object.class_name {
        Some(class_name) => class_name@,
        None => ""@,
    })
}

/// Some of the first `n` bindings gives the object this class.
pub open spec fn bound_class(
    bindings: Seq<ActorParticleBinding>,
    object: SceneObject,
    name: Seq<char>,
    n: int,
) -> bool {
    exists|i: int|
        0 <= i < n && (#[trigger] bindings[i]).class_name@ == name && is_placed_as(
            object,
            placement_name(name),
        )
}

/// The object is of this class, as far as the first `n` bindings tell.
pub open spec fn has_class_among(
    registry: ObjectRegistry,
    object: SceneObject,
    name: Seq<char>,
    n: int,
) -> bool {
    ||| defined_class(registry, object.factory_name@) == Some(name)
    ||| placed_class(object) == Some(name)
    ||| bound_class(registry.actor_particle_bindings@, object, name, n)
}

/// The object is of this class.
pub open spec fn has_class(registry: ObjectRegistry, object: SceneObject, name: Seq<char>) -> bool {
    has_class_among(registry, object, name, registry.actor_particle_bindings@.len() as int)
}

fn find_defined_class(registry: &ObjectRegistry, factory: &str) -> (r: Option<String>)
    ensures
        match r {
            Some(name) => defined_class(*registry, factory@) == Some(name@),
            None => defined_class(*registry, factory@) is None,
        },
{
    let ghost wanted = defines(factory@);
    let mut i: usize = 0;
    while i < registry.objects.len()
        invariant
            i <= registry.objects.len(),
            wanted == defines(factory@),
            forall|j: int| 0 <= j < i ==> !wanted(#[trigger] registry.objects@[j]),
        decreases registry.objects.len() - i,
    {
        if text::same(registry.objects[i].factory_name.as_str(), factory) {
            proof {
                search::lemma_found(registry.objects@, wanted, i as int);
            }
            if text::same(registry.objects[i].class_name.as_str(), "Unknown") {
                return None;
            }
            return Some(registry.objects[i].class_name.clone());
        }
        i += 1;
    }
    proof {
        search::lemma_not_found(registry.objects@, wanted);
    }
    None
}

fn find_placement_name(class_name: &str) -> (r: String)
    ensures
        r@ == placement_name(class_name@),
{
    let short = text::tail_after_pattern(class_name, "::");
    let chars = text::chars_of(short.as_str());
    if chars.len() > 0 && chars[0] == 'T' {
        let r = text::skip_text(short.as_str(), 1);
        proof {
            assert(r@ =~= short@.drop_first());
        }
        r
    } else {
        short
    }
}

fn placed_as(object: &SceneObject, name: &str) -> (r: bool)
    ensures
        r == is_placed_as(*object, name@),
{
    if text::same(name, object.factory_name.as_str()) {
        return true;
    }
    match &object.class_name {
        Some(class_name) => text::same(name, class_name.as_str()),
        None => text::same(name, ""),
    }
}

/// The classes of an object, in order and each once: that of its factory, the one it was placed
/// with, and those whose particle effects are bound to its name.
pub fn cpp_class_names_for_object(registry: &ObjectRegistry, object: &SceneObject) -> (r: Vec<
    String,
>)
    ensures
        order::strictly_sorted(text::views(r@)),
        forall|name: Seq<char>|
            text::views(r@).contains(name) <==> #[trigger] has_class(*registry, *object, name),
{
    let mut r: Vec<String> = Vec::new();
    proof {
        assert(text::views(r@) =~= Seq::empty());
    }
    if let Some(name) = find_defined_class(registry, object.factory_name.as_str()) {
        order::insert_text(&mut r, name);
    }
    if let Some(name) = &object.class_name {
        proof {
            reveal_strlit("T");
            assert("T"@.len() == 1 && "T"@[0] == 'T');
            if "T"@.is_prefix_of(name@) {
                assert(name@[0] == name@.take(1)[0]);
            }
            if name@.len() > 0 && name@[0] == 'T' {
                assert(name@.take(1) =~= "T"@);
            }
        }
        if text::starts_with(name.as_str(), "T") {
            order::insert_text(&mut r, name.clone());
        }
    }
    let mut i: usize = 0;
    while i < registry.actor_particle_bindings.len()
        invariant
            i <= registry.actor_particle_bindings.len(),
            order::strictly_sorted(text::views(r@)),
            forall|name: Seq<char>|
                text::views(r@).contains(name) <==> #[trigger] has_class_among(
                    *registry,
                    *object,
                    name,
                    i as int,
                ),
        decreases registry.actor_particle_bindings.len() - i,
    {
        let binding = &registry.actor_particle_bindings[i];
        let ghost before = text::views(r@);
        let short = find_placement_name(binding.class_name.as_str());
        if placed_as(object, short.as_str()) {
            order::insert_text(&mut r, binding.class_name.clone());
        }
        proof {
            assert forall|name: Seq<char>|
                text::views(r@).contains(name) <==> #[trigger] has_class_among(
                    *registry,
                    *object,
                    name,
                    i + 1,
                ) by {
                assert(before.contains(name) == has_class_among(
                    *registry,
                    *object,
                    name,
                    i as int,
                ));
                lemma_one_more_binding(
                    registry.actor_particle_bindings@,
                    *object,
                    name,
                    i as int,
                );
            }
        }
        i += 1;
    }
    proof {
        assert forall|name: Seq<char>|
            text::views(r@).contains(name) <==> #[trigger] has_class(*registry, *object, name) by {
            assert(text::views(r@).contains(name) == has_class_among(
                *registry,
                *object,
                name,
                i as int,
            ));
        }
    }
    r
}

proof fn lemma_one_more_binding(
    bindings: Seq<ActorParticleBinding>,
    object: SceneObject,
    name: Seq<char>,
    n: int,
)
    requires
        0 <= n < bindings.len(),
    ensures
        bound_class(bindings, object, name, n + 1) == (bound_class(bindings, object, name, n) || (
        bindings[n].class_name@ == name && is_placed_as(object, placement_name(name)))),
{
    if bound_class(bindings, object, name, n) {
        let i = choose|i: int|
            0 <= i < n && (#[trigger] bindings[i]).class_name@ == name && is_placed_as(
                object,
                placement_name(name),
            );
        assert(0 <= i < n + 1 && bindings[i].class_name@ == name);
    }
}

/// The pair that an effect file belongs to: its name without `_a.jpa` or `_b.jpa`.
pub open spec fn pair_group(path: Seq<char>) -> Option<Seq<char>> {
    match text::without_suffix(text::after_last(path, '/'), ".jpa"@) {
        Some(stem) => match text::without_suffix(stem, "_a"@) {
            Some(group) => Some(group),
            None => text::without_suffix(stem, "_b"@),
        },
        None => None,
    }
}

/// The pair that an effect file belongs to.
pub fn particle_pair_group(path: &str) -> (r: Option<String>)
    ensures
        match r {
            Some(group) => pair_group(path@) == Some(group@),
            None => pair_group(path@) is None,
        },
{
    let name = text::tail_after_last(path, '/');
    match text::strip_end(name.as_str(), ".jpa") {
        Some(stem) => match text::strip_end(stem.as_str(), "_a") {
            Some(group) => Some(group),
            None => text::strip_end(stem.as_str(), "_b"),
        },
        None => None,
    }
}

/// A wanted effect and the file that holds it.
#[derive(Debug)]
pub struct RequestedEffect {
    pub effect_id: u16,
    pub path: String,
}

/// An effect that was found, by the application's number for it.
#[derive(Debug, Clone, Copy, PartialEq, Eq, Structural)]
pub struct FoundEffect {
    pub effect_id: u16,
    pub effect: usize,
}

/// The part of a path inside its archive.
pub open spec fn inside_archive(path: Seq<char>) -> Seq<char> {
    match text::find(path, "!/"@) {
        Some(i) => path.skip(i + "!/"@.len()),
        None => path,
    }
}

/// The path, normalized, is that of the wanted file: a path has to end alike, a bare name has to
/// be the file's name up to case.
pub open spec fn is_file_of(path: Seq<char>, resource: Seq<char>) -> bool {
    let internal = inside_archive(path);
    if text::occurs_in(resource, "/"@) {
        text::without_leading(resource, '/').is_suffix_of(internal)
    } else {
        text::same_ignoring_case(text::after_last(internal, '/'), resource)
    }
}

/// Whether a file, by its normalized path, is that of a wanted effect.
pub fn file_holds_effect(path: &str, resource: &str) -> (r: bool)
    ensures
        r == is_file_of(path@, resource@),
{
    let internal = match text::find_text(path, "!/") {
        Some(i) => {
            let total: usize = path.unicode_len();
            let len: usize = "!/".unicode_len();
            proof {
                assert(i + len <= total);
            }
            text::skip_text(path, i + len)
        },
        None => path.to_owned(),
    };
    if text::contains(resource, "/") {
        text::ends_with(internal.as_str(), text::strip_leading(resource, '/').as_str())
    } else {
        text::eq_ignoring_case(text::tail_after_last(internal.as_str(), '/').as_str(), resource)
    }
}

/// The wanted effects with their paths in the normal form that the paths of files have; the forms
/// come in the order of the effects.
pub fn with_normalized_paths(requested: Vec<RequestedEffect>, normalized: Vec<String>) -> (r: Vec<
    RequestedEffect,
>)
    requires
        normalized@.len() == requested@.len(),
    ensures
        r@.len() == requested@.len(),
        forall|i: int|
            0 <= i < r@.len() ==> (#[trigger] r@[i]).effect_id == requested@[i].effect_id
                && r@[i].path@ == normalized@[i]@,
{
    let mut r: Vec<RequestedEffect> = Vec::new();
    let mut i: usize = 0;
    while i < requested.len()
        invariant
            i <= requested.len(),
            normalized@.len() == requested@.len(),
            r@.len() == i,
            forall|j: int|
                0 <= j < i ==> (#[trigger] r@[j]).effect_id == requested@[j].effect_id
                    && r@[j].path@ == normalized@[j]@,
        decreases requested.len() - i,
    {
        let path = normalized[i].as_str().to_owned();
        r.push(RequestedEffect { effect_id: requested[i].effect_id, path });
        i += 1;
    }
    r
}

/// The effect is this one.
pub open spec fn is_effect(id: u16) -> spec_fn(FoundEffect) -> bool {
    |found: FoundEffect| found.effect_id == id
}

/// The found effects after a file was held against the first `n` wanted ones.
pub open spec fn with_file(
    found: Seq<FoundEffect>,
    requested: Seq<RequestedEffect>,
    path: Seq<char>,
    effect: usize,
    n: nat,
) -> Seq<FoundEffect>
    decreases n,
{
    if n == 0 {
        found
    } else {
        let rest = with_file(found, requested, path, effect, (n - 1) as nat);
        let wanted = requested[n - 1];
        if search::first_position(rest, is_effect(wanted.effect_id)) is None && is_file_of(
            path,
            wanted.path@,
        ) {
            rest.push(FoundEffect { effect_id: wanted.effect_id, effect })
        } else {
            rest
        }
    }
}

fn is_found(found: &[FoundEffect], id: u16) -> (r: bool)
    ensures
        r == (search::first_position(found@, is_effect(id)) is Some),
{
    let mut i: usize = 0;
    while i < found.len()
        invariant
            i <= found.len(),
            forall|j: int| 0 <= j < i ==> !is_effect(id)(#[trigger] found@[j]),
        decreases found.len() - i,
    {
        if found[i].effect_id == id {
            proof {
                search::lemma_found(found@, is_effect(id), i as int);
            }
            return true;
        }
        i += 1;
    }
    proof {
        search::lemma_not_found(found@, is_effect(id));
    }
    false
}

/// Holds a file against the wanted effects that are not found yet. `path` and the wanted paths
/// are normalized; `effect` is what the file holds, where it can be read.
pub fn resolve_actor_particle_asset(
    requested: &[RequestedEffect],
    path: &str,
    effect: Option<usize>,
    found: &mut Vec<FoundEffect>,
)
    ensures
        match effect {
            Some(effect) => final(found)@ == with_file(
                old(found)@,
                requested@,
                path@,
                effect,
                requested@.len(),
            ),
            None => final(found)@ == old(found)@,
        },
{
    let effect = match effect {
        Some(effect) => effect,
        None => {
            return;
        },
    };
    let mut i: usize = 0;
    while i < requested.len()
        invariant
            i <= requested.len(),
            found@ == with_file(old(found)@, requested@, path@, effect, i as nat),
        decreases requested.len() - i,
    {
        let id = requested[i].effect_id;
        if !is_found(found.as_slice(), id) && file_holds_effect(path, requested[i].path.as_str()) {
            found.push(FoundEffect { effect_id: id, effect });
        }
        i += 1;
    }
}

/// No effect is found twice.
pub open spec fn distinct_effects(found: Seq<FoundEffect>) -> bool {
    forall|i: int, j: int|
        0 <= i < j < found.len() ==> (#[trigger] found[i]).effect_id != (#[trigger] found[
            j]).effect_id
}

/// The first file that holds an effect gives it: effects found earlier stay, and none is found
/// twice.
pub proof fn law_first_file_wins(
    found: Seq<FoundEffect>,
    requested: Seq<RequestedEffect>,
    path: Seq<char>,
    effect: usize,
    n: nat,
)
    requires
        n <= requested.len(),
        distinct_effects(found),
    ensures
        found.is_prefix_of(with_file(found, requested, path, effect, n)),
        distinct_effects(with_file(found, requested, path, effect, n)),
    decreases n,
{
    if n == 0 {
        assert(found =~= found.take(found.len() as int));
    } else {
        law_first_file_wins(found, requested, path, effect, (n - 1) as nat);
        let rest = with_file(found, requested, path, effect, (n - 1) as nat);
        let all = with_file(found, requested, path, effect, n);
        search::lemma_first_position(rest, is_effect(requested[n - 1].effect_id));
        assert(found =~= all.take(found.len() as int)) by {
            assert(found =~= rest.take(found.len() as int));
        }
    }
}

/// Some object has the class of a binding to this effect.
pub open spec fn is_requested(
    registry: ObjectRegistry,
    objects: Seq<SceneObject>,
    id: u16,
) -> bool {
    exists|b: int, o: int|
        0 <= b < registry.actor_particle_bindings@.len() && 0 <= o < objects.len()
            && (#[trigger] registry.actor_particle_bindings@[b]).effect_id == id && has_class(
            registry,
            #[trigger] objects[o],
            registry.actor_particle_bindings@[b].class_name@,
        )
}

fn emits(registry: &ObjectRegistry, objects: &[SceneObject], id: u16) -> (r: bool)
    ensures
        r == is_requested(*registry, objects@, id),
{
    let mut o: usize = 0;
    while o < objects.len()
        invariant
            o <= objects.len(),
            forall|b: int, p: int|
                0 <= b < registry.actor_particle_bindings@.len() && 0 <= p < o && (
                #[trigger] registry.actor_particle_bindings@[b]).effect_id == id ==> !has_class(
                    *registry,
                    #[trigger] objects@[p],
                    registry.actor_particle_bindings@[b].class_name@,
                ),
        decreases objects.len() - o,
    {
        let classes = cpp_class_names_for_object(registry, &objects[o]);
        let mut b: usize = 0;
        while b < registry.actor_particle_bindings.len()
            invariant
                o < objects.len(),
                b <= registry.actor_particle_bindings.len(),
                forall|name: Seq<char>|
                    text::views(classes@).contains(name) <==> #[trigger] has_class(
                        *registry,
                        objects@[o as int],
                        name,
                    ),
                forall|c: int|
                    0 <= c < b && (#[trigger] registry.actor_particle_bindings@[c]).effect_id == id
                        ==> !has_class(
                        *registry,
                        objects@[o as int],
                        registry.actor_particle_bindings@[c].class_name@,
                    ),
            decreases registry.actor_particle_bindings.len() - b,
        {
            let binding = &registry.actor_particle_bindings[b];
            if binding.effect_id == id && holds_text(
                classes.as_slice(),
                binding.class_name.as_str(),
            ) {
                assert(has_class(
                    *registry,
                    objects@[o as int],
                    registry.actor_particle_bindings@[b as int].class_name@,
                ));
                return true;
            }
            b += 1;
        }
        o += 1;
    }
    false
}

fn holds_text(list: &[String], item: &str) -> (r: bool)
    ensures
        r == text::views(list@).contains(item@),
{
    let ghost views = text::views(list@);
    let mut i: usize = 0;
    while i < list.len()
        invariant
            i <= list.len(),
            views == text::views(list@),
            forall|j: int| 0 <= j < i ==> #[trigger] views[j] != item@,
        decreases list.len() - i,
    {
        if text::same(list[i].as_str(), item) {
            assert(views[i as int] == item@);
            return true;
        }
        i += 1;
    }
    false
}

/// What is wanted: each effect with the file that the registry names last for it.
#[verifier::ext_equal]
pub struct RequestView {
    pub effect_id: u16,
    pub path: Seq<char>,
}

impl View for RequestedEffect {
    type V = RequestView;

    open spec fn view(&self) -> RequestView {
        RequestView { effect_id: self.effect_id, path: self.path@ }
    }
}

/// The abstract values of a list of wanted effects.
pub open spec fn request_views(list: Seq<RequestedEffect>) -> Seq<RequestView> {
    Seq::new(list.len(), |i: int| list[i]@)
}

/// The wanted effects with one more, in the order of their numbers; the file named last counts.
pub open spec fn with_request(list: Seq<RequestView>, item: RequestView) -> Seq<RequestView>
    decreases list.len(),
{
    if list.len() == 0 {
        seq![item]
    } else if list.last().effect_id > item.effect_id {
        with_request(list.drop_last(), item).push(list.last())
    } else if list.last().effect_id == item.effect_id {
        list.drop_last().push(item)
    } else {
        list.push(item)
    }
}

/// The wanted effects among the first `n` of the registry's files.
pub open spec fn requests(registry: ObjectRegistry, objects: Seq<SceneObject>, n: nat) -> Seq<
    RequestView,
>
    decreases n,
{
    if n == 0 {
        Seq::empty()
    } else {
        let rest = requests(registry, objects, (n - 1) as nat);
        let resource = registry.particle_resources@[n - 1];
        if is_requested(registry, objects, resource.effect_id) {
            with_request(
                rest,
                RequestView { effect_id: resource.effect_id, path: resource.path@ },
            )
        } else {
            rest
        }
    }
}

proof fn lemma_with_request(list: Seq<RequestView>, item: RequestView, i: int)
    requires
        0 <= i <= list.len(),
        forall|j: int| i <= j < list.len() ==> (#[trigger] list[j]).effect_id > item.effect_id,
        i > 0 ==> list[i - 1].effect_id <= item.effect_id,
    ensures
        with_request(list, item) == (if i > 0 && list[i - 1].effect_id == item.effect_id {
            list.update(i - 1, item)
        } else {
            list.insert(i, item)
        }),
    decreases list.len(),
{
    if i < list.len() {
        assert(list.last() == list[list.len() - 1]);
        lemma_with_request(list.drop_last(), item, i);
        if i > 0 && list[i - 1].effect_id == item.effect_id {
            assert(list.update(i - 1, item) =~= list.drop_last().update(i - 1, item).push(
                list.last(),
            ));
        } else {
            assert(list.insert(i, item) =~= list.drop_last().insert(i, item).push(list.last()));
        }
    } else if list.len() > 0 {
        if list.last().effect_id == item.effect_id {
            assert(list.update(i - 1, item) =~= list.drop_last().push(item));
        } else {
            assert(list.insert(i, item) =~= list.push(item));
        }
    } else {
        assert(list.insert(i, item) =~= seq![item]);
    }
}

fn put_request(list: &mut Vec<RequestedEffect>, item: RequestedEffect)
    ensures
        request_views(final(list)@) == with_request(request_views(old(list)@), item@),
{
    let ghost start = request_views(list@);
    let mut i: usize = list.len();
    while i > 0 && list[i - 1].effect_id > item.effect_id
        invariant
            i <= list.len(),
            list@ == old(list)@,
            start == request_views(list@),
            forall|j: int| i <= j < start.len() ==> (#[trigger] start[j]).effect_id
                > item.effect_id,
        decreases i,
    {
        i -= 1;
    }
    proof {
        if i > 0 {
            assert(start[i - 1] == list@[i - 1]@);
        }
        lemma_with_request(start, item@, i as int);
    }
    let ghost wanted = item@;
    if i > 0 && list[i - 1].effect_id == item.effect_id {
        list.set(i - 1, item);
        proof {
            assert(request_views(list@) =~= start.update(i - 1, wanted));
        }
    } else {
        list.insert(i, item);
        proof {
            assert(request_views(list@) =~= start.insert(i as int, wanted));
        }
    }
}

/// The effects that the actors of a stage emit, with the files that hold them, in the order of
/// their numbers.
pub fn requested_particle_effects(registry: &ObjectRegistry, objects: &[SceneObject]) -> (r: Vec<
    RequestedEffect,
>)
    ensures
        request_views(r@) == requests(*registry, objects@, registry.particle_resources@.len()),
{
    let mut r: Vec<RequestedEffect> = Vec::new();
    let mut i: usize = 0;
    proof {
        assert(request_views(r@) =~= Seq::empty());
    }
    while i < registry.particle_resources.len()
        invariant
            i <= registry.particle_resources.len(),
            request_views(r@) == requests(*registry, objects@, i as nat),
        decreases registry.particle_resources.len() - i,
    {
        let resource = &registry.particle_resources[i];
        if emits(registry, objects, resource.effect_id) {
            put_request(
                &mut r,
                RequestedEffect { effect_id: resource.effect_id, path: resource.path.clone() },
            );
        }
        i += 1;
    }
    r
}

/// Where a particle file can be found.
#[derive(Debug, Clone, Copy, PartialEq, Eq, Structural)]
pub enum ParticleFileKind {
    Effect,
    Archive,
    Other,
}

/// What a file outside the stage can bring, by its extension: an effect where the extension is
/// exactly `jpa`, an archive of effects up to case.
pub open spec fn file_kind(extension: Option<Seq<char>>) -> ParticleFileKind {
    match extension {
        Some(extension) => if extension == "jpa"@ {
            ParticleFileKind::Effect
        } else if text::same_ignoring_case(extension, "szs"@) || text::same_ignoring_case(
            extension,
            "arc"@,
        ) {
            ParticleFileKind::Archive
        } else {
            ParticleFileKind::Other
        },
        None => ParticleFileKind::Other,
    }
}

/// What a file outside the stage can bring, by its extension.
pub fn particle_file_kind(extension: Option<&str>) -> (r: ParticleFileKind)
    ensures
        r == file_kind(
            match extension {
                Some(extension) => Some(extension@),
                None => None,
            },
        ),
{
    match extension {
        Some(extension) => {
            if text::same(extension, "jpa") {
                ParticleFileKind::Effect
            } else if text::eq_ignoring_case(extension, "szs") || text::eq_ignoring_case(
                extension,
                "arc",
            ) {
                ParticleFileKind::Archive
            } else {
                ParticleFileKind::Other
            }
        },
        None => ParticleFileKind::Other,
    }
}

/// Whether the search for particle files goes into a directory, by the first name of its path
/// below the data root: the archives of the scenes are left out.
pub fn searches_directory(first_name: Option<&str>) -> (r: bool)
    ensures
        r == !(first_name matches Some(name) && text::same_ignoring_case(name@, "scene"@)),
{
    match first_name {
        Some(name) => !text::eq_ignoring_case(name, "scene"),
        None => true,
    }
}

/// Whether every wanted effect is found.
pub fn all_found(requested: &[RequestedEffect], found: &[FoundEffect]) -> (r: bool)
    ensures
        r == (requested@.len() == found@.len()),
{
    requested.len() == found.len()
}

/// The binding applies to an object of these classes, its effect was found, and the joint that
/// it names exists.
pub open spec fn binding_applies(
    binding: ActorParticleBinding,
    registry: ObjectRegistry,
    object: SceneObject,
    found: Seq<FoundEffect>,
    joints: nat,
) -> bool {
    &&& has_class(registry, object, binding.class_name@)
    &&& search::first_position(found, is_effect(binding.effect_id)) is Some
    &&& match binding.target {
        ParticleBindingTarget::ActorOrigin => true,
        ParticleBindingTarget::ModelJoint(joint) => joint < joints,
    }
}

/// Those of the first `n` bindings that apply.
pub open spec fn applying(
    registry: ObjectRegistry,
    object: SceneObject,
    found: Seq<FoundEffect>,
    joints: nat,
    n: nat,
) -> Seq<usize>
    decreases n,
{
    if n == 0 {
        Seq::empty()
    } else {
        let rest = applying(registry, object, found, joints, (n - 1) as nat);
        if binding_applies(
            registry.actor_particle_bindings@[n - 1],
            registry,
            object,
            found,
            joints,
        ) {
            rest.push((n - 1) as usize)
        } else {
            rest
        }
    }
}

/// Positions of the bindings whose effects an object emits; `joints` is how many joints its model
/// has.
pub fn actor_particle_bindings(
    registry: Option<&ObjectRegistry>,
    object: &SceneObject,
    found: &[FoundEffect],
    joints: usize,
) -> (r: Vec<usize>)
    ensures
        r@ == (match registry {
            Some(registry) => applying(
                *registry,
                *object,
                found@,
                joints as nat,
                registry.actor_particle_bindings@.len(),
            ),
            None => Seq::empty(),
        }),
{
    let mut r: Vec<usize> = Vec::new();
    if let Some(registry) = registry {
        let classes = cpp_class_names_for_object(registry, object);
        let mut i: usize = 0;
        while i < registry.actor_particle_bindings.len()
            invariant
                i <= registry.actor_particle_bindings.len(),
                forall|name: Seq<char>|
                    text::views(classes@).contains(name) <==> #[trigger] has_class(
                        *registry,
                        *object,
                        name,
                    ),
                r@ == applying(*registry, *object, found@, joints as nat, i as nat),
            decreases registry.actor_particle_bindings.len() - i,
        {
            let binding = &registry.actor_particle_bindings[i];
            let has_joint = match binding.target {
                ParticleBindingTarget::ActorOrigin => true,
                ParticleBindingTarget::ModelJoint(joint) => joint < joints,
            };
            let of_class = holds_text(classes.as_slice(), binding.class_name.as_str());
            proof {
                assert(of_class == has_class(*registry, *object, binding.class_name@));
            }
            if of_class && is_found(found, binding.effect_id) && has_joint {
                r.push(i);
            }
            i += 1;
        }
    }
    r
}

} // verus!
