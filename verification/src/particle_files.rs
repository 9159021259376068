//! The search for the effects of a stage's actors: in the stage itself, then in the files of the
//! game, the small ones first.
use vstd::prelude::*;

use crate::particle_sources::{self, FoundEffect, ParticleFileKind, RequestedEffect};
use crate::stage::{StageAsset, StageAssetKind};

verus! {

/// A file of the stage or of an archive, and the effect that it holds where it can be read.
#[derive(Debug)]
pub struct ParticleFile {
    pub asset: StageAsset,
    pub effect: Option<usize>,
}

/// A file of the game outside the stage.
#[derive(Debug)]
pub struct GameFile {
    pub path: String,
    pub extension: Option<String>,
    /// Its length, where it is known.
    pub length: Option<u64>,
    /// The effect that it holds, where it can be read as one.
    pub effect: Option<usize>,
    /// What it holds, where it can be read as an archive.
    pub members: Vec<ParticleFile>,
}

/// The found effects after the first `n` files.
pub open spec fn after_files(
    found: Seq<FoundEffect>,
    requested: Seq<RequestedEffect>,
    files: Seq<ParticleFile>,
    n: nat,
) -> Seq<FoundEffect>
    decreases n,
{
    if n == 0 {
        found
    } else {
        let rest = after_files(found, requested, files, (n - 1) as nat);
        let file = files[n - 1];
        match (file.asset.kind, file.effect) {
            (StageAssetKind::Particle, Some(effect)) => particle_sources::with_file(
                rest,
                requested,
                file.asset.path@,
                effect,
                requested.len(),
            ),
            _ => rest,
        }
    }
}

fn search_files(
    requested: &[RequestedEffect],
    files: &[ParticleFile],
    found: &mut Vec<FoundEffect>,
)
    ensures
        final(found)@ == after_files(old(found)@, requested@, files@, files@.len()),
{
    let mut i: usize = 0;
    while i < files.len()
        invariant
            i <= files.len(),
            found@ == after_files(old(found)@, requested@, files@, i as nat),
        decreases files.len() - i,
    {
        let file = &files[i];
        if file.asset.kind == StageAssetKind::Particle {
            particle_sources::resolve_actor_particle_asset(
                requested,
                file.asset.path.as_str(),
                file.effect,
                found,
            );
        }
        i += 1;
    }
}

/// A file of unknown length counts as the longest.
pub open spec fn sort_length(file: GameFile) -> u64 {
    match file.length {
        Some(length) => length,
        None => u64::MAX,
    }
}

/// The list with one more file, behind those that are no longer.
pub open spec fn with_position(list: Seq<usize>, files: Seq<GameFile>, at: usize) -> Seq<usize>
    decreases list.len(),
{
    if list.len() > 0 && sort_length(files[list.last() as int]) > sort_length(files[at as int]) {
        with_position(list.drop_last(), files, at).push(list.last())
    } else {
        list.push(at)
    }
}

/// The positions of the first `n` files, the shortest first; equally long ones keep their order.
pub open spec fn by_length(files: Seq<GameFile>, n: nat) -> Seq<usize>
    decreases n,
{
    if n == 0 {
        Seq::empty()
    } else {
        with_position(by_length(files, (n - 1) as nat), files, (n - 1) as usize)
    }
}

proof fn lemma_with_position(list: Seq<usize>, files: Seq<GameFile>, at: usize, i: int)
    requires
        0 <= i <= list.len(),
        forall|j: int|
            i <= j < list.len() ==> sort_length(files[(#[trigger] list[j]) as int]) > sort_length(
                files[at as int],
            ),
        i > 0 ==> sort_length(files[list[i - 1] as int]) <= sort_length(files[at as int]),
    ensures
        with_position(list, files, at) == list.insert(i, at),
    decreases list.len(),
{
    if i < list.len() {
        assert(list.last() == list[list.len() - 1]);
        lemma_with_position(list.drop_last(), files, at, i);
        assert(list.insert(i, at) =~= list.drop_last().insert(i, at).push(list.last()));
    } else {
        assert(list.insert(i, at) =~= list.push(at));
    }
}

/// The positions are those of files.
pub open spec fn are_positions(list: Seq<usize>, n: int) -> bool {
    forall|j: int| 0 <= j < list.len() ==> (#[trigger] list[j]) < n
}

proof fn lemma_are_positions(list: Seq<usize>, files: Seq<GameFile>, at: usize, n: int)
    requires
        are_positions(list, n),
        at < n,
    ensures
        are_positions(with_position(list, files, at), n),
        with_position(list, files, at).len() == list.len() + 1,
    decreases list.len(),
{
    if list.len() > 0 && sort_length(files[list.last() as int]) > sort_length(files[at as int]) {
        assert(list.last() == list[list.len() - 1]);
        lemma_are_positions(list.drop_last(), files, at, n);
    }
}

/// The listed files grow in length.
pub open spec fn grow_in_length(list: Seq<usize>, files: Seq<GameFile>) -> bool {
    forall|i: int, j: int|
        0 <= i < j < list.len() ==> sort_length(files[(#[trigger] list[i]) as int]) <= sort_length(
            files[(#[trigger] list[j]) as int],
        )
}

proof fn lemma_position_keeps_growth(list: Seq<usize>, files: Seq<GameFile>, at: usize)
    requires
        grow_in_length(list, files),
    ensures
        grow_in_length(with_position(list, files, at), files),
        forall|k: int|
            0 <= k < with_position(list, files, at).len() ==> (#[trigger] with_position(
                list,
                files,
                at,
            )[k]) == at || list.contains(with_position(list, files, at)[k]),
    decreases list.len(),
{
    let all = with_position(list, files, at);
    if list.len() > 0 && sort_length(files[list.last() as int]) > sort_length(files[at as int]) {
        let shorter = list.drop_last();
        lemma_position_keeps_growth(shorter, files, at);
        let rest = with_position(shorter, files, at);
        assert(list.last() == list[list.len() - 1]);
        assert forall|k: int| 0 <= k < rest.len() implies sort_length(
            files[(#[trigger] rest[k]) as int],
        ) <= sort_length(files[list.last() as int]) by {
            if rest[k] != at {
                let i = choose|i: int| 0 <= i < shorter.len() && shorter[i] == rest[k];
                assert(list[i] == rest[k]);
            }
        }
        assert forall|k: int| 0 <= k < all.len() implies (#[trigger] all[k]) == at
            || list.contains(all[k]) by {
            if k < rest.len() {
                assert(all[k] == rest[k]);
                if rest[k] != at {
                    let i = choose|i: int| 0 <= i < shorter.len() && shorter[i] == rest[k];
                    assert(list[i] == all[k]);
                }
            } else {
                assert(list[list.len() - 1] == all[k]);
            }
        }
    } else {
        assert forall|i: int, j: int| 0 <= i < j < all.len() implies sort_length(
            files[(#[trigger] all[i]) as int],
        ) <= sort_length(files[(#[trigger] all[j]) as int]) by {
            if j == list.len() {
                assert(list.last() == list[list.len() - 1]);
                if i < list.len() - 1 {
                    assert(sort_length(files[list[i] as int]) <= sort_length(
                        files[list[list.len() - 1] as int],
                    ));
                }
            } else {
                assert(all[i] == list[i] && all[j] == list[j]);
            }
        }
        assert forall|k: int| 0 <= k < all.len() implies (#[trigger] all[k]) == at
            || list.contains(all[k]) by {
            if k < list.len() {
                assert(list[k] == all[k]);
            }
        }
    }
}

/// The files of the game are searched from the shortest to the longest.
pub proof fn law_short_files_come_first(files: Seq<GameFile>, n: nat)
    requires
        n <= files.len() <= usize::MAX,
    ensures
        grow_in_length(by_length(files, n), files),
        by_length(files, n).len() == n,
        are_positions(by_length(files, n), n as int),
    decreases n,
{
    if n > 0 {
        let before = by_length(files, (n - 1) as nat);
        law_short_files_come_first(files, (n - 1) as nat);
        lemma_position_keeps_growth(before, files, (n - 1) as usize);
        assert(are_positions(before, n as int));
        lemma_are_positions(before, files, (n - 1) as usize, n as int);
    }
}

fn length_of(file: &GameFile) -> (r: u64)
    ensures
        r == sort_length(*file),
{
    match file.length {
        Some(length) => length,
        None => u64::MAX,
    }
}

fn sort_by_length(files: &[GameFile]) -> (r: Vec<usize>)
    ensures
        r@ == by_length(files@, files@.len()),
        r@.len() == files@.len(),
        are_positions(r@, files@.len() as int),
{
    let mut list: Vec<usize> = Vec::new();
    let mut n: usize = 0;
    while n < files.len()
        invariant
            n <= files.len(),
            list@ == by_length(files@, n as nat),
            list@.len() == n,
            are_positions(list@, n as int),
        decreases files.len() - n,
    {
        let mut i: usize = list.len();
        while i > 0 && length_of(&files[list[i - 1]]) > length_of(&files[n])
            invariant
                i <= list.len(),
                n < files.len(),
                are_positions(list@, n as int),
                forall|j: int|
                    i <= j < list.len() ==> sort_length(files@[(#[trigger] list@[j]) as int])
                        > sort_length(files@[n as int]),
            decreases i,
        {
            i -= 1;
        }
        proof {
            lemma_with_position(list@, files@, n, i as int);
            assert(are_positions(list@, n as int + 1));
            lemma_are_positions(list@, files@, n, n as int + 1);
        }
        list.insert(i, n);
        n += 1;
    }
    list
}

/// The file is of this kind.
pub open spec fn has_kind(file: GameFile, kind: ParticleFileKind) -> bool {
    kind == particle_sources::file_kind(
        match file.extension {
            Some(extension) => Some(extension@),
            None => None,
        },
    )
}

fn kind_of(file: &GameFile) -> (r: ParticleFileKind)
    ensures
        has_kind(*file, r),
{
    match &file.extension {
        Some(extension) => particle_sources::particle_file_kind(Some(extension.as_str())),
        None => particle_sources::particle_file_kind(None),
    }
}

/// The found effects after the first `n` of the ordered files were read as effects.
pub open spec fn after_loose_files(
    found: Seq<FoundEffect>,
    requested: Seq<RequestedEffect>,
    files: Seq<GameFile>,
    ordered: Seq<usize>,
    n: nat,
) -> Seq<FoundEffect>
    decreases n,
{
    if n == 0 {
        found
    } else {
        let rest = after_loose_files(found, requested, files, ordered, (n - 1) as nat);
        let file = files[ordered[n - 1] as int];
        match file.effect {
            Some(effect) => if has_kind(file, ParticleFileKind::Effect) {
                particle_sources::with_file(rest, requested, file.path@, effect, requested.len())
            } else {
                rest
            },
            None => rest,
        }
    }
}

/// The found effects after the first `n` of the ordered files were read as archives.
pub open spec fn after_archives(
    found: Seq<FoundEffect>,
    requested: Seq<RequestedEffect>,
    files: Seq<GameFile>,
    ordered: Seq<usize>,
    n: nat,
) -> Seq<FoundEffect>
    decreases n,
{
    if n == 0 {
        found
    } else {
        let rest = after_archives(found, requested, files, ordered, (n - 1) as nat);
        let file = files[ordered[n - 1] as int];
        if has_kind(file, ParticleFileKind::Archive) {
            after_files(rest, requested, file.members@, file.members@.len())
        } else {
            rest
        }
    }
}

/// What the whole search finds: in the files of the stage first, then in the effect files of the
/// game, then in its archives.
pub open spec fn search_result(
    requested: Seq<RequestedEffect>,
    stage: Seq<ParticleFile>,
    files: Seq<GameFile>,
) -> Seq<FoundEffect> {
    let ordered = by_length(files, files.len());
    let in_stage = after_files(Seq::empty(), requested, stage, stage.len());
    let loose = after_loose_files(in_stage, requested, files, ordered, ordered.len());
    after_archives(loose, requested, files, ordered, ordered.len())
}

/// What is found is distinct and was asked for.
pub open spec fn is_search_state(
    found: Seq<FoundEffect>,
    requested: Seq<RequestedEffect>,
) -> bool {
    &&& particle_sources::distinct_effects(found)
    &&& forall|i: int|
        0 <= i < found.len() ==> exists|k: int|
            0 <= k < requested.len() && (#[trigger] requested[k]).effect_id == (
            #[trigger] found[i]).effect_id
}

proof fn lemma_file_keeps_state(
    found: Seq<FoundEffect>,
    requested: Seq<RequestedEffect>,
    path: Seq<char>,
    effect: usize,
    n: nat,
)
    requires
        n <= requested.len(),
        is_search_state(found, requested),
    ensures
        is_search_state(
            particle_sources::with_file(found, requested, path, effect, n),
            requested,
        ),
    decreases n,
{
    if n > 0 {
        lemma_file_keeps_state(found, requested, path, effect, (n - 1) as nat);
        particle_sources::law_first_file_wins(found, requested, path, effect, n);
        let rest = particle_sources::with_file(found, requested, path, effect, (n - 1) as nat);
        let all = particle_sources::with_file(found, requested, path, effect, n);
        assert forall|i: int| 0 <= i < all.len() implies exists|k: int|
            0 <= k < requested.len() && (#[trigger] requested[k]).effect_id == (
            #[trigger] all[i]).effect_id by {
            if i < rest.len() {
                assert(all[i] == rest[i]);
            } else {
                assert(requested[n - 1].effect_id == all[i].effect_id);
            }
        }
    }
}

/// A search that has found as many effects as were asked for has found each of them.
pub proof fn law_as_many_as_asked_for_are_all(
    found: Seq<FoundEffect>,
    requested: Seq<RequestedEffect>,
    k: int,
)
    requires
        is_search_state(found, requested),
        found.len() == requested.len(),
        0 <= k < requested.len(),
    ensures
        exists|i: int|
            0 <= i < found.len() && (#[trigger] found[i]).effect_id == requested[k].effect_id,
{
    let have = Seq::new(found.len(), |i: int| found[i].effect_id);
    let want = Seq::new(requested.len(), |i: int| requested[i].effect_id);
    assert(have.no_duplicates()) by {
        assert forall|i: int, j: int| 0 <= i < have.len() && 0 <= j < have.len() && i
            != j implies have[i] != have[j] by {
            if i < j {
                assert(found[i].effect_id != found[j].effect_id);
            } else {
                assert(found[j].effect_id != found[i].effect_id);
            }
        }
    }
    have.unique_seq_to_set();
    want.lemma_cardinality_of_set();
    assert(have.to_set().subset_of(want.to_set())) by {
        assert forall|id: u16| have.to_set().contains(id) implies want.to_set().contains(id) by {
            let i = choose|i: int| 0 <= i < have.len() && have[i] == id;
            assert(found[i].effect_id == id);
            let j = choose|j: int|
                0 <= j < requested.len() && (#[trigger] requested[j]).effect_id
                    == found[i].effect_id;
            assert(want[j] == id);
        }
    }
    vstd::seq_lib::seq_to_set_is_finite(have);
    vstd::seq_lib::seq_to_set_is_finite(want);
    vstd::set_lib::lemma_len_subset(have.to_set(), want.to_set());
    vstd::set_lib::lemma_subset_equality(have.to_set(), want.to_set());
    assert(want[k] == requested[k].effect_id);
    assert(want.to_set().contains(want[k]));
    assert(have.contains(want[k]));
    let i = choose|i: int| 0 <= i < have.len() && have[i] == want[k];
    assert(found[i].effect_id == requested[k].effect_id);
}

/// Once every effect is found, no further file changes anything: the search may end there.
pub proof fn law_a_complete_search_may_end(
    found: Seq<FoundEffect>,
    requested: Seq<RequestedEffect>,
    path: Seq<char>,
    effect: usize,
    n: nat,
)
    requires
        is_search_state(found, requested),
        found.len() == requested.len(),
        n <= requested.len(),
    ensures
        particle_sources::with_file(found, requested, path, effect, n) == found,
    decreases n,
{
    if n > 0 {
        law_a_complete_search_may_end(found, requested, path, effect, (n - 1) as nat);
        let wanted = requested[n - 1].effect_id;
        law_as_many_as_asked_for_are_all(found, requested, n - 1);
        let i = choose|i: int| 0 <= i < found.len() && (#[trigger] found[i]).effect_id == wanted;
        crate::search::lemma_first_position(found, particle_sources::is_effect(wanted));
        if crate::search::first_position(found, particle_sources::is_effect(wanted)) is None {
            assert(!particle_sources::is_effect(wanted)(found[i]));
        }
    }
}

proof fn lemma_files_keep_state(
    found: Seq<FoundEffect>,
    requested: Seq<RequestedEffect>,
    files: Seq<ParticleFile>,
    n: nat,
)
    requires
        n <= files.len(),
        is_search_state(found, requested),
    ensures
        is_search_state(after_files(found, requested, files, n), requested),
        found.len() == requested.len() ==> after_files(found, requested, files, n) == found,
    decreases n,
{
    if n > 0 {
        lemma_files_keep_state(found, requested, files, (n - 1) as nat);
        let rest = after_files(found, requested, files, (n - 1) as nat);
        let file = files[n - 1];
        if let Some(effect) = file.effect {
            lemma_file_keeps_state(rest, requested, file.asset.path@, effect, requested.len());
            if found.len() == requested.len() {
                law_a_complete_search_may_end(
                    rest,
                    requested,
                    file.asset.path@,
                    effect,
                    requested.len(),
                );
            }
        }
    }
}

proof fn lemma_loose_files_keep_state(
    found: Seq<FoundEffect>,
    requested: Seq<RequestedEffect>,
    files: Seq<GameFile>,
    ordered: Seq<usize>,
    n: nat,
)
    requires
        is_search_state(found, requested),
    ensures
        is_search_state(after_loose_files(found, requested, files, ordered, n), requested),
        found.len() == requested.len() ==> after_loose_files(found, requested, files, ordered, n)
            == found,
    decreases n,
{
    if n > 0 {
        lemma_loose_files_keep_state(found, requested, files, ordered, (n - 1) as nat);
        let rest = after_loose_files(found, requested, files, ordered, (n - 1) as nat);
        let file = files[ordered[n - 1] as int];
        if let Some(effect) = file.effect {
            lemma_file_keeps_state(rest, requested, file.path@, effect, requested.len());
            if found.len() == requested.len() {
                law_a_complete_search_may_end(
                    rest,
                    requested,
                    file.path@,
                    effect,
                    requested.len(),
                );
            }
        }
    }
}

proof fn lemma_archives_keep_state(
    found: Seq<FoundEffect>,
    requested: Seq<RequestedEffect>,
    files: Seq<GameFile>,
    ordered: Seq<usize>,
    k: nat,
    n: nat,
)
    requires
        is_search_state(found, requested),
        k <= n,
    ensures
        is_search_state(after_archives(found, requested, files, ordered, n), requested),
        after_archives(found, requested, files, ordered, k).len() == requested.len()
            ==> after_archives(found, requested, files, ordered, n) == after_archives(
            found,
            requested,
            files,
            ordered,
            k,
        ),
    decreases n,
{
    if n > 0 {
        let before = (n - 1) as nat;
        lemma_archives_keep_state(
            found,
            requested,
            files,
            ordered,
            if k < n {
                k
            } else {
                before
            },
            before,
        );
        let rest = after_archives(found, requested, files, ordered, before);
        let members = files[ordered[n - 1] as int].members@;
        lemma_files_keep_state(rest, requested, members, members.len());
    }
}

/// Searches for the wanted effects and gives those that were found, each with the first effect
/// that a file of its name holds. The files of the stage come first. Where they do not hold all,
/// the files of the game follow, the shortest first: its effect files, then its archives.
pub fn load_actor_particle_effects(
    requested: &[RequestedEffect],
    stage: &[ParticleFile],
    files: &[GameFile],
) -> (r: Vec<FoundEffect>)
    ensures
        r@ == search_result(requested@, stage@, files@),
        is_search_state(r@, requested@),
{
    let mut found: Vec<FoundEffect> = Vec::new();
    search_files(requested, stage, &mut found);
    let ordered = sort_by_length(files);
    let ghost in_stage = found@;
    let ghost loose = after_loose_files(in_stage, requested@, files@, ordered@, ordered@.len());
    proof {
        lemma_files_keep_state(Seq::empty(), requested@, stage@, stage@.len());
        lemma_loose_files_keep_state(in_stage, requested@, files@, ordered@, ordered@.len());
        lemma_archives_keep_state(loose, requested@, files@, ordered@, 0, ordered@.len());
    }
    if particle_sources::all_found(requested, found.as_slice()) {
        return found;
    }
    let mut i: usize = 0;
    while i < ordered.len()
        invariant
            i <= ordered.len(),
            are_positions(ordered@, files@.len() as int),
            found@ == after_loose_files(in_stage, requested@, files@, ordered@, i as nat),
        decreases ordered.len() - i,
    {
        let file = &files[ordered[i]];
        let kind = kind_of(file);
        if kind == ParticleFileKind::Effect {
            particle_sources::resolve_actor_particle_asset(
                requested,
                file.path.as_str(),
                file.effect,
                &mut found,
            );
        }
        i += 1;
    }
    let mut i: usize = 0;
    while i < ordered.len()
        invariant
            i <= ordered.len(),
            are_positions(ordered@, files@.len() as int),
            is_search_state(loose, requested@),
            found@ == after_archives(loose, requested@, files@, ordered@, i as nat),
        ensures
            found@ == after_archives(loose, requested@, files@, ordered@, ordered@.len()),
        decreases ordered.len() - i,
    {
        let file = &files[ordered[i]];
        let kind = kind_of(file);
        if kind == ParticleFileKind::Archive {
            search_files(requested, file.members.as_slice(), &mut found);
        }
        i += 1;
        if particle_sources::all_found(requested, found.as_slice()) {
            proof {
                lemma_archives_keep_state(
                    loose,
                    requested@,
                    files@,
                    ordered@,
                    i as nat,
                    ordered@.len(),
                );
            }
            break;
        }
    }
    found
}

} // verus!
