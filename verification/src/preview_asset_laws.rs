//! Where the files of a preview lie: beside its model, in its archive, under names that its class
//! fixes.
use vstd::prelude::*;

use crate::preview_assets;
use crate::text;

verus! {

/// The texture animation of a model has its name, whatever its extension.
pub proof fn law_texture_animations_share_the_name(base: Seq<char>, extension: Seq<char>)
    requires
        !extension.contains('.'),
    ensures
        preview_assets::srt_path(base + "."@ + extension) == Some(base + ".btk"@),
{
    reveal_strlit(".");
    assert(base + "."@ + extension =~= base.push('.') + extension);
    text::law_joined_texts_come_apart(base, '.', extension);
}

/// An accessory waits with the animation of its own name and `_wait`; only models of the two
/// kinds, up to case, have one.
pub proof fn law_accessories_wait_beside_their_models(base: Seq<char>, extension: Seq<char>)
    requires
        !extension.contains('.'),
        !extension.contains('\\'),
    ensures
        text::lower(extension) == "bmd"@ || text::lower(extension) == "bdl"@
            ==> preview_assets::accessory_animation_path(base + "."@ + extension) == Some(
            text::with_replaced(base, '\\', '/') + "_wait.bck"@,
        ),
        text::lower(extension) != "bmd"@ && text::lower(extension) != "bdl"@
            ==> preview_assets::accessory_animation_path(base + "."@ + extension) is None,
{
    reveal_strlit(".");
    let slashed = text::with_replaced(base, '\\', '/');
    let path = base + "."@ + extension;
    assert forall|i: int| 0 <= i < extension.len() implies extension[i] != '\\' by {
        assert(extension.contains(extension[i]));
    }
    assert(text::with_replaced(path, '\\', '/') =~= slashed.push('.') + extension);
    text::law_joined_texts_come_apart(slashed, '.', extension);
}

/// The big plant plays two animations of its own, in the folder of its model; any other model
/// plays the one of its own name.
pub proof fn law_the_big_plant_plays_two_animations(directory: Seq<char>, file: Seq<char>)
    requires
        !directory.contains('\\'),
        !file.contains('\\'),
        !file.contains('/'),
    ensures
        text::lower(file) == text::lower("gene_pakkun_model1.bmd"@) || text::lower(file)
            == text::lower("gene_pakkun_model1.bdl"@) ==> preview_assets::srt_paths(
            directory + "/"@ + file,
        ) == seq![
            directory + "/"@ + "gene_pakkun_tex0.btk"@,
            directory + "/"@ + "gene_pakkun_tex1.btk"@,
        ],
        text::lower(file) != text::lower("gene_pakkun_model1.bmd"@) && text::lower(file)
            != text::lower("gene_pakkun_model1.bdl"@) ==> preview_assets::srt_paths(
            directory + "/"@ + file,
        ) == (match preview_assets::srt_path(directory + "/"@ + file) {
            Some(path) => seq![path],
            None => Seq::empty(),
        }),
{
    reveal_strlit("/");
    let path = directory + "/"@ + file;
    assert forall|i: int| 0 <= i < path.len() implies path[i] != '\\' by {
        if i < directory.len() {
            assert(directory.contains(directory[i]));
        } else if i > directory.len() {
            assert(file.contains(file[i - directory.len() - 1]));
        }
    }
    assert(text::with_replaced(path, '\\', '/') =~= path);
    assert(path =~= directory.push('/') + file);
    text::law_joined_texts_come_apart(directory, '/', file);
}

/// The terrain of a stage is its `map/map/map.bmd`, inside an archive or a folder, up to case.
pub proof fn law_terrain_is_the_map_model(front: Seq<char>, path: Seq<char>)
    ensures
        preview_assets::is_map_terrain(front + "!/map/map/map.bmd"@),
        preview_assets::is_map_terrain(front + "/map/map/map.bmd"@),
        preview_assets::is_map_terrain(path) ==> "/map/map/map.bmd"@.is_suffix_of(
            text::lower(text::with_replaced(path, '\\', '/')),
        ),
{
    reveal_strlit("!/map/map/map.bmd");
    reveal_strlit("/map/map/map.bmd");
    let short = "/map/map/map.bmd"@;
    let long = "!/map/map/map.bmd"@;
    assert(long =~= seq!['!'] + short);
    let a = text::lower(text::with_replaced(front + long, '\\', '/'));
    let b = text::lower(text::with_replaced(front + short, '\\', '/'));
    assert(a.subrange(a.len() - long.len(), a.len() as int) =~= long);
    assert(b.subrange(b.len() - short.len(), b.len() as int) =~= short);
    let p = text::lower(text::with_replaced(path, '\\', '/'));
    if long.is_suffix_of(p) {
        assert(p.subrange(p.len() - short.len(), p.len() as int) =~= p.subrange(
            p.len() - long.len(),
            p.len() as int,
        ).skip(1));
        assert(long.skip(1) =~= short);
    }
}

/// A file of a model's archive is named by the archive, the mark between archive and member, and
/// the member; a model outside any archive stands for the bare path.
pub proof fn law_members_lie_in_the_models_archive(
    archive: Seq<char>,
    member: Seq<char>,
    relative: Seq<char>,
)
    requires
        !archive.contains('!'),
    ensures
        preview_assets::archive_of(archive + "!/"@ + member) == Some(archive),
        preview_assets::archive_of(archive) is None,
        preview_assets::beside(Some(archive), relative) == archive + "!/"@ + relative,
        preview_assets::beside(None, relative) == relative,
{
    reveal_strlit("!/");
    let mark = "!/"@;
    let path = archive + mark + member;
    text::law_searches_find_the_first_place(path, mark, 0);
    text::law_searches_find_the_first_place(archive, mark, 0);
    assert(path.subrange(archive.len() as int, archive.len() as int + 2) =~= mark);
    assert(text::stands_at(path, mark, archive.len() as int));
    if let Some(i) = text::find(path, mark) {
        if i < archive.len() {
            assert(path.subrange(i, i + 2)[0] == path[i]);
            assert(archive.contains(archive[i]));
        }
        assert(path.take(archive.len() as int) =~= archive);
    }
    if let Some(i) = text::find(archive, mark) {
        assert(archive.subrange(i, i + 2)[0] == archive[i]);
        assert(archive.contains(archive[i]));
    }
}

/// An NPC tries its own waiting animation first: that of its class name without the prefix, in
/// lower case, in its own folder. What is tried lies in the archive of its model.
pub proof fn law_npcs_try_their_own_animation_first(
    rest: Seq<char>,
    archive: Seq<char>,
    member: Seq<char>,
)
    requires
        !archive.contains('!'),
        !archive.contains('\\'),
        !member.contains('\\'),
    ensures
        ({
            let candidates = preview_assets::joint_animation_candidates(
                "NPC"@ + rest,
                archive + "!/"@ + member,
            );
            &&& candidates.len() > 0
            &&& candidates[0] == archive + "!/"@ + (text::lower(rest) + "/"@ + text::lower(rest)
                + "_wait.bck"@)
            &&& forall|i: int|
                0 <= i < candidates.len() ==> (archive + "!/"@).is_prefix_of(
                    #[trigger] candidates[i],
                )
        }),
{
    reveal_strlit("NPC");
    reveal_strlit("!/");
    let factory = "NPC"@ + rest;
    let path = archive + "!/"@ + member;
    assert forall|i: int| 0 <= i < path.len() implies path[i] != '\\' by {
        if i < archive.len() {
            assert(archive.contains(archive[i]));
        } else if i >= archive.len() + 2 {
            assert(member.contains(member[i - archive.len() - 2]));
        }
    }
    assert(text::with_replaced(path, '\\', '/') =~= path);
    law_members_lie_in_the_models_archive(archive, member, rest);
    assert(factory.take(3) =~= "NPC"@);
    assert("NPC"@.is_prefix_of(factory));
    assert(factory.skip(3) =~= rest);
    let own = preview_assets::own_animation(factory);
    let all = own + preview_assets::family_animations(factory);
    lemma_first_stays(all);
    assert(all[0] == own[0]);
    let candidates = preview_assets::joint_animation_candidates(factory, path);
    let relative = preview_assets::deduped(all);
    assert forall|i: int| 0 <= i < candidates.len() implies (archive + "!/"@).is_prefix_of(
        #[trigger] candidates[i],
    ) by {
        assert(candidates[i] == archive + "!/"@ + relative[i]);
        assert(candidates[i].take((archive + "!/"@).len() as int) =~= archive + "!/"@);
    }
}

proof fn lemma_first_stays(list: Seq<Seq<char>>)
    requires
        list.len() > 0,
    ensures
        preview_assets::deduped(list).len() > 0,
        preview_assets::deduped(list)[0] == list[0],
    decreases list.len(),
{
    if list.len() > 1 {
        lemma_first_stays(list.drop_last());
    }
}

/// The shared waiting animations of each family.
pub proof fn law_families_share_their_animations(factory: Seq<char>)
    ensures
        "NPCMonteM"@.is_prefix_of(factory) ==> preview_assets::family_animations(factory) == seq![
            "montemcommon/mom_wait.bck"@,
            "montem/mom_wait.bck"@,
        ],
        "NPCMonteW"@.is_prefix_of(factory) ==> preview_assets::family_animations(factory) == seq![
            "montewcommon/mow_wait.bck"@,
            "montew/mow_wait.bck"@,
        ],
        "NPCMareM"@.is_prefix_of(factory) ==> preview_assets::family_animations(factory) == seq![
            "marem/marem_wait.bck"@,
        ],
        "NPCMareW"@.is_prefix_of(factory) ==> preview_assets::family_animations(factory) == seq![
            "marew/marew_wait.bck"@,
        ],
        factory == "NPCKinopio"@ ==> preview_assets::family_animations(factory) == seq![
            "kinopio/kinopio_wait.bck"@,
        ],
        factory == "NPCKinojii"@ ==> preview_assets::family_animations(factory) == seq![
            "kinojii/kinoji_wait.bck"@,
        ],
        factory == "NPCPeach"@ ==> preview_assets::family_animations(factory) == seq![
            "peach/peach_wait.bck"@,
        ],
        factory == "NPCRaccoonDog"@ ==> preview_assets::family_animations(factory) == seq![
            "raccoondog/tanuki_wait_a.bck"@,
        ],
        factory == "GateKeeper"@ ==> preview_assets::family_animations(factory) == seq![
            "gatekeeper/gene_pakkun_wait1.bck"@,
        ],
        !"NPC"@.is_prefix_of(factory) && factory != "GateKeeper"@
            ==> preview_assets::family_animations(factory).len() == 0
            && preview_assets::own_animation(factory).len() == 0,
{
    reveal_strlit("NPCMonteM");
    reveal_strlit("NPCMonteW");
    reveal_strlit("NPCMareM");
    reveal_strlit("NPCMareW");
    reveal_strlit("NPCKinopio");
    reveal_strlit("NPCKinojii");
    reveal_strlit("NPCPeach");
    reveal_strlit("NPCRaccoonDog");
    reveal_strlit("GateKeeper");
    reveal_strlit("NPC");
    lemma_prefixes(factory, "NPCMonteM"@);
    lemma_prefixes(factory, "NPCMonteW"@);
    lemma_prefixes(factory, "NPCMareM"@);
    lemma_prefixes(factory, "NPCMareW"@);
    lemma_prefixes(factory, "NPC"@);
    assert("NPCKinopio"@[3] == 'K');
    assert("NPCKinopio"@[5] == 'n');
    assert("NPCKinopio"@[7] == 'p');
    assert("NPCKinojii"@[3] == 'K');
    assert("NPCKinojii"@[7] == 'j');
    assert("NPCPeach"@[3] == 'P');
    assert("NPCRaccoonDog"@[3] == 'R');
    assert("GateKeeper"@[0] == 'G');
    assert("NPCMonteM"@[4] == 'o' && "NPCMonteM"@[8] == 'M' && "NPCMonteM"@[3] == 'M');
    assert("NPCMonteW"@[4] == 'o' && "NPCMonteW"@[8] == 'W' && "NPCMonteW"@[3] == 'M');
    assert("NPCMareM"@[4] == 'a' && "NPCMareM"@[7] == 'M' && "NPCMareM"@[3] == 'M');
    assert("NPCMareW"@[4] == 'a' && "NPCMareW"@[7] == 'W' && "NPCMareW"@[3] == 'M');
    assert("NPCMonteM"@[0] == 'N' && "NPCMonteM"@[1] == 'P' && "NPCMonteM"@[2] == 'C');
    assert("NPCMonteW"@[0] == 'N' && "NPCMonteW"@[1] == 'P' && "NPCMonteW"@[2] == 'C');
    assert("NPCMareM"@[0] == 'N' && "NPCMareM"@[1] == 'P' && "NPCMareM"@[2] == 'C');
    assert("NPCMareW"@[0] == 'N' && "NPCMareW"@[1] == 'P' && "NPCMareW"@[2] == 'C');
    assert("NPCKinopio"@.take(3) =~= "NPC"@);
    assert("NPCKinojii"@.take(3) =~= "NPC"@);
    assert("NPCPeach"@.take(3) =~= "NPC"@);
    assert("NPCRaccoonDog"@.take(3) =~= "NPC"@);
    if factory.len() >= 3 {
        assert(factory[0] == 'N' && factory[1] == 'P' && factory[2] == 'C' ==> factory.take(3)
            =~= "NPC"@);
        assert(factory.subrange(0, 3) =~= factory.take(3));
    }
}

proof fn lemma_prefixes(s: Seq<char>, p: Seq<char>)
    ensures
        p.is_prefix_of(s) ==> p.len() <= s.len() && forall|i: int|
            0 <= i < p.len() ==> s[i] == #[trigger] p[i],
        p.is_prefix_of(s) <==> (p.len() <= s.len() && s.take(p.len() as int) == p),
{
    if p.is_prefix_of(s) {
        assert forall|i: int| 0 <= i < p.len() implies s[i] == #[trigger] p[i] by {
            assert(s.subrange(0, p.len() as int)[i] == s[i]);
        }
    }
    if p.len() <= s.len() {
        assert(s.take(p.len() as int) =~= s.subrange(0, p.len() as int));
    }
}

/// The winking animation of each class; other classes do not wink.
pub proof fn law_classes_wink_with_their_own_animation(factory: Seq<char>)
    ensures
        factory == "NPCMonteMA"@ || factory == "NPCMonteMH"@ ==> preview_assets::wink_animation(factory) == Some(
            "montemcommon/moma_wink.btp"@,
        ),
        factory == "NPCMonteMB"@ ==> preview_assets::wink_animation(factory) == Some(
            "montemcommon/momb_wink.btp"@,
        ),
        factory == "NPCMonteMC"@ || factory == "NPCMonteMG"@ ==> preview_assets::wink_animation(factory) == Some(
            "montemcommon/momc_wink.btp"@,
        ),
        factory == "NPCMonteMD"@ ==> preview_assets::wink_animation(factory) == Some(
            "montemcommon/momd_wink.btp"@,
        ),
        factory == "NPCMonteM"@ || factory == "NPCMonteMF"@ ==> preview_assets::wink_animation(factory) == Some(
            "montemcommon/mom_wink.btp"@,
        ),
        factory == "NPCMonteWA"@ ==> preview_assets::wink_animation(factory) == Some(
            "montewcommon/mowa_wink.btp"@,
        ),
        factory == "NPCMonteWB"@ ==> preview_assets::wink_animation(factory) == Some(
            "montewcommon/mowb_wink.btp"@,
        ),
        factory == "NPCMonteW"@ || factory == "NPCMonteWC"@ ==> preview_assets::wink_animation(factory) == Some(
            "montewcommon/mow_wink.btp"@,
        ),
        factory != "NPCMonteMA"@ && factory != "NPCMonteMH"@ && factory != "NPCMonteMB"@ && factory != "NPCMonteMC"@ && factory != "NPCMonteMG"@ && factory != "NPCMonteMD"@ && factory != "NPCMonteM"@ && factory != "NPCMonteMF"@ && factory != "NPCMonteWA"@ && factory != "NPCMonteWB"@ && factory != "NPCMonteW"@ && factory != "NPCMonteWC"@ ==> preview_assets::wink_animation(factory) is None,
{
    reveal_strlit("NPCMonteMA");
    reveal_strlit("NPCMonteMH");
    reveal_strlit("NPCMonteMB");
    reveal_strlit("NPCMonteMC");
    reveal_strlit("NPCMonteMG");
    reveal_strlit("NPCMonteMD");
    reveal_strlit("NPCMonteM");
    reveal_strlit("NPCMonteMF");
    reveal_strlit("NPCMonteWA");
    reveal_strlit("NPCMonteWB");
    reveal_strlit("NPCMonteW");
    reveal_strlit("NPCMonteWC");
    assert("NPCMonteMA"@.len() == 10);
    assert("NPCMonteMA"@[9] == 'A');
    assert("NPCMonteMA"@[8] == 'M');
    assert("NPCMonteMH"@.len() == 10);
    assert("NPCMonteMH"@[9] == 'H');
    assert("NPCMonteMH"@[8] == 'M');
    assert("NPCMonteMB"@.len() == 10);
    assert("NPCMonteMB"@[9] == 'B');
    assert("NPCMonteMB"@[8] == 'M');
    assert("NPCMonteMC"@.len() == 10);
    assert("NPCMonteMC"@[9] == 'C');
    assert("NPCMonteMC"@[8] == 'M');
    assert("NPCMonteMG"@.len() == 10);
    assert("NPCMonteMG"@[9] == 'G');
    assert("NPCMonteMG"@[8] == 'M');
    assert("NPCMonteMD"@.len() == 10);
    assert("NPCMonteMD"@[9] == 'D');
    assert("NPCMonteMD"@[8] == 'M');
    assert("NPCMonteM"@.len() == 9);
    assert("NPCMonteM"@[8] == 'M');
    assert("NPCMonteMF"@.len() == 10);
    assert("NPCMonteMF"@[9] == 'F');
    assert("NPCMonteMF"@[8] == 'M');
    assert("NPCMonteWA"@.len() == 10);
    assert("NPCMonteWA"@[9] == 'A');
    assert("NPCMonteWA"@[8] == 'W');
    assert("NPCMonteWB"@.len() == 10);
    assert("NPCMonteWB"@[9] == 'B');
    assert("NPCMonteWB"@[8] == 'W');
    assert("NPCMonteW"@.len() == 9);
    assert("NPCMonteW"@[8] == 'W');
    assert("NPCMonteWC"@.len() == 10);
    assert("NPCMonteWC"@[9] == 'C');
    assert("NPCMonteWC"@[8] == 'W');
}

/// The textures that the game puts in place of dummies: goop for a keeper; the goop of NPCs,
/// of the islanders only where their class takes it; and the skirts of the islanders, for all men
/// but one class and for all women. Nothing else is replaced.
pub proof fn law_dummies_are_replaced_by_class(factory: Seq<char>, rest: Seq<char>)
    ensures
        preview_assets::texture_replacements("GateKeeper"@) == seq![
            ("Q_kepper_dummy_128IA4"@, "/map/pollution/h_ma_rak.bti"@),
        ],
        factory != "GateKeeper"@ && !"NPC"@.is_prefix_of(factory)
            ==> preview_assets::texture_replacements(factory).len() == 0,
        factory != "GateKeeper"@ && "NPC"@.is_prefix_of(factory) && !"NPCMonte"@.is_prefix_of(
            factory,
        ) ==> preview_assets::texture_replacements(factory).contains(
            ("H_ma_rak_dummy"@, "/map/pollution/h_ma_rak.bti"@),
        ),
        factory == "NPCMonteM"@ || factory == "NPCMonteMA"@ || factory == "NPCMonteMC"@ ==> (
        preview_assets::texture_replacements(factory) == seq![
            ("H_ma_rak_dummy"@, "/map/pollution/h_ma_rak.bti"@),
            ("I_mom_mino_dummyI4"@, "/montemcommon/i_mom_mino_rgba.bti"@),
        ]),
        factory == "NPCMonteW"@ || factory == "NPCMonteWA"@ ==> (
        preview_assets::texture_replacements(factory) == seq![
            ("H_ma_rak_dummy"@, "/map/pollution/h_ma_rak.bti"@),
            ("I_mow_mino_dummyI4"@, "/montewcommon/i_mow_mino_rgba.bti"@),
        ]),
        factory == "NPCMonteME"@ ==> preview_assets::texture_replacements(factory).len() == 0,
        factory == "NPCMonteM"@ + rest && rest.len() == 1 && rest[0] != 'A' && rest[0] != 'C'
            && rest[0] != 'E' ==> preview_assets::texture_replacements(factory) == seq![
            ("I_mom_mino_dummyI4"@, "/montemcommon/i_mom_mino_rgba.bti"@),
        ],
        factory == "NPCMonteW"@ + rest && rest.len() == 1 && rest[0] != 'A'
            ==> preview_assets::texture_replacements(factory) == seq![
            ("I_mow_mino_dummyI4"@, "/montewcommon/i_mow_mino_rgba.bti"@),
        ],
{
    reveal_strlit("GateKeeper");
    reveal_strlit("NPC");
    reveal_strlit("NPCMonte");
    reveal_strlit("NPCMonteM");
    reveal_strlit("NPCMonteW");
    reveal_strlit("NPCMonteMA");
    reveal_strlit("NPCMonteMC");
    reveal_strlit("NPCMonteME");
    reveal_strlit("NPCMonteWA");
    lemma_prefixes(factory, "NPC"@);
    lemma_prefixes(factory, "NPCMonte"@);
    lemma_prefixes(factory, "NPCMonteM"@);
    lemma_prefixes(factory, "NPCMonteW"@);
    assert("GateKeeper"@[0] == 'G');
    assert("NPC"@[0] == 'N');
    assert("NPCMonteM"@[8] == 'M' && "NPCMonteM"@.len() == 9 && "NPCMonteM"@[0] == 'N');
    assert("NPCMonteW"@[8] == 'W' && "NPCMonteW"@.len() == 9 && "NPCMonteW"@[0] == 'N');
    assert("NPCMonteMA"@[9] == 'A' && "NPCMonteMA"@[8] == 'M' && "NPCMonteMA"@.len() == 10);
    assert("NPCMonteMC"@[9] == 'C' && "NPCMonteMC"@[8] == 'M' && "NPCMonteMC"@.len() == 10);
    assert("NPCMonteME"@[9] == 'E' && "NPCMonteME"@[8] == 'M' && "NPCMonteME"@.len() == 10);
    assert("NPCMonteWA"@[9] == 'A' && "NPCMonteWA"@[8] == 'W' && "NPCMonteWA"@.len() == 10);
    if factory.len() >= 9 {
        assert(factory.take(9).take(8) =~= factory.take(8));
        assert(factory.take(9).take(3) =~= factory.take(3));
        assert("NPCMonteM"@.take(8) =~= "NPCMonte"@);
        assert("NPCMonteW"@.take(8) =~= "NPCMonte"@);
        assert("NPCMonteM"@.take(3) =~= "NPC"@);
        assert("NPCMonteW"@.take(3) =~= "NPC"@);
        assert("NPCMonteMA"@.take(9) =~= "NPCMonteM"@);
        assert("NPCMonteMC"@.take(9) =~= "NPCMonteM"@);
        assert("NPCMonteME"@.take(9) =~= "NPCMonteM"@);
        assert("NPCMonteWA"@.take(9) =~= "NPCMonteW"@);
        assert("NPCMonteM"@.take(9) =~= "NPCMonteM"@);
        assert("NPCMonteW"@.take(9) =~= "NPCMonteW"@);
        assert(("NPCMonteM"@ + rest).take(9) =~= "NPCMonteM"@);
        assert(("NPCMonteW"@ + rest).take(9) =~= "NPCMonteW"@);
    }
    let made = preview_assets::texture_replacements(factory);
    if factory != "GateKeeper"@ && "NPC"@.is_prefix_of(factory) && !"NPCMonte"@.is_prefix_of(
        factory,
    ) {
        assert(made[0] == ("H_ma_rak_dummy"@, "/map/pollution/h_ma_rak.bti"@));
    }
    if factory == "NPCMonteM"@ + rest {
        assert(rest.len() > 0 ==> factory[9] == rest[0]);
    }
    if factory == "NPCMonteW"@ + rest {
        assert(rest.len() > 0 ==> factory[9] == rest[0]);
    }
    let goop = ("H_ma_rak_dummy"@, "/map/pollution/h_ma_rak.bti"@);
    let man = ("I_mom_mino_dummyI4"@, "/montemcommon/i_mom_mino_rgba.bti"@);
    let woman = ("I_mow_mino_dummyI4"@, "/montewcommon/i_mow_mino_rgba.bti"@);
    assert(seq![goop] + seq![man] =~= seq![goop, man]);
    assert(seq![goop] + seq![woman] =~= seq![goop, woman]);
}

/// The eyes of an NPC are the materials whose names end in `_eye_mat`, up to case.
pub proof fn law_eyes_are_known_by_their_ending(front: Seq<char>, name: Seq<char>)
    ensures
        preview_assets::is_eye_name(front + "_eye_mat"@),
        preview_assets::is_eye_name(name) ==> name.len() >= 8,
{
    reveal_strlit("_eye_mat");
    let s = text::lower(front + "_eye_mat"@);
    assert(s.subrange(s.len() - 8, s.len() as int) =~= "_eye_mat"@);
}

} // verus!
