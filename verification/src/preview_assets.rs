//! Which stage files a preview model draws on: animations, textures, tables and accessories.
use vstd::prelude::*;

use crate::search;
use crate::stage::{SceneObject, StageAsset, StageAssetKind};
use crate::text;

verus! {

/// A path with `/` as separator.
pub open spec fn slashed(path: Seq<char>) -> Seq<char> {
    text::with_replaced(path, '\\', '/')
}

/// The asset has this kind and, up to case and separators, this path.
pub open spec fn is_asset_at(kind: StageAssetKind, path: Seq<char>) -> spec_fn(StageAsset) -> bool {
    |asset: StageAsset|
        asset.kind == kind && text::same_ignoring_case(slashed(asset.path@), path)
}

/// The asset has this kind and, up to case and separators, a path with this ending.
pub open spec fn ends_asset(kind: StageAssetKind, suffix: Seq<char>) -> spec_fn(StageAsset) -> bool {
    |asset: StageAsset|
        asset.kind == kind && suffix.is_suffix_of(text::lower(slashed(asset.path@)))
}

/// Position of the asset of a kind at a path, up to case and separators.
pub fn find_stage_asset_at(assets: &[StageAsset], kind: StageAssetKind, path: &str) -> (r: Option<
    usize,
>)
    ensures
        match r {
            Some(i) => i < assets@.len() && search::first_position(
                assets@,
                is_asset_at(kind, path@),
            ) == Some(i as int),
            None => search::first_position(assets@, is_asset_at(kind, path@)) is None,
        },
{
    let mut i: usize = 0;
    while i < assets.len()
        invariant
            i <= assets.len(),
            forall|j: int| 0 <= j < i ==> !is_asset_at(kind, path@)(#[trigger] assets@[j]),
        decreases assets.len() - i,
    {
        if assets[i].kind == kind && text::eq_ignoring_case(
            text::replaced(assets[i].path.as_str(), '\\', '/').as_str(),
            path,
        ) {
            proof {
                search::lemma_found(assets@, is_asset_at(kind, path@), i as int);
            }
            return Some(i);
        }
        i += 1;
    }
    proof {
        search::lemma_not_found(assets@, is_asset_at(kind, path@));
    }
    None
}

/// Position of the first asset of a kind whose path ends like this, up to case and separators.
pub fn find_stage_asset_by_suffix(assets: &[StageAsset], kind: StageAssetKind, suffix: &str) -> (r:
    Option<usize>)
    ensures
        match r {
            Some(i) => i < assets@.len() && search::first_position(
                assets@,
                ends_asset(kind, text::lower(suffix@)),
            ) == Some(i as int),
            None => search::first_position(assets@, ends_asset(kind, text::lower(suffix@))) is None,
        },
{
    let folded = text::to_lower(suffix);
    let mut i: usize = 0;
    while i < assets.len()
        invariant
            i <= assets.len(),
            folded@ == text::lower(suffix@),
            forall|j: int|
                0 <= j < i ==> !ends_asset(kind, text::lower(suffix@))(#[trigger] assets@[j]),
        decreases assets.len() - i,
    {
        let path = text::replaced(assets[i].path.as_str(), '\\', '/');
        if assets[i].kind == kind && text::ends_with(
            text::to_lower(path.as_str()).as_str(),
            folded.as_str(),
        ) {
            proof {
                search::lemma_found(assets@, ends_asset(kind, text::lower(suffix@)), i as int);
            }
            return Some(i);
        }
        i += 1;
    }
    proof {
        search::lemma_not_found(assets@, ends_asset(kind, text::lower(suffix@)));
    }
    None
}

/// The model is the terrain of its stage.
pub open spec fn is_map_terrain(path: Seq<char>) -> bool {
    "!/map/map/map.bmd"@.is_suffix_of(text::lower(slashed(path)))
        || "/map/map/map.bmd"@.is_suffix_of(text::lower(slashed(path)))
}

/// Whether a model is the terrain of its stage.
pub fn model_path_is_map_terrain(model_path: &str) -> (r: bool)
    ensures
        r == is_map_terrain(model_path@),
{
    let normalized = text::to_lower(text::replaced(model_path, '\\', '/').as_str());
    text::ends_with(normalized.as_str(), "!/map/map/map.bmd") || text::ends_with(
        normalized.as_str(),
        "/map/map/map.bmd",
    )
}

/// The texture animation that shares a model's base name.
pub open spec fn srt_path(path: Seq<char>) -> Option<Seq<char>> {
    match text::split_last(path, '.') {
        Some((base, _)) => Some(base + ".btk"@),
        None => None,
    }
}

/// The texture animation that shares a model's base name.
pub fn model_texture_srt_animation_path(model_path: &str) -> (r: Option<String>)
    ensures
        match r {
            Some(path) => srt_path(model_path@) == Some(path@),
            None => srt_path(model_path@) is None,
        },
{
    match text::rsplit_once(model_path, '.') {
        Some((base, _)) => Some(base.concat(".btk")),
        None => None,
    }
}

/// The big plant's model, which plays two animations of its own.
pub open spec fn is_big_plant(file: Seq<char>) -> bool {
    text::same_ignoring_case(file, "gene_pakkun_model1.bmd"@) || text::same_ignoring_case(
        file,
        "gene_pakkun_model1.bdl"@,
    )
}

/// The texture animations that a model plays, in order.
pub open spec fn srt_paths(path: Seq<char>) -> Seq<Seq<char>> {
    let normalized = slashed(path);
    match text::split_last(normalized, '/') {
        Some((directory, file)) if is_big_plant(file) => seq![
            directory + "/"@ + "gene_pakkun_tex0.btk"@,
            directory + "/"@ + "gene_pakkun_tex1.btk"@,
        ],
        _ => match srt_path(normalized) {
            Some(path) => seq![path],
            None => Seq::empty(),
        },
    }
}

/// The texture animations that a model plays, in order.
pub fn model_texture_srt_animation_paths(model_path: &str) -> (r: Vec<String>)
    ensures
        text::views(r@) == srt_paths(model_path@),
{
    let normalized = text::replaced(model_path, '\\', '/');
    let mut r: Vec<String> = Vec::new();
    if let Some((directory, file)) = text::rsplit_once(normalized.as_str(), '/') {
        if text::eq_ignoring_case(file.as_str(), "gene_pakkun_model1.bmd")
            || text::eq_ignoring_case(file.as_str(), "gene_pakkun_model1.bdl") {
            r.push(directory.clone().concat("/").concat("gene_pakkun_tex0.btk"));
            r.push(directory.concat("/").concat("gene_pakkun_tex1.btk"));
            proof {
                assert(text::views(r@) =~= srt_paths(model_path@));
            }
            return r;
        }
    }
    if let Some(path) = model_texture_srt_animation_path(normalized.as_str()) {
        r.push(path);
    }
    proof {
        assert(text::views(r@) =~= srt_paths(model_path@));
    }
    r
}

/// The waiting animation of an accessory model.
pub open spec fn accessory_animation_path(path: Seq<char>) -> Option<Seq<char>> {
    match text::split_last(slashed(path), '.') {
        Some((base, extension)) => if text::lower(extension) == "bmd"@ || text::lower(extension)
            == "bdl"@ {
            Some(base + "_wait.bck"@)
        } else {
            None
        },
        None => None,
    }
}

/// The waiting animation of an accessory model.
pub fn accessory_joint_animation_path(model_path: &str) -> (r: Option<String>)
    ensures
        match r {
            Some(path) => accessory_animation_path(model_path@) == Some(path@),
            None => accessory_animation_path(model_path@) is None,
        },
{
    let normalized = text::replaced(model_path, '\\', '/');
    match text::rsplit_once(normalized.as_str(), '.') {
        Some((base, extension)) => {
            let folded = text::to_lower(extension.as_str());
            if text::same(folded.as_str(), "bmd") || text::same(folded.as_str(), "bdl") {
                Some(base.concat("_wait.bck"))
            } else {
                None
            }
        },
        None => None,
    }
}

/// The archive in front of the first `!/`, where a path lies in one.
pub open spec fn archive_of(path: Seq<char>) -> Option<Seq<char>> {
    match text::find(path, "!/"@) {
        Some(i) => Some(path.take(i)),
        None => None,
    }
}

/// A path inside the archive of a model, or the bare path for a model outside any.
pub open spec fn beside(archive: Option<Seq<char>>, relative: Seq<char>) -> Seq<char> {
    match archive {
        Some(archive) => archive + "!/"@ + relative,
        None => relative,
    }
}

fn beside_text(archive: &Option<String>, relative: &str) -> (r: String)
    ensures
        r@ == beside(
            (match archive {
                Some(a) => Some(a@),
                None => None,
            }),
            relative@,
        ),
{
    match archive {
        Some(archive) => archive.clone().concat("!/").concat(relative),
        None => relative.to_owned(),
    }
}

fn archive_text(path: &str) -> (r: Option<String>)
    ensures
        match r {
            Some(a) => archive_of(path@) == Some(a@),
            None => archive_of(path@) is None,
        },
{
    match text::find_text(path, "!/") {
        Some(i) => Some(text::take_text(path, i)),
        None => None,
    }
}

/// The shared waiting animations of an object's family, relative to its archive.
pub open spec fn family_animations(factory: Seq<char>) -> Seq<Seq<char>> {
    if "NPCMonteM"@.is_prefix_of(factory) {
        seq!["montemcommon/mom_wait.bck"@, "montem/mom_wait.bck"@]
    } else if "NPCMonteW"@.is_prefix_of(factory) {
        seq!["montewcommon/mow_wait.bck"@, "montew/mow_wait.bck"@]
    } else if "NPCMareM"@.is_prefix_of(factory) {
        seq!["marem/marem_wait.bck"@]
    } else if "NPCMareW"@.is_prefix_of(factory) {
        seq!["marew/marew_wait.bck"@]
    } else if factory == "NPCKinopio"@ {
        seq!["kinopio/kinopio_wait.bck"@]
    } else if factory == "NPCKinojii"@ {
        seq!["kinojii/kinoji_wait.bck"@]
    } else if factory == "NPCPeach"@ {
        seq!["peach/peach_wait.bck"@]
    } else if factory == "NPCRaccoonDog"@ {
        seq!["raccoondog/tanuki_wait_a.bck"@]
    } else if factory == "GateKeeper"@ {
        seq!["gatekeeper/gene_pakkun_wait1.bck"@]
    } else {
        Seq::empty()
    }
}

/// An NPC's own waiting animation: its class name without the prefix, in lower case.
pub open spec fn own_animation(factory: Seq<char>) -> Seq<Seq<char>> {
    if "NPC"@.is_prefix_of(factory) {
        let key = text::lower(factory.skip(3));
        seq![key + "/"@ + key + "_wait.bck"@]
    } else {
        Seq::empty()
    }
}

/// The list without an entry that equals the one before it.
pub open spec fn deduped(list: Seq<Seq<char>>) -> Seq<Seq<char>>
    decreases list.len(),
{
    if list.len() <= 1 {
        list
    } else {
        let rest = deduped(list.drop_last());
        if list[list.len() - 2] == list.last() {
            rest
        } else {
            rest.push(list.last())
        }
    }
}

/// The waiting animations to try for an object, its own before those of its family.
pub open spec fn joint_animation_candidates(factory: Seq<char>, model_path: Seq<char>) -> Seq<
    Seq<char>,
> {
    let relative = deduped(own_animation(factory) + family_animations(factory));
    Seq::new(relative.len(), |i: int| beside(archive_of(slashed(model_path)), relative[i]))
}

fn push_text(list: &mut Vec<String>, item: &str)
    ensures
        text::views(final(list)@) == text::views(old(list)@).push(item@),
{
    list.push(item.to_owned());
    proof {
        assert(text::views(list@) =~= text::views(old(list)@).push(item@));
    }
}

fn family_animation_list(factory: &str) -> (r: Vec<String>)
    ensures
        text::views(r@) == family_animations(factory@),
{
    let mut r: Vec<String> = Vec::new();
    if text::starts_with(factory, "NPCMonteM") {
        push_text(&mut r, "montemcommon/mom_wait.bck");
        push_text(&mut r, "montem/mom_wait.bck");
    } else if text::starts_with(factory, "NPCMonteW") {
        push_text(&mut r, "montewcommon/mow_wait.bck");
        push_text(&mut r, "montew/mow_wait.bck");
    } else if text::starts_with(factory, "NPCMareM") {
        push_text(&mut r, "marem/marem_wait.bck");
    } else if text::starts_with(factory, "NPCMareW") {
        push_text(&mut r, "marew/marew_wait.bck");
    } else if text::same(factory, "NPCKinopio") {
        push_text(&mut r, "kinopio/kinopio_wait.bck");
    } else if text::same(factory, "NPCKinojii") {
        push_text(&mut r, "kinojii/kinoji_wait.bck");
    } else if text::same(factory, "NPCPeach") {
        push_text(&mut r, "peach/peach_wait.bck");
    } else if text::same(factory, "NPCRaccoonDog") {
        push_text(&mut r, "raccoondog/tanuki_wait_a.bck");
    } else if text::same(factory, "GateKeeper") {
        push_text(&mut r, "gatekeeper/gene_pakkun_wait1.bck");
    }
    proof {
        assert(text::views(r@) =~= family_animations(factory@));
    }
    r
}

fn dedup(list: &[String]) -> (r: Vec<String>)
    ensures
        text::views(r@) == deduped(text::views(list@)),
{
    let ghost views = text::views(list@);
    let mut r: Vec<String> = Vec::new();
    let mut i: usize = 0;
    proof {
        assert(text::views(r@) =~= deduped(views.take(0)));
    }
    while i < list.len()
        invariant
            i <= list.len(),
            views == text::views(list@),
            text::views(r@) == deduped(views.take(i as int)),
        decreases list.len() - i,
    {
        proof {
            assert(views.take(i + 1).drop_last() =~= views.take(i as int));
            assert(views.take(i + 1).last() == views[i as int]);
            if i > 0 {
                assert(views.take(i + 1)[i - 1] == views[i - 1]);
            }
        }
        if i == 0 || !text::same(list[i - 1].as_str(), list[i].as_str()) {
            push_text(&mut r, list[i].as_str());
            proof {
                if i == 0 {
                    assert(deduped(views.take(0)) =~= Seq::empty());
                    assert(text::views(r@) =~= views.take(1));
                }
            }
        }
        i += 1;
    }
    proof {
        assert(views.take(i as int) =~= views);
    }
    r
}

/// The waiting animations to try for an object, its own before those of its family.
pub fn starting_joint_animation_candidates(object: &SceneObject, model_path: &str) -> (r: Vec<
    String,
>)
    ensures
        text::views(r@) == joint_animation_candidates(object.factory_name@, model_path@),
{
    let archive = archive_text(text::replaced(model_path, '\\', '/').as_str());
    let factory = object.factory_name.as_str();
    let mut relative: Vec<String> = Vec::new();
    if text::starts_with(factory, "NPC") {
        proof {
            reveal_strlit("NPC");
        }
        let key = text::to_lower(text::skip_text(factory, 3).as_str());
        let own = key.clone().concat("/").concat(key.as_str()).concat("_wait.bck");
        relative.push(own);
    }
    proof {
        assert(text::views(relative@) =~= own_animation(factory@));
    }
    let mut family = family_animation_list(factory);
    let ghost own = relative@;
    let ghost shared = family@;
    relative.append(&mut family);
    proof {
        assert(text::views(relative@) =~= text::views(own) + text::views(shared));
    }
    let relative = dedup(relative.as_slice());
    let ghost wanted = text::views(relative@);
    let mut r: Vec<String> = Vec::new();
    let mut i: usize = 0;
    while i < relative.len()
        invariant
            i <= relative.len(),
            wanted == text::views(relative@),
            (match archive {
                Some(a) => archive_of(slashed(model_path@)) == Some(a@),
                None => archive_of(slashed(model_path@)) is None,
            }),
            text::views(r@) == Seq::new(
                i as nat,
                |j: int| beside(archive_of(slashed(model_path@)), wanted[j]),
            ),
        decreases relative.len() - i,
    {
        let path = beside_text(&archive, relative[i].as_str());
        push_text(&mut r, path.as_str());
        i += 1;
        proof {
            assert(text::views(r@) =~= Seq::new(
                i as nat,
                |j: int| beside(archive_of(slashed(model_path@)), wanted[j]),
            ));
        }
    }
    proof {
        assert(text::views(r@) =~= joint_animation_candidates(object.factory_name@, model_path@));
    }
    r
}

/// The winking animation of an object class, relative to its archive.
pub open spec fn wink_animation(factory: Seq<char>) -> Option<Seq<char>> {
    if factory == "NPCMonteMA"@ || factory == "NPCMonteMH"@ {
        Some("montemcommon/moma_wink.btp"@)
    } else if factory == "NPCMonteMB"@ {
        Some("montemcommon/momb_wink.btp"@)
    } else if factory == "NPCMonteMC"@ || factory == "NPCMonteMG"@ {
        Some("montemcommon/momc_wink.btp"@)
    } else if factory == "NPCMonteMD"@ {
        Some("montemcommon/momd_wink.btp"@)
    } else if factory == "NPCMonteM"@ || factory == "NPCMonteMF"@ {
        Some("montemcommon/mom_wink.btp"@)
    } else if factory == "NPCMonteWA"@ {
        Some("montewcommon/mowa_wink.btp"@)
    } else if factory == "NPCMonteWB"@ {
        Some("montewcommon/mowb_wink.btp"@)
    } else if factory == "NPCMonteW"@ || factory == "NPCMonteWC"@ {
        Some("montewcommon/mow_wink.btp"@)
    } else {
        None
    }
}

fn wink_animation_of(factory: &str) -> (r: Option<&'static str>)
    ensures
        match r {
            Some(path) => wink_animation(factory@) == Some(path@),
            None => wink_animation(factory@) is None,
        },
{
    if text::same(factory, "NPCMonteMA") || text::same(factory, "NPCMonteMH") {
        Some("montemcommon/moma_wink.btp")
    } else if text::same(factory, "NPCMonteMB") {
        Some("montemcommon/momb_wink.btp")
    } else if text::same(factory, "NPCMonteMC") || text::same(factory, "NPCMonteMG") {
        Some("montemcommon/momc_wink.btp")
    } else if text::same(factory, "NPCMonteMD") {
        Some("montemcommon/momd_wink.btp")
    } else if text::same(factory, "NPCMonteM") || text::same(factory, "NPCMonteMF") {
        Some("montemcommon/mom_wink.btp")
    } else if text::same(factory, "NPCMonteWA") {
        Some("montewcommon/mowa_wink.btp")
    } else if text::same(factory, "NPCMonteWB") {
        Some("montewcommon/mowb_wink.btp")
    } else if text::same(factory, "NPCMonteW") || text::same(factory, "NPCMonteWC") {
        Some("montewcommon/mow_wink.btp")
    } else {
        None
    }
}

/// The texture pattern animations to try for an object.
pub open spec fn texture_pattern_candidates(factory: Seq<char>, model_path: Seq<char>) -> Seq<
    Seq<char>,
> {
    match wink_animation(factory) {
        Some(relative) => seq![beside(archive_of(slashed(model_path)), relative)],
        None => Seq::empty(),
    }
}

/// The texture pattern animations to try for an object.
pub fn starting_texture_pattern_candidates(object: &SceneObject, model_path: &str) -> (r: Vec<
    String,
>)
    ensures
        text::views(r@) == texture_pattern_candidates(object.factory_name@, model_path@),
{
    let mut r: Vec<String> = Vec::new();
    if let Some(relative) = wink_animation_of(object.factory_name.as_str()) {
        let archive = archive_text(text::replaced(model_path, '\\', '/').as_str());
        r.push(beside_text(&archive, relative));
    }
    proof {
        assert(text::views(r@) =~= texture_pattern_candidates(object.factory_name@, model_path@));
    }
    r
}

/// The textures that the game puts in place of an actor's dummies: name and path ending of each.
pub open spec fn texture_replacements(factory: Seq<char>) -> Seq<(Seq<char>, Seq<char>)> {
    let goop = ("H_ma_rak_dummy"@, "/map/pollution/h_ma_rak.bti"@);
    let takes_goop = !"NPCMonte"@.is_prefix_of(factory) || factory == "NPCMonteM"@ || factory
        == "NPCMonteMA"@ || factory == "NPCMonteMC"@ || factory == "NPCMonteW"@ || factory
        == "NPCMonteWA"@;
    let skirt = if "NPCMonteM"@.is_prefix_of(factory) && factory != "NPCMonteME"@ {
        seq![("I_mom_mino_dummyI4"@, "/montemcommon/i_mom_mino_rgba.bti"@)]
    } else if "NPCMonteW"@.is_prefix_of(factory) {
        seq![("I_mow_mino_dummyI4"@, "/montewcommon/i_mow_mino_rgba.bti"@)]
    } else {
        Seq::empty()
    };
    if factory == "GateKeeper"@ {
        seq![("Q_kepper_dummy_128IA4"@, "/map/pollution/h_ma_rak.bti"@)]
    } else if !"NPC"@.is_prefix_of(factory) {
        Seq::empty()
    } else if takes_goop {
        seq![goop] + skirt
    } else {
        skirt
    }
}

/// The texts of a list of pairs.
pub open spec fn pair_views(list: Seq<(&'static str, &'static str)>) -> Seq<(Seq<char>, Seq<char>)> {
    Seq::new(list.len(), |i: int| (list[i].0@, list[i].1@))
}

/// The textures that the game puts in place of an actor's dummies.
pub fn actor_runtime_texture_replacements(factory: &str) -> (r: Vec<
    (&'static str, &'static str),
>)
    ensures
        pair_views(r@) == texture_replacements(factory@),
{
    let mut r: Vec<(&'static str, &'static str)> = Vec::new();
    if text::same(factory, "GateKeeper") {
        r.push(("Q_kepper_dummy_128IA4", "/map/pollution/h_ma_rak.bti"));
    } else if text::starts_with(factory, "NPC") {
        if !text::starts_with(factory, "NPCMonte") || text::same(factory, "NPCMonteM")
            || text::same(factory, "NPCMonteMA") || text::same(factory, "NPCMonteMC")
            || text::same(factory, "NPCMonteW") || text::same(factory, "NPCMonteWA") {
            r.push(("H_ma_rak_dummy", "/map/pollution/h_ma_rak.bti"));
        }
        if text::starts_with(factory, "NPCMonteM") && !text::same(factory, "NPCMonteME") {
            r.push(("I_mom_mino_dummyI4", "/montemcommon/i_mom_mino_rgba.bti"));
        } else if text::starts_with(factory, "NPCMonteW") {
            r.push(("I_mow_mino_dummyI4", "/montewcommon/i_mow_mino_rgba.bti"));
        }
    }
    proof {
        assert(pair_views(r@) =~= texture_replacements(factory@));
    }
    r
}

/// The material is an NPC's eye.
pub open spec fn is_eye_name(name: Seq<char>) -> bool {
    "_eye_mat"@.is_suffix_of(text::lower(name))
}

/// Whether a material is an NPC's eye.
pub fn is_npc_eye_material_name(name: &str) -> (r: bool)
    ensures
        r == is_eye_name(name@),
{
    text::ends_with(text::to_lower(name).as_str(), "_eye_mat")
}

/// One step of the hash: exclusive or, then the multiplier.
pub open spec fn hash_step(hash: u64, byte: u8) -> u64 {
    (hash ^ (byte as u64)).wrapping_mul(0x1000_0000_01b3)
}

/// The hash of bytes, one after the other.
pub open spec fn byte_hash(bytes: Seq<u8>) -> u64
    decreases bytes.len(),
{
    if bytes.len() == 0 {
        0xcbf2_9ce4_8422_2325
    } else {
        hash_step(byte_hash(bytes.drop_last()), bytes.last())
    }
}

/// A hash of a text that is the same in every run.
pub fn stable_string_hash(value: &str) -> (r: u64)
    ensures
        r == byte_hash(vstd::utf8::encode_utf8(value@)),
{
    let bytes = value.as_bytes_vec();
    let mut hash: u64 = 0xcbf2_9ce4_8422_2325;
    let mut i: usize = 0;
    while i < bytes.len()
        invariant
            i <= bytes.len(),
            hash == byte_hash(bytes@.take(i as int)),
        decreases bytes.len() - i,
    {
        proof {
            assert(bytes@.take(i + 1).drop_last() =~= bytes@.take(i as int));
            assert(bytes@.take(i + 1).last() == bytes@[i as int]);
        }
        hash = (hash ^ bytes[i] as u64).wrapping_mul(0x1000_0000_01b3);
        i += 1;
    }
    proof {
        assert(bytes@.take(i as int) =~= bytes@);
    }
    hash
}

} // verus!
