//! Which archive resources belong to the stage sky and its reflection helper.
use vstd::prelude::*;

use crate::text;

verus! {

/// Directory, stem and extension of a resource path whose separators may be `/` or `\`.
pub open spec fn path_parts(path: Seq<char>) -> Option<(Seq<char>, Seq<char>, Seq<char>)> {
    match text::split_last(text::with_replaced(path, '\\', '/'), '/') {
        None => None,
        Some((directory, file)) => match text::split_last(file, '.') {
            None => None,
            Some((stem, extension)) => Some((directory, stem, extension)),
        },
    }
}

/// The path lies directly in `map/map`.
pub open spec fn in_map_directory(directory: Seq<char>) -> bool {
    text::same_ignoring_case(directory, "map/map"@)
}

/// `sky` or `reflectsky`, for a resource of that stem in `map/map`.
pub open spec fn sky_stem(path: Seq<char>) -> Option<Seq<char>> {
    match path_parts(path) {
        None => None,
        Some((directory, stem, extension)) => if !in_map_directory(directory) || extension.len()
            == 0 {
            None
        } else if text::same_ignoring_case(stem, "sky"@) {
            Some("sky"@)
        } else if text::same_ignoring_case(stem, "reflectsky"@) {
            Some("reflectsky"@)
        } else {
            None
        },
    }
}

/// A resource in `map/map` with the given stem and extension.
pub open spec fn is_sky_path(path: Seq<char>, stem: Seq<char>, extension: Seq<char>) -> bool {
    match path_parts(path) {
        None => false,
        Some((directory, s, e)) => in_map_directory(directory) && text::same_ignoring_case(s, stem)
            && text::same_ignoring_case(e, extension),
    }
}

/// The extensions of animations that move the visible sky.
pub open spec fn is_visual_animation(extension: Seq<char>) -> bool {
    extension == "bck"@ || extension == "bpk"@ || extension == "btp"@ || extension == "brk"@
        || extension == "btk"@
}

/// The lower-case extension of a sky animation in `map/map` with the given stem.
pub open spec fn animation_extension(path: Seq<char>, stem: Seq<char>) -> Option<Seq<char>> {
    match path_parts(path) {
        None => None,
        Some((directory, s, e)) => if in_map_directory(directory) && text::same_ignoring_case(
            s,
            stem,
        ) && is_visual_animation(text::lower(e)) {
            Some(text::lower(e))
        } else {
            None
        },
    }
}

fn split_path(path: &str) -> (r: Option<(String, String, String)>)
    ensures
        match r {
            Some((d, s, e)) => path_parts(path@) == Some((d@, s@, e@)),
            None => path_parts(path@) is None,
        },
{
    let normalized = text::replaced(path, '\\', '/');
    match text::rsplit_once(normalized.as_str(), '/') {
        None => None,
        Some((directory, file)) => match text::rsplit_once(file.as_str(), '.') {
            None => None,
            Some((stem, extension)) => Some((directory, stem, extension)),
        },
    }
}

/// `sky` or `reflectsky`, for a resource of that stem in `map/map`.
pub fn runtime_sky_resource_stem(path: &[u8]) -> (r: Option<&'static str>)
    ensures
        match r {
            Some(s) => sky_stem(text::utf8_lossy(path@)) == Some(s@),
            None => sky_stem(text::utf8_lossy(path@)) is None,
        },
{
    sky_stem_of_text(text::lossy_text(path).as_str())
}

/// `sky` or `reflectsky`, for a path of that stem in `map/map`.
pub fn sky_stem_of_text(path: &str) -> (r: Option<&'static str>)
    ensures
        match r {
            Some(s) => sky_stem(path@) == Some(s@),
            None => sky_stem(path@) is None,
        },
{
    match split_path(path) {
        None => None,
        Some((directory, stem, extension)) => if !text::eq_ignoring_case(
            directory.as_str(),
            "map/map",
        ) || extension.as_str().is_empty() {
            None
        } else if text::eq_ignoring_case(stem.as_str(), "sky") {
            Some("sky")
        } else if text::eq_ignoring_case(stem.as_str(), "reflectsky") {
            Some("reflectsky")
        } else {
            None
        },
    }
}

/// Whether a resource lies in `map/map` with the given stem and extension.
pub fn runtime_sky_resource_path_is(
    path: &[u8],
    expected_stem: &str,
    expected_extension: &str,
) -> (r: bool)
    ensures
        r == is_sky_path(text::utf8_lossy(path@), expected_stem@, expected_extension@),
{
    sky_path_text_is(text::lossy_text(path).as_str(), expected_stem, expected_extension)
}

/// Whether a path lies in `map/map` with the given stem and extension.
pub fn sky_path_text_is(path: &str, expected_stem: &str, expected_extension: &str) -> (r: bool)
    ensures
        r == is_sky_path(path@, expected_stem@, expected_extension@),
{
    match split_path(path) {
        None => false,
        Some((directory, stem, extension)) => text::eq_ignoring_case(directory.as_str(), "map/map")
            && text::eq_ignoring_case(stem.as_str(), expected_stem) && text::eq_ignoring_case(
            extension.as_str(),
            expected_extension,
        ),
    }
}

/// The lower-case extension of a sky animation in `map/map` with the given stem.
pub fn runtime_sky_visual_animation_extension(path: &[u8], expected_stem: &str) -> (r: Option<
    String,
>)
    ensures
        match r {
            Some(e) => animation_extension(text::utf8_lossy(path@), expected_stem@) == Some(e@),
            None => animation_extension(text::utf8_lossy(path@), expected_stem@) is None,
        },
{
    sky_animation_extension_of_text(text::lossy_text(path).as_str(), expected_stem)
}

/// The lower-case extension of a sky animation path in `map/map` with the given stem.
pub fn sky_animation_extension_of_text(path: &str, expected_stem: &str) -> (r: Option<String>)
    ensures
        match r {
            Some(e) => animation_extension(path@, expected_stem@) == Some(e@),
            None => animation_extension(path@, expected_stem@) is None,
        },
{
    match split_path(path) {
        None => None,
        Some((directory, stem, extension)) => {
            if !text::eq_ignoring_case(directory.as_str(), "map/map") || !text::eq_ignoring_case(
                stem.as_str(),
                expected_stem,
            ) {
                return None;
            }
            let e = text::to_lower(extension.as_str());
            if text::same(e.as_str(), "bck") || text::same(e.as_str(), "bpk") || text::same(
                e.as_str(),
                "btp",
            ) || text::same(e.as_str(), "brk") || text::same(e.as_str(), "btk") {
                Some(e)
            } else {
                None
            }
        },
    }
}

} // verus!
