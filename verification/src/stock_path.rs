//! Archive paths of stock map-object resources.
use vstd::prelude::*;

use crate::sky_bundle;
use crate::text;

verus! {

/// Why a stock resource name gives no archive path.
#[derive(Debug, Clone, Copy, PartialEq, Eq, Structural)]
pub enum StockPathError {
    /// Empty, padded with white space, or holding a NUL.
    Invalid,
    /// Absolute or with a drive, outside `/scene/mapObj`.
    Outside,
    /// With an empty, `.` or `..` component.
    UnsafeComponent,
    /// Not of the wanted extension.
    WrongExtension,
}

impl StockPathError {
    /// What the editor reports of a resource name.
    pub open spec fn text(self, resource: Seq<char>, extension: Seq<char>) -> Seq<char> {
        match self {
            StockPathError::Invalid => "invalid stock resource path "@ + text::debug_form(resource),
            StockPathError::Outside => "stock resource path "@ + text::debug_form(resource)
                + " is outside /scene/mapObj"@,
            StockPathError::UnsafeComponent => "stock resource path "@ + text::debug_form(resource)
                + " has an unsafe archive-relative component"@,
            StockPathError::WrongExtension => "stock resource path "@ + text::debug_form(resource)
                + " must name a "@ + extension + " resource"@,
        }
    }

    /// What the editor reports of a resource name.
    pub fn message(&self, resource: &str, extension: &str) -> (r: String)
        ensures
            r@ == self.text(resource@, extension@),
    {
        let name = text::debug_text(resource);
        match self {
            StockPathError::Invalid => {
                "invalid stock resource path ".to_owned().concat(name.as_str())
            },
            StockPathError::Outside => {
                "stock resource path ".to_owned().concat(name.as_str()).concat(
                    " is outside /scene/mapObj",
                )
            },
            StockPathError::UnsafeComponent => {
                "stock resource path ".to_owned().concat(name.as_str()).concat(
                    " has an unsafe archive-relative component",
                )
            },
            StockPathError::WrongExtension => {
                "stock resource path ".to_owned().concat(name.as_str()).concat(
                    " must name a ",
                ).concat(extension).concat(" resource")
            },
        }
    }
}

/// A component that names neither nothing, nor the directory itself, nor its parent.
pub open spec fn is_safe_component(component: Seq<char>) -> bool {
    component.len() > 0 && component != "."@ && component != ".."@
}

/// Every component of a relative path is safe.
pub open spec fn has_safe_components(path: Seq<char>) -> bool {
    path.len() > 0 && forall|i: int|
        0 <= i < text::split(path, '/').len() ==> is_safe_component(
            #[trigger] text::split(path, '/')[i],
        )
}

/// What stands behind the map-object directory, for a name with `/` as separator.
pub open spec fn relative_part(normalized: Seq<char>) -> Option<Seq<char>> {
    let folded = text::lower(normalized);
    if "/scene/mapobj/"@.is_prefix_of(folded) {
        Some(normalized.skip("/scene/mapobj/"@.len() as int))
    } else if "scene/mapobj/"@.is_prefix_of(folded) {
        Some(normalized.skip("scene/mapobj/"@.len() as int))
    } else if "mapobj/"@.is_prefix_of(folded) {
        Some(normalized.skip("mapobj/"@.len() as int))
    } else if "/"@.is_prefix_of(normalized) || text::occurs_in(normalized, ":"@) {
        None
    } else {
        Some(normalized)
    }
}

/// The relative path with the wanted extension; a collision name without any gets `.col`.
pub open spec fn with_extension(relative: Seq<char>, extension: Seq<char>) -> Option<Seq<char>> {
    if extension.is_suffix_of(text::lower(relative)) {
        Some(relative)
    } else if extension == ".col"@ && !text::occurs_in(text::after_last(relative, '/'), "."@) {
        Some(relative + ".col"@)
    } else {
        None
    }
}

/// The archive path that a stock resource name stands for.
pub open spec fn stock_path(resource: Seq<char>, extension: Seq<char>) -> Result<
    Seq<char>,
    StockPathError,
> {
    let normalized = text::with_replaced(resource, '\\', '/');
    if text::trimmed(normalized) != normalized || normalized.len() == 0 || text::occurs_in(
        normalized,
        "\0"@,
    ) {
        Err(StockPathError::Invalid)
    } else {
        match relative_part(normalized) {
            None => Err(StockPathError::Outside),
            Some(relative) => if !has_safe_components(relative) {
                Err(StockPathError::UnsafeComponent)
            } else {
                match with_extension(relative, extension) {
                    None => Err(StockPathError::WrongExtension),
                    Some(path) => Ok("mapobj/"@ + path),
                }
            },
        }
    }
}

fn component_is_safe(component: &str) -> (r: bool)
    ensures
        r == is_safe_component(component@),
{
    !component.is_empty() && !text::same(component, ".") && !text::same(component, "..")
}

fn components_are_safe(path: &str) -> (r: bool)
    ensures
        r == has_safe_components(path@),
{
    if path.is_empty() {
        return false;
    }
    let mut rest = path.to_owned();
    let ghost mut tail: Seq<Seq<char>> = Seq::empty();
    proof {
        assert(text::split(path@, '/') =~= text::split(rest@, '/') + tail);
    }
    loop
        invariant
            path@.len() > 0,
            text::split(path@, '/') == text::split(rest@, '/') + tail,
            forall|i: int| 0 <= i < tail.len() ==> is_safe_component(#[trigger] tail[i]),
        decreases rest@.len(),
    {
        proof {
            text::lemma_last_index(rest@, '/');
        }
        let ghost whole = text::split(rest@, '/');
        match text::rsplit_once(rest.as_str(), '/') {
            None => {
                let safe = component_is_safe(rest.as_str());
                proof {
                    assert(whole =~= seq![rest@]);
                    assert(text::split(path@, '/')[0] == rest@);
                    assert forall|i: int|
                        0 <= i < text::split(path@, '/').len() && safe implies is_safe_component(
                        #[trigger] text::split(path@, '/')[i],
                    ) by {
                        if i > 0 {
                            assert(text::split(path@, '/')[i] == tail[i - 1]);
                        }
                    }
                }
                return safe;
            },
            Some((before, after)) => {
                proof {
                    assert(whole == text::split(before@, '/').push(after@));
                    assert(text::split(path@, '/')[text::split(before@, '/').len() as int]
                        == after@);
                    assert(text::split(path@, '/') =~= text::split(before@, '/') + (seq![after@]
                        + tail));
                    assert forall|i: int|
                        0 <= i < (seq![after@] + tail).len() && is_safe_component(
                            after@,
                        ) implies is_safe_component(#[trigger] (seq![after@] + tail)[i]) by {
                        if i > 0 {
                            assert((seq![after@] + tail)[i] == tail[i - 1]);
                        }
                    }
                }
                if !component_is_safe(after.as_str()) {
                    return false;
                }
                proof {
                    tail = seq![after@] + tail;
                }
                rest = before;
            },
        }
    }
}

fn skip_prefix(s: &str, prefix: &str) -> (r: String)
    requires
        prefix@.len() <= s@.len(),
    ensures
        r@ == s@.skip(prefix@.len() as int),
{
    s.substring_char(prefix.unicode_len(), s.unicode_len()).to_owned()
}

fn relative_of(normalized: &str) -> (r: Option<String>)
    ensures
        match r {
            Some(relative) => relative_part(normalized@) == Some(relative@),
            None => relative_part(normalized@) is None,
        },
{
    let folded = text::to_lower(normalized);
    if text::starts_with(folded.as_str(), "/scene/mapobj/") {
        Some(skip_prefix(normalized, "/scene/mapobj/"))
    } else if text::starts_with(folded.as_str(), "scene/mapobj/") {
        Some(skip_prefix(normalized, "scene/mapobj/"))
    } else if text::starts_with(folded.as_str(), "mapobj/") {
        Some(skip_prefix(normalized, "mapobj/"))
    } else if text::starts_with(normalized, "/") || text::contains(normalized, ":") {
        None
    } else {
        Some(normalized.to_owned())
    }
}

/// The archive path that a stock resource name stands for, as text.
pub fn stock_mapobj_path(resource: &str, required_extension: &str) -> (r: Result<
    String,
    StockPathError,
>)
    ensures
        match r {
            Ok(path) => stock_path(resource@, required_extension@) == Ok::<
                Seq<char>,
                StockPathError,
            >(path@),
            Err(error) => stock_path(resource@, required_extension@) == Err::<
                Seq<char>,
                StockPathError,
            >(error),
        },
{
    let normalized = text::replaced(resource, '\\', '/');
    if !text::same(text::trim(normalized.as_str()), normalized.as_str())
        || normalized.as_str().is_empty() || text::contains(normalized.as_str(), "\0") {
        return Err(StockPathError::Invalid);
    }
    let relative = match relative_of(normalized.as_str()) {
        Some(relative) => relative,
        None => return Err(StockPathError::Outside),
    };
    if !components_are_safe(relative.as_str()) {
        return Err(StockPathError::UnsafeComponent);
    }
    let folded = text::to_lower(relative.as_str());
    if text::ends_with(folded.as_str(), required_extension) {
        Ok("mapobj/".to_owned().concat(relative.as_str()))
    } else if text::same(required_extension, ".col") && !text::contains(
        text::tail_after_last(relative.as_str(), '/').as_str(),
        ".",
    ) {
        Ok("mapobj/".to_owned().concat(relative.concat(".col").as_str()))
    } else {
        Err(StockPathError::WrongExtension)
    }
}

/// The archive path that a stock resource name stands for.
pub fn stock_mapobj_archive_path(resource: &str, required_extension: &str) -> (r: Result<
    Vec<u8>,
    StockPathError,
>)
    ensures
        match stock_path(resource@, required_extension@) {
            Ok(path) => r matches Ok(bytes) && bytes@ == sky_bundle::bytes_of(path),
            Err(error) => r == Err::<Vec<u8>, StockPathError>(error),
        },
{
    match stock_mapobj_path(resource, required_extension) {
        Ok(path) => Ok(path.as_str().as_bytes_vec()),
        Err(error) => Err(error),
    }
}

/// An accepted stock path lies below `mapobj/`, ends as wanted when folded to lower case, and its
/// part below the directory has only safe components up to an added collision extension.
pub proof fn law_stock_path_is_contained(resource: Seq<char>, extension: Seq<char>)
    ensures
        stock_path(resource, extension) matches Ok(path) ==> {
            let below = path.skip("mapobj/"@.len() as int);
            &&& "mapobj/"@.is_prefix_of(path)
            &&& extension.is_suffix_of(text::lower(below))
            &&& has_safe_components(below) || (exists|stem: Seq<char>|
                below == stem + ".col"@ && #[trigger] has_safe_components(stem))
        },
{
    if let Ok(path) = stock_path(resource, extension) {
        let normalized = text::with_replaced(resource, '\\', '/');
        let relative = relative_part(normalized)->0;
        let full = with_extension(relative, extension)->0;
        let below = path.skip("mapobj/"@.len() as int);
        assert(below =~= full);
        if !extension.is_suffix_of(text::lower(relative)) {
            reveal_strlit(".col");
            assert(text::lower(".col"@) =~= ".col"@);
            assert(text::lower(full) =~= text::lower(relative) + ".col"@);
            assert(text::lower(full).subrange(
                text::lower(full).len() - 4,
                text::lower(full).len() as int,
            ) =~= ".col"@);
            assert(has_safe_components(relative));
        }
    }
}

proof fn lemma_added_ending(s: Seq<char>, c: char, ending: Seq<char>)
    requires
        !ending.contains(c),
    ensures
        text::last_index(s + ending, c) == text::last_index(s, c),
        text::split(s + ending, c) == text::split(s, c).drop_last().push(
            text::split(s, c).last() + ending,
        ),
    decreases ending.len(),
{
    text::lemma_last_index(s, c);
    text::lemma_last_index(s + ending, c);
    if ending.len() == 0 {
        assert(s + ending =~= s);
    } else {
        let shorter = ending.drop_last();
        assert(!shorter.contains(c)) by {
            if shorter.contains(c) {
                let i = choose|i: int| 0 <= i < shorter.len() && shorter[i] == c;
                assert(ending[i] == c);
            }
        }
        lemma_added_ending(s, c, shorter);
        assert((s + ending).drop_last() =~= s + shorter);
        assert((s + ending).last() == ending[ending.len() - 1]);
    }
    let at = text::last_index(s, c);
    if at < 0 {
        assert(text::split(s, c).drop_last() =~= Seq::empty());
        assert(text::split(s + ending, c) =~= seq![s + ending]);
    } else {
        assert((s + ending).take(at) =~= s.take(at));
        assert((s + ending).skip(at + 1) =~= s.skip(at + 1) + ending);
        assert(text::split(s, c).drop_last() =~= text::split(s.take(at), c));
    }
    assert(text::split(s + ending, c) =~= text::split(s, c).drop_last().push(
        text::split(s, c).last() + ending,
    ));
}

proof fn lemma_ending_keeps_components_safe(path: Seq<char>)
    requires
        has_safe_components(path),
    ensures
        has_safe_components(path + ".col"@),
{
    reveal_strlit(".col");
    reveal_strlit(".");
    reveal_strlit("..");
    assert(!".col"@.contains('/'));
    lemma_added_ending(path, '/', ".col"@);
    let before = text::split(path, '/');
    let after = text::split(path + ".col"@, '/');
    text::lemma_last_index(path, '/');
    assert(before.len() > 0);
    assert forall|i: int| 0 <= i < after.len() implies is_safe_component(#[trigger] after[i]) by {
        if i < before.len() - 1 {
            assert(after[i] == before[i]);
        } else {
            assert(after[i] == before.last() + ".col"@);
            assert(after[i].len() > 2);
        }
    }
}

/// The text holds neither a backslash nor a NUL.
pub open spec fn is_plain_text(s: Seq<char>) -> bool {
    forall|i: int| 0 <= i < s.len() ==> (#[trigger] s[i]) != '\\' && s[i] != '\0'
}

proof fn lemma_relative_is_plain(resource: Seq<char>)
    requires
        !text::occurs_in(text::with_replaced(resource, '\\', '/'), "\0"@),
        relative_part(text::with_replaced(resource, '\\', '/')) is Some,
    ensures
        is_plain_text(relative_part(text::with_replaced(resource, '\\', '/'))->0),
{
    let normalized = text::with_replaced(resource, '\\', '/');
    let relative = relative_part(normalized)->0;
    reveal_strlit("\0");
    assert forall|i: int| 0 <= i < normalized.len() implies (#[trigger] normalized[i]) != '\\'
        && normalized[i] != '\0' by {
        if normalized[i] == '\0' {
            assert(normalized.subrange(i, i + 1) =~= "\0"@);
            assert(text::stands_at(normalized, "\0"@, i));
        }
    }
    let cut = normalized.len() - relative.len();
    assert forall|i: int| 0 <= i < relative.len() implies (#[trigger] relative[i]) != '\\'
        && relative[i] != '\0' by {
        assert(relative[i] == normalized[i + cut]);
    }
}

proof fn lemma_own_directory(full: Seq<char>)
    ensures
        relative_part("mapobj/"@ + full) == Some(full),
{
    let path = "mapobj/"@ + full;
    let folded = text::lower(path);
    reveal_strlit("mapobj/");
    reveal_strlit("scene/mapobj/");
    reveal_strlit("/scene/mapobj/");
    assert(path[0] == 'm');
    assert(folded[0] == 'm');
    if "/scene/mapobj/"@.is_prefix_of(folded) {
        assert(folded.subrange(0, "/scene/mapobj/"@.len() as int)[0] == folded[0]);
        assert("/scene/mapobj/"@[0] == '/');
    }
    if "scene/mapobj/"@.is_prefix_of(folded) {
        assert(folded.subrange(0, "scene/mapobj/"@.len() as int)[0] == folded[0]);
        assert("scene/mapobj/"@[0] == 's');
    }
    assert(folded.subrange(0, "mapobj/"@.len() as int) =~= "mapobj/"@);
    assert(path.skip("mapobj/"@.len() as int) =~= full);
}

proof fn lemma_directory_is_a_component(full: Seq<char>)
    ensures
        text::split("mapobj/"@ + full, '/') == seq!["mapobj"@] + text::split(full, '/'),
    decreases full.len(),
{
    reveal_strlit("mapobj/");
    reveal_strlit("mapobj");
    let path = "mapobj/"@ + full;
    text::lemma_last_index(full, '/');
    text::lemma_last_index(path, '/');
    let at = text::last_index(full, '/');
    let place = text::last_index(path, '/');
    assert(path[6] == '/');
    if at < 0 {
        assert(place == 6) by {
            if place > 6 {
                assert(path[place] == full[place - 7]);
            }
        }
        assert(path.take(6) =~= "mapobj"@);
        assert(path.skip(7) =~= full);
        text::lemma_last_index("mapobj"@, '/');
        assert(text::split("mapobj"@, '/') =~= seq!["mapobj"@]);
        assert(text::split(full, '/') =~= seq![full]);
        assert(text::split(path, '/') =~= seq!["mapobj"@] + text::split(full, '/'));
    } else {
        assert(path[at + 7] == full[at]);
        assert(place == at + 7) by {
            if place > at + 7 {
                assert(path[place] == full[place - 7]);
            }
        }
        assert(path.take(place) =~= "mapobj/"@ + full.take(at));
        assert(path.skip(place + 1) =~= full.skip(at + 1));
        lemma_directory_is_a_component(full.take(at));
        assert(text::split(path, '/') =~= seq!["mapobj"@] + text::split(full, '/'));
    }
}

proof fn lemma_directory_is_safe(full: Seq<char>)
    requires
        has_safe_components(full),
    ensures
        has_safe_components("mapobj/"@ + full),
{
    reveal_strlit("mapobj");
    reveal_strlit(".");
    reveal_strlit("..");
    lemma_directory_is_a_component(full);
    let parts = text::split("mapobj/"@ + full, '/');
    assert forall|i: int| 0 <= i < parts.len() implies is_safe_component(#[trigger] parts[i]) by {
        if i == 0 {
            assert(parts[0].len() == 6);
        } else {
            assert(parts[i] == text::split(full, '/')[i - 1]);
        }
    }
}

/// An accepted stock path lies below `mapobj/`, holds neither `\\` nor NUL, has only safe
/// components and the wanted extension up to case; and it stands for itself, so that a second
/// call gives it back.
pub proof fn law_stock_path_stands_for_itself(resource: Seq<char>, extension: Seq<char>)
    requires
        extension == ".bmd"@ || extension == ".col"@,
    ensures
        stock_path(resource, extension) matches Ok(path) ==> {
            &&& "mapobj/"@.is_prefix_of(path)
            &&& extension.is_suffix_of(text::lower(path))
            &&& is_plain_text(path)
            &&& has_safe_components(path)
            &&& stock_path(path, extension) == Ok::<Seq<char>, StockPathError>(path)
        },
{
    if let Ok(path) = stock_path(resource, extension) {
        let normalized = text::with_replaced(resource, '\\', '/');
        let relative = relative_part(normalized)->0;
        let full = with_extension(relative, extension)->0;
        reveal_strlit(".col");
        reveal_strlit(".bmd");
        reveal_strlit("mapobj/");
        reveal_strlit("\0");
        law_stock_path_is_contained(resource, extension);
        assert(path.skip("mapobj/"@.len() as int) =~= full);
        lemma_relative_is_plain(resource);
        assert(is_plain_text(full));
        if full != relative {
            lemma_ending_keeps_components_safe(relative);
        }
        assert(is_plain_text(path)) by {
            assert forall|i: int| 0 <= i < path.len() implies (#[trigger] path[i]) != '\\'
                && path[i] != '\0' by {
                if i >= 7 {
                    assert(path[i] == full[i - 7]);
                }
            }
        }
        assert(text::with_replaced(path, '\\', '/') =~= path);
        let folded = text::lower(path);
        assert(folded.skip(7) =~= text::lower(full));
        let n = folded.len() as int;
        assert(folded.subrange(n - 4, n) =~= text::lower(full).subrange(
            text::lower(full).len() - 4,
            text::lower(full).len() as int,
        ));
        assert(folded.last() == extension[3]);
        assert(path[0] == 'm');
        assert(text::lower_char(path.last()) == extension[3]);
        assert(text::trim_start(path) == path);
        assert(text::trim_end(path) == path);
        assert(!text::occurs_in(path, "\0"@)) by {
            if text::occurs_in(path, "\0"@) {
                let i = choose|i: int| text::stands_at(path, "\0"@, i);
                assert(path.subrange(i, i + 1)[0] == path[i]);
            }
        }
        lemma_own_directory(full);
        lemma_directory_is_safe(full);
        assert(relative_part(path) == Some(full));
        assert(with_extension(full, extension) == Some(full));
    }
}

} // verus!
