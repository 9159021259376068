//! The open stage: its assets and its placed objects.
use vstd::prelude::*;

use crate::search;
use crate::text;

verus! {

/// What a stage asset holds.
#[derive(Debug, Clone, Copy, PartialEq, Eq, Structural)]
pub enum StageAssetKind {
    Placement,
    Model,
    Texture,
    Animation,
    MaterialTable,
    Particle,
    Collision,
    Other,
}

/// A file of the stage, or a member of one of its archives.
#[derive(Debug)]
pub struct StageAsset {
    pub kind: StageAssetKind,
    pub path: String,
}

/// A parameter of a placed object.
#[derive(Debug)]
pub struct RawParam {
    pub name: String,
    pub value: String,
}

/// A placed object.
#[derive(Debug)]
pub struct SceneObject {
    pub id: String,
    pub factory_name: String,
    pub class_name: Option<String>,
    pub raw_params: Vec<RawParam>,
}

/// The parameter has this name.
pub open spec fn has_param_name(name: Seq<char>) -> spec_fn(RawParam) -> bool {
    |param: RawParam| param.name@ == name
}

impl SceneObject {
    /// The value of a parameter.
    pub open spec fn param(self, name: Seq<char>) -> Option<Seq<char>> {
        match search::first_position(self.raw_params@, has_param_name(name)) {
            Some(i) => Some(self.raw_params@[i].value@),
            None => None,
        }
    }

    /// An object without parameters.
    pub fn new(id: &str, factory_name: &str) -> (r: SceneObject)
        ensures
            r.id@ == id@,
            r.factory_name@ == factory_name@,
            r.class_name is None,
            r.raw_params@.len() == 0,
    {
        SceneObject {
            id: id.to_owned(),
            factory_name: factory_name.to_owned(),
            class_name: None,
            raw_params: Vec::new(),
        }
    }

    /// The value of a parameter.
    pub fn raw_param(&self, name: &str) -> (r: Option<&str>)
        ensures
            match r {
                Some(value) => self.param(name@) == Some(value@),
                None => self.param(name@) is None,
            },
    {
        let mut i: usize = 0;
        while i < self.raw_params.len()
            invariant
                i <= self.raw_params.len(),
                forall|j: int|
                    0 <= j < i ==> !has_param_name(name@)(#[trigger] self.raw_params@[j]),
            decreases self.raw_params.len() - i,
        {
            if text::same(self.raw_params[i].name.as_str(), name) {
                proof {
                    search::lemma_found(self.raw_params@, has_param_name(name@), i as int);
                }
                return Some(self.raw_params[i].value.as_str());
            }
            i += 1;
        }
        proof {
            search::lemma_not_found(self.raw_params@, has_param_name(name@));
        }
        None
    }

    /// The parameter as an index: a decimal integer that is not negative.
    pub open spec fn index_param(self, name: Seq<char>) -> Option<usize> {
        match self.param(name) {
            Some(value) => match text::i32_value(value) {
                Some(n) => if n >= 0 {
                    Some(n as usize)
                } else {
                    None
                },
                None => None,
            },
            None => None,
        }
    }

    /// The parameter as an index: a decimal integer that is not negative.
    pub fn raw_index(&self, name: &str) -> (r: Option<usize>)
        ensures
            r == self.index_param(name@),
    {
        match self.raw_param(name) {
            Some(value) => match text::parse_i32(value) {
                Some(n) => if n >= 0 {
                    Some(n as usize)
                } else {
                    None
                },
                None => None,
            },
            None => None,
        }
    }
}

/// A parameter is read from its first entry, and missing only where no entry has its name.
pub proof fn law_parameters_go_by_their_name(object: SceneObject, name: Seq<char>)
    ensures
        match object.param(name) {
            Some(value) => exists|i: int|
                0 <= i < object.raw_params@.len() && (#[trigger] object.raw_params@[i]).name@
                    == name && object.raw_params@[i].value@ == value && forall|j: int|
                    0 <= j < i ==> (#[trigger] object.raw_params@[j]).name@ != name,
            None => forall|i: int|
                0 <= i < object.raw_params@.len() ==> (#[trigger] object.raw_params@[i]).name@
                    != name,
        },
{
    search::lemma_first_position(object.raw_params@, has_param_name(name));
    if search::first_position(object.raw_params@, has_param_name(name)) is None {
        assert forall|i: int| 0 <= i < object.raw_params@.len() implies (
        #[trigger] object.raw_params@[i]).name@ != name by {
            assert(!has_param_name(name)(object.raw_params@[i]));
        }
    } else {
        let i = search::first_position(object.raw_params@, has_param_name(name))->0;
        assert(has_param_name(name)(object.raw_params@[i]));
        assert forall|j: int| 0 <= j < i implies (#[trigger] object.raw_params@[j]).name@
            != name by {
            assert(!has_param_name(name)(object.raw_params@[j]));
        }
    }
}

} // verus!
