//! JDrama records: the typed placement tree of a stage scene.
use vstd::prelude::*;

use crate::text;

verus! {

/// A vector whose components are the bit patterns of 32-bit floats.
#[derive(Debug, Clone, Copy, PartialEq, Eq, Structural)]
pub struct VectorBits {
    pub x: u32,
    pub y: u32,
    pub z: u32,
}

/// An object transform.
#[derive(Debug, Clone, Copy, PartialEq, Eq, Structural)]
pub struct JDramaTransform {
    pub translation: VectorBits,
    pub rotation: VectorBits,
    pub scale: VectorBits,
}

/// A bit pattern whose exponent is not all ones, so neither an infinity nor a NaN.
pub open spec fn finite_bits(bits: u32) -> bool {
    bits & 0x7f80_0000 != 0x7f80_0000
}

impl VectorBits {
    /// All components are finite.
    pub open spec fn finite(self) -> bool {
        finite_bits(self.x) && finite_bits(self.y) && finite_bits(self.z)
    }

    /// Whether all components are finite.
    pub fn is_finite(&self) -> (r: bool)
        ensures
            r == self.finite(),
    {
        self.x & 0x7f80_0000 != 0x7f80_0000 && self.y & 0x7f80_0000 != 0x7f80_0000 && self.z
            & 0x7f80_0000 != 0x7f80_0000
    }
}

impl JDramaTransform {
    /// Every component is finite.
    pub open spec fn finite(self) -> bool {
        self.translation.finite() && self.rotation.finite() && self.scale.finite()
    }

    /// Whether every component is finite.
    pub fn is_finite(&self) -> (r: bool)
        ensures
            r == self.finite(),
    {
        self.translation.is_finite() && self.rotation.is_finite() && self.scale.is_finite()
    }
}

/// The value of a record field.
#[derive(Debug)]
pub enum JDramaFieldValue {
    Text(String),
    U32(u32),
    I32(i32),
    F32Bits(u32),
    LightMap,
}

/// A named record field.
#[derive(Debug)]
pub struct JDramaField {
    pub name: String,
    pub value: JDramaFieldValue,
}

/// What a record holds besides its type and name.
#[derive(Debug)]
pub enum JDramaRecordPayload {
    Group { fields: Vec<JDramaField>, children: Vec<JDramaRecord> },
    Fields { fields: Vec<JDramaField> },
    Actor { transform: JDramaTransform, character_name: String, fields: Vec<JDramaField> },
}

/// One record of the placement tree.
#[derive(Debug)]
pub struct JDramaRecord {
    pub record_type: String,
    pub name: String,
    pub payload: JDramaRecordPayload,
}

/// The abstract value of a field value.
#[verifier::ext_equal]
pub enum FieldValueView {
    Text(Seq<char>),
    U32(u32),
    I32(i32),
    F32Bits(u32),
    LightMap,
}

/// The abstract value of a field.
#[verifier::ext_equal]
pub struct FieldView {
    pub name: Seq<char>,
    pub value: FieldValueView,
}

/// The abstract value of a payload.
#[verifier::ext_equal]
pub enum PayloadView {
    Group { fields: Seq<FieldView>, children: Seq<RecordView> },
    Fields { fields: Seq<FieldView> },
    Actor { transform: JDramaTransform, character_name: Seq<char>, fields: Seq<FieldView> },
}

/// The abstract value of a record.
#[verifier::ext_equal]
pub struct RecordView {
    pub record_type: Seq<char>,
    pub name: Seq<char>,
    pub payload: PayloadView,
}

impl View for JDramaFieldValue {
    type V = FieldValueView;

    open spec fn view(&self) -> FieldValueView {
        match self {
            JDramaFieldValue::Text(s) => FieldValueView::Text(s@),
            JDramaFieldValue::U32(n) => FieldValueView::U32(*n),
            JDramaFieldValue::I32(n) => FieldValueView::I32(*n),
            JDramaFieldValue::F32Bits(n) => FieldValueView::F32Bits(*n),
            JDramaFieldValue::LightMap => FieldValueView::LightMap,
        }
    }
}

impl View for JDramaField {
    type V = FieldView;

    open spec fn view(&self) -> FieldView {
        FieldView { name: self.name@, value: self.value@ }
    }
}

/// The abstract values of a list of fields.
pub open spec fn fields_view(fields: Seq<JDramaField>) -> Seq<FieldView> {
    Seq::new(fields.len(), |i: int| fields[i]@)
}

/// The abstract value of a record.
pub open spec fn record_view(record: JDramaRecord) -> RecordView
    decreases record,
{
    RecordView {
        record_type: record.record_type@,
        name: record.name@,
        payload: match record.payload {
            JDramaRecordPayload::Group { fields, children } => PayloadView::Group {
                fields: fields_view(fields@),
                children: Seq::new(
                    children@.len(),
                    |i: int|
                        if 0 <= i < children@.len() {
                            record_view(children@[i])
                        } else {
                            arbitrary()
                        },
                ),
            },
            JDramaRecordPayload::Fields { fields } => PayloadView::Fields {
                fields: fields_view(fields@),
            },
            JDramaRecordPayload::Actor { transform, character_name, fields } => PayloadView::Actor {
                transform,
                character_name: character_name@,
                fields: fields_view(fields@),
            },
        },
    }
}

impl View for JDramaRecord {
    type V = RecordView;

    open spec fn view(&self) -> RecordView {
        record_view(*self)
    }
}

/// The children of a record; a record that is no group has none.
pub open spec fn children_of(record: JDramaRecord) -> Seq<JDramaRecord> {
    match record.payload {
        JDramaRecordPayload::Group { children, .. } => children@,
        _ => Seq::empty(),
    }
}

/// The record at `path`, where each step names a child by its position.
pub open spec fn record_at(record: JDramaRecord, path: Seq<usize>) -> Option<JDramaRecord>
    decreases path.len(),
{
    if path.len() == 0 {
        Some(record)
    } else if path[0] < children_of(record).len() {
        record_at(children_of(record)[path[0] as int], path.drop_first())
    } else {
        None
    }
}

/// The record is a group of the given type.
pub open spec fn is_group_of_type(record: JDramaRecord, record_type: Seq<char>) -> bool {
    record.payload is Group && record.record_type@ == record_type
}

/// Path of the first group of the given type in pre-order.
pub open spec fn group_path(record: JDramaRecord, record_type: Seq<char>) -> Option<Seq<usize>>
    decreases record, children_of(record).len() + 2,
{
    if !(record.payload is Group) {
        None
    } else if record.record_type@ == record_type {
        Some(Seq::empty())
    } else {
        group_path_from(record, record_type, 0)
    }
}

/// Path of the first group of the given type in the children from position `from` on.
pub open spec fn group_path_from(record: JDramaRecord, record_type: Seq<char>, from: nat) -> Option<
    Seq<usize>,
>
    decreases record, children_of(record).len() - from + 1,
{
    match record.payload {
        JDramaRecordPayload::Group { children, .. } => if from >= children@.len() {
            None
        } else {
            match group_path(children@[from as int], record_type) {
                Some(path) => Some(seq![from as usize] + path),
                None => group_path_from(record, record_type, from + 1),
            }
        },
        _ => None,
    }
}

/// Names of a record and of everything below it, in pre-order.
pub open spec fn record_names(record: JDramaRecord) -> Seq<Seq<char>>
    decreases record, children_of(record).len() + 2,
{
    seq![record.name@] + child_names(record, children_of(record).len())
}

/// Names of everything in the first `count` children, in pre-order.
pub open spec fn child_names(record: JDramaRecord, count: nat) -> Seq<Seq<char>>
    decreases record, count + 1,
{
    match record.payload {
        JDramaRecordPayload::Group { children, .. } => if count == 0 || count > children@.len() {
            Seq::empty()
        } else {
            child_names(record, (count - 1) as nat) + record_names(children@[count - 1])
        },
        _ => Seq::empty(),
    }
}

/// Path of the first group of the given type in pre-order, each step being the position of a child.
pub fn find_jdrama_group_path_in_record(record: &JDramaRecord, record_type: &str) -> (r: Option<
    Vec<usize>,
>)
    ensures
        match r {
            Some(path) => group_path(*record, record_type@) == Some(path@),
            None => group_path(*record, record_type@) is None,
        },
    decreases record,
{
    match &record.payload {
        JDramaRecordPayload::Group { fields: _, children } => {
            if text::same(record.record_type.as_str(), record_type) {
                return Some(Vec::new());
            }
            let mut index: usize = 0;
            while index < children.len()
                invariant
                    index <= children.len(),
                    record.payload matches JDramaRecordPayload::Group { children: c, .. } && c
                        == children,
                    group_path(*record, record_type@) == group_path_from(
                        *record,
                        record_type@,
                        index as nat,
                    ),
                decreases children.len() - index,
            {
                let found = find_jdrama_group_path_in_record(&children[index], record_type);
                if let Some(rest) = found {
                    let mut path: Vec<usize> = Vec::new();
                    path.push(index);
                    let mut rest = rest;
                    path.append(&mut rest);
                    return Some(path);
                }
                index += 1;
            }
            None
        },
        _ => None,
    }
}

/// Appends the names of a record and of everything below it, in pre-order.
pub fn collect_jdrama_record_names(record: &JDramaRecord, names: &mut Vec<String>)
    ensures
        text::views(final(names)@) == text::views(old(names)@) + record_names(*record),
    decreases record,
{
    names.push(record.name.clone());
    proof {
        assert(text::views(names@) =~= text::views(old(names)@) + seq![record.name@]);
    }
    if let JDramaRecordPayload::Group { fields: _, children } = &record.payload {
        let mut index: usize = 0;
        while index < children.len()
            invariant
                index <= children.len(),
                record.payload matches JDramaRecordPayload::Group { children: c, .. } && c
                    == children,
                text::views(names@) == text::views(old(names)@) + (seq![record.name@] + child_names(
                    *record,
                    index as nat,
                )),
            decreases children.len() - index,
        {
            collect_jdrama_record_names(&children[index], names);
            index += 1;
        }
    }
    proof {
        assert(text::views(names@) =~= text::views(old(names)@) + record_names(*record));
    }
}

/// The path that the search returns leads to a group of the wanted type.
pub proof fn law_group_path_leads_to_the_group(record: JDramaRecord, record_type: Seq<char>)
    ensures
        group_path(record, record_type) matches Some(path) ==> (record_at(record, path) matches Some(
            found,
        ) && is_group_of_type(found, record_type)),
    decreases record, children_of(record).len() + 2,
{
    if record.payload is Group && record.record_type@ != record_type {
        lemma_group_path_from(record, record_type, 0);
    }
}

proof fn lemma_group_path_from(record: JDramaRecord, record_type: Seq<char>, from: nat)
    requires
        record.payload is Group,
    ensures
        group_path_from(record, record_type, from) matches Some(path) ==> (record_at(
            record,
            path,
        ) matches Some(found) && is_group_of_type(found, record_type)),
    decreases record, children_of(record).len() - from + 1,
{
    if let JDramaRecordPayload::Group { children, .. } = record.payload {
        if from < children@.len() {
            law_group_path_leads_to_the_group(children@[from as int], record_type);
            if let Some(path) = group_path(children@[from as int], record_type) {
                assert(children@.len() == children.len());
                assert((seq![from as usize] + path).drop_first() =~= path);
            } else {
                lemma_group_path_from(record, record_type, from + 1);
            }
        }
    }
}

/// A number is finite where it is no infinity and no NaN, whatever its sign; a transform where all
/// nine of its numbers are.
pub proof fn law_finite_numbers(bits: u32, t: JDramaTransform)
    ensures
        finite_bits(bits) <==> bits < 0x7f80_0000 || 0x8000_0000 <= bits < 0xff80_0000,
        t.finite() <==> {
            &&& finite_bits(t.translation.x) && finite_bits(t.translation.y) && finite_bits(
                t.translation.z,
            )
            &&& finite_bits(t.rotation.x) && finite_bits(t.rotation.y) && finite_bits(t.rotation.z)
            &&& finite_bits(t.scale.x) && finite_bits(t.scale.y) && finite_bits(t.scale.z)
        },
{
    assert((bits & 0x7f80_0000u32 != 0x7f80_0000u32) <==> (bits < 0x7f80_0000u32 || (0x8000_0000u32
        <= bits && bits < 0xff80_0000u32))) by (bit_vector);
}

} // verus!
